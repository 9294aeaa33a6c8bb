//! Laws relating the operations to one another. Properties of a single
//! operation — validation failures leaving the store untouched, the
//! owner-only rule, the star-counter floor and its consistency with the
//! set of open star records — are stated directly on each operation's
//! contract in `registry`; here stand the laws that span two calls.

use vstd::prelude::*;

use crate::errors::VanishError;
use crate::events::{RepoCreated, CollaboratorAdded};
use crate::records::{RepoEntry, CollabEntry};
use crate::registry::{
    create_outcome, add_collab_outcome, remove_collab_outcome, has_repo_at, repo_idx,
    has_collab_at, collab_idx, unique_repo_addrs, unique_collab_addrs,
};

verus! {

/// After a successful `create_repo`, the record found by re-deriving the
/// same (owner, name) address records that owner, zero stars, and an empty
/// head commit. `d` is the derivation outcome the creation used; since
/// derivation is deterministic, re-deriving yields the same `d`.
pub proof fn lemma_create_then_rederive(
    pre: Seq<RepoEntry>,
    post: Seq<RepoEntry>,
    owner: Seq<u8>,
    name: Seq<u8>,
    description: Seq<u8>,
    is_private: bool,
    now: i64,
    d: Option<(Seq<u8>, u8)>,
    r: Result<RepoCreated, VanishError>,
)
    requires
        unique_repo_addrs(post),
        create_outcome(pre, post, owner, name, description, is_private, now, d, r),
        r is Ok,
    ensures
        d is Some,
        has_repo_at(post, (d->0).0),
        post[repo_idx(post, (d->0).0)].repo.owner@ == owner,
        post[repo_idx(post, (d->0).0)].repo.stars == 0,
        post[repo_idx(post, (d->0).0)].repo.head_commit@.len() == 0,
{
    let p = d->0;
    let k = pre.len() as int;
    assert(post.last() == post[k]);
    assert(post[k].addr@ == p.0);
    assert(has_repo_at(post, p.0));
    let j = repo_idx(post, p.0);
    assert(0 <= j < post.len() && post[j].addr@ == p.0);
    assert(j == k);
}

/// Granting a collaborator seat and then removing it hands the grants back
/// unchanged: the removal succeeds, and the store is indistinguishable from
/// before the grant (the grant record, timestamps and all, is gone; the
/// operations touch no repository or star record). `d` is the derivation
/// outcome for (repository, grantee) both calls rest on.
pub proof fn lemma_add_then_remove_collaborator(
    pre_r: Seq<RepoEntry>,
    s0: Seq<CollabEntry>,
    s1: Seq<CollabEntry>,
    s2: Seq<CollabEntry>,
    auth: bool,
    repo_addr: Seq<u8>,
    grantee: Seq<u8>,
    can_push: bool,
    now: i64,
    d: Option<(Seq<u8>, u8)>,
    r1: Result<CollaboratorAdded, VanishError>,
    r2: Result<(), VanishError>,
)
    requires
        unique_collab_addrs(s0),
        add_collab_outcome(pre_r, s0, s1, auth, repo_addr, grantee, can_push, now, d, r1),
        r1 is Ok,
        remove_collab_outcome(pre_r, s1, s2, auth, repo_addr, (d->0).0, d, r2),
    ensures
        r2 is Ok,
        s2 == s0,
{
    let p = d->0;
    let k = s0.len() as int;
    assert(s1.last() == s1[k]);
    assert(s1[k].addr@ == p.0);
    assert forall|i: int, j: int| 0 <= i < j < s1.len() implies s1[i].addr@ != s1[j].addr@ by {
        assert(s1[i] == s0[i]);
        if j == k {
            assert(!has_collab_at(s0, p.0));
        } else {
            assert(s1[j] == s0[j]);
        }
    }
    assert(has_collab_at(s1, p.0));
    let j = collab_idx(s1, p.0);
    assert(0 <= j < s1.len() && s1[j].addr@ == p.0);
    assert(j == k);
    assert(d == Some((p.0, s1[k].collab.bump)));
    assert(s2 == s1.remove(k));
    assert(s1.remove(k) =~= s0);
}

} // verus!
