//! The record store and the authorization & lifecycle engine over it.
//!
//! Every operation re-derives the address of each record it is asked to
//! touch and refuses on any mismatch; validation always precedes mutation,
//! so a failed operation leaves the store exactly as it found it.

use vstd::prelude::*;

use crate::addressing::{derived, repo_tag, collab_tag, star_tag, program_key};
use crate::addressing::{repo_address, collab_address, star_address};
use crate::errors::VanishError;
use crate::events::{RepoCreated, RepoPushed, CollaboratorAdded, RepoStarred, OwnershipTransferred};
use crate::records::{Repository, Collaborator, Star, RepoEntry, CollabEntry, StarEntry};

verus! {

// ===========================================================================
// The account bundles an operation is invoked with: the caller's
// authenticated identity plus the addresses of the records it references.
// ===========================================================================

/// Accounts of `create_repo`: the paying owner. The repository's address is
/// derived from the owner and the requested name.
pub struct CreateRepo {
    pub owner: Vec<u8>,
}

/// Accounts of `push_update`: the claimed owner and the repository address.
pub struct PushUpdate {
    pub owner: Vec<u8>,
    pub repository: Vec<u8>,
}

/// Accounts of `add_collaborator`: the claimed owner and the repository
/// address. The grant's address is derived from the repository and grantee.
pub struct AddCollaborator {
    pub owner: Vec<u8>,
    pub repository: Vec<u8>,
}

/// Accounts of `remove_collaborator`: the claimed owner, the repository
/// address, and the address of the grant to close.
pub struct RemoveCollaborator {
    pub owner: Vec<u8>,
    pub repository: Vec<u8>,
    pub collaborator_account: Vec<u8>,
}

/// Accounts of `star_repo`: the starring user and the repository address.
pub struct StarRepo {
    pub user: Vec<u8>,
    pub repository: Vec<u8>,
}

/// Accounts of `unstar_repo`: the unstarring user and the repository
/// address. The star's address is re-derived from the pair.
pub struct UnstarRepo {
    pub user: Vec<u8>,
    pub repository: Vec<u8>,
}

/// Accounts of `transfer_ownership`: the claimed current owner and the
/// repository address.
pub struct TransferOwnership {
    pub owner: Vec<u8>,
    pub repository: Vec<u8>,
}

/// Accounts of `delete_repo`: the claimed owner and the repository address.
pub struct DeleteRepo {
    pub owner: Vec<u8>,
    pub repository: Vec<u8>,
}

// ===========================================================================
// Lookups by address
// ===========================================================================

/// Some repository lives at `addr`.
pub open spec fn has_repo_at(repos: Seq<RepoEntry>, addr: Seq<u8>) -> bool {
    exists|i: int| 0 <= i < repos.len() && repos[i].addr@ == addr
}

/// The index of the repository at `addr` (unique under `Registry::wf`).
pub open spec fn repo_idx(repos: Seq<RepoEntry>, addr: Seq<u8>) -> int {
    choose|i: int| 0 <= i < repos.len() && repos[i].addr@ == addr
}

/// Some collaborator grant lives at `addr`.
pub open spec fn has_collab_at(collabs: Seq<CollabEntry>, addr: Seq<u8>) -> bool {
    exists|i: int| 0 <= i < collabs.len() && collabs[i].addr@ == addr
}

/// The index of the grant at `addr` (unique under `Registry::wf`).
pub open spec fn collab_idx(collabs: Seq<CollabEntry>, addr: Seq<u8>) -> int {
    choose|i: int| 0 <= i < collabs.len() && collabs[i].addr@ == addr
}

/// Some star lives at `addr`.
pub open spec fn has_star_at(stars: Seq<StarEntry>, addr: Seq<u8>) -> bool {
    exists|i: int| 0 <= i < stars.len() && stars[i].addr@ == addr
}

/// The index of the star at `addr` (unique under `Registry::wf`).
pub open spec fn star_idx(stars: Seq<StarEntry>, addr: Seq<u8>) -> int {
    choose|i: int| 0 <= i < stars.len() && stars[i].addr@ == addr
}

// ===========================================================================
// Star accounting: the counter each repository carries against the set of
// open star records that point at it.
// ===========================================================================

/// How many stars point at the repository living at `addr`.
pub open spec fn star_count_for(stars: Seq<StarEntry>, addr: Seq<u8>) -> nat
    decreases stars.len(),
{
    if stars.len() == 0 {
        0
    } else {
        star_count_for(stars.drop_last(), addr) + if stars.last().star.repository@ == addr {
            1nat
        } else {
            0nat
        }
    }
}

/// Every repository's counter equals the number of open stars on it.
pub open spec fn counts_consistent(repos: Seq<RepoEntry>, stars: Seq<StarEntry>) -> bool {
    forall|i: int| 0 <= i < repos.len()
        ==> #[trigger] repos[i].repo.stars == star_count_for(stars, repos[i].addr@)
}

proof fn lemma_count_push(s: Seq<StarEntry>, a: Seq<u8>, e: StarEntry)
    ensures
        star_count_for(s.push(e), a) == star_count_for(s, a) + if e.star.repository@ == a {
            1nat
        } else {
            0nat
        },
{
    assert(s.push(e).drop_last() =~= s);
    assert(s.push(e).last() == e);
}

proof fn lemma_count_remove(s: Seq<StarEntry>, a: Seq<u8>, i: int)
    requires
        0 <= i < s.len(),
    ensures
        star_count_for(s, a) == star_count_for(s.remove(i), a) + if s[i].star.repository@ == a {
            1nat
        } else {
            0nat
        },
    decreases s.len(),
{
    if i == s.len() - 1 {
        assert(s.remove(i) =~= s.drop_last());
    } else {
        let s2 = s.drop_last();
        lemma_count_remove(s2, a, i);
        assert(s.remove(i).drop_last() =~= s2.remove(i));
        assert(s.remove(i).last() == s.last());
    }
}

proof fn lemma_count_member(s: Seq<StarEntry>, a: Seq<u8>, i: int)
    requires
        0 <= i < s.len(),
        s[i].star.repository@ == a,
    ensures
        star_count_for(s, a) >= 1,
    decreases s.len(),
{
    if i < s.len() - 1 {
        lemma_count_member(s.drop_last(), a, i);
    }
}

// ===========================================================================
// The store itself
// ===========================================================================

/// The record store: every record of the registry, each at the address it
/// was created at.
pub struct Registry {
    pub repos: Vec<RepoEntry>,
    pub collabs: Vec<CollabEntry>,
    pub stars: Vec<StarEntry>,
}

/// No two repositories share an address.
pub open spec fn unique_repo_addrs(repos: Seq<RepoEntry>) -> bool {
    forall|i: int, j: int| 0 <= i < j < repos.len() ==> repos[i].addr@ != repos[j].addr@
}

/// No two collaborator grants share an address.
pub open spec fn unique_collab_addrs(collabs: Seq<CollabEntry>) -> bool {
    forall|i: int, j: int| 0 <= i < j < collabs.len() ==> collabs[i].addr@ != collabs[j].addr@
}

/// No two stars share an address.
pub open spec fn unique_star_addrs(stars: Seq<StarEntry>) -> bool {
    forall|i: int, j: int| 0 <= i < j < stars.len() ==> stars[i].addr@ != stars[j].addr@
}

impl Registry {
    /// Well-formedness: addresses are unique within each record kind, and
    /// every stored repository satisfies its field invariants.
    pub open spec fn wf(self) -> bool {
        &&& unique_repo_addrs(self.repos@)
        &&& unique_collab_addrs(self.collabs@)
        &&& unique_star_addrs(self.stars@)
        &&& forall|i: int| 0 <= i < self.repos@.len() ==> (#[trigger] self.repos@[i].repo).valid()
    }

    /// An empty registry: well-formed, with trivially consistent counters.
    pub fn new() -> (r: Registry)
        ensures
            r.wf(),
            r.repos@.len() == 0,
            r.collabs@.len() == 0,
            r.stars@.len() == 0,
            counts_consistent(r.repos@, r.stars@),
    {
        Registry { repos: Vec::new(), collabs: Vec::new(), stars: Vec::new() }
    }
}

// ===========================================================================
// Executable helpers
// ===========================================================================

/// Byte-for-byte equality of two byte strings.
fn bytes_eq(a: &Vec<u8>, b: &Vec<u8>) -> (r: bool)
    ensures
        r <==> a@ == b@,
{
    if a.len() != b.len() {
        return false;
    }
    let mut i: usize = 0;
    while i < a.len()
        invariant
            i <= a@.len(),
            a@.len() == b@.len(),
            forall|j: int| 0 <= j < i ==> a@[j] == b@[j],
        decreases a@.len() - i,
    {
        if a[i] != b[i] {
            return false;
        }
        i = i + 1;
    }
    proof {
        assert(a@ =~= b@);
    }
    true
}

/// A copy of a byte string.
fn clone_bytes(v: &Vec<u8>) -> (r: Vec<u8>)
    ensures
        r@ == v@,
{
    let mut r: Vec<u8> = Vec::new();
    let mut i: usize = 0;
    while i < v.len()
        invariant
            i <= v@.len(),
            r@.len() == i,
            forall|j: int| 0 <= j < i ==> r@[j] == v@[j],
        decreases v@.len() - i,
    {
        r.push(v[i]);
        i = i + 1;
    }
    proof {
        assert(r@ =~= v@);
    }
    r
}

fn find_repo(repos: &Vec<RepoEntry>, addr: &Vec<u8>) -> (r: Option<usize>)
    ensures
        match r {
            Some(i) => i < repos@.len() && repos@[i as int].addr@ == addr@,
            None => !has_repo_at(repos@, addr@),
        },
{
    let mut i: usize = 0;
    while i < repos.len()
        invariant
            i <= repos@.len(),
            forall|j: int| 0 <= j < i ==> repos@[j].addr@ != addr@,
        decreases repos@.len() - i,
    {
        if bytes_eq(&repos[i].addr, addr) {
            return Some(i);
        }
        i = i + 1;
    }
    None
}

fn find_collab(collabs: &Vec<CollabEntry>, addr: &Vec<u8>) -> (r: Option<usize>)
    ensures
        match r {
            Some(i) => i < collabs@.len() && collabs@[i as int].addr@ == addr@,
            None => !has_collab_at(collabs@, addr@),
        },
{
    let mut i: usize = 0;
    while i < collabs.len()
        invariant
            i <= collabs@.len(),
            forall|j: int| 0 <= j < i ==> collabs@[j].addr@ != addr@,
        decreases collabs@.len() - i,
    {
        if bytes_eq(&collabs[i].addr, addr) {
            return Some(i);
        }
        i = i + 1;
    }
    None
}

fn find_star(stars: &Vec<StarEntry>, addr: &Vec<u8>) -> (r: Option<usize>)
    ensures
        match r {
            Some(i) => i < stars@.len() && stars@[i as int].addr@ == addr@,
            None => !has_star_at(stars@, addr@),
        },
{
    let mut i: usize = 0;
    while i < stars.len()
        invariant
            i <= stars@.len(),
            forall|j: int| 0 <= j < i ==> stars@[j].addr@ != addr@,
        decreases stars@.len() - i,
    {
        if bytes_eq(&stars[i].addr, addr) {
            return Some(i);
        }
        i = i + 1;
    }
    None
}

proof fn lemma_found_repo_is_idx(repos: Seq<RepoEntry>, addr: Seq<u8>, i: int)
    requires
        unique_repo_addrs(repos),
        0 <= i < repos.len(),
        repos[i].addr@ == addr,
    ensures
        has_repo_at(repos, addr),
        repo_idx(repos, addr) == i,
{
    assert(has_repo_at(repos, addr));
    let j = repo_idx(repos, addr);
    assert(0 <= j < repos.len() && repos[j].addr@ == addr);
}

proof fn lemma_found_collab_is_idx(collabs: Seq<CollabEntry>, addr: Seq<u8>, i: int)
    requires
        unique_collab_addrs(collabs),
        0 <= i < collabs.len(),
        collabs[i].addr@ == addr,
    ensures
        has_collab_at(collabs, addr),
        collab_idx(collabs, addr) == i,
{
    assert(has_collab_at(collabs, addr));
    let j = collab_idx(collabs, addr);
    assert(0 <= j < collabs.len() && collabs[j].addr@ == addr);
}

proof fn lemma_found_star_is_idx(stars: Seq<StarEntry>, addr: Seq<u8>, i: int)
    requires
        unique_star_addrs(stars),
        0 <= i < stars.len(),
        stars[i].addr@ == addr,
    ensures
        has_star_at(stars, addr),
        star_idx(stars, addr) == i,
{
    assert(has_star_at(stars, addr));
    let j = star_idx(stars, addr);
    assert(0 <= j < stars.len() && stars[j].addr@ == addr);
}

// ===========================================================================
// Authorization: the seeds-plus-owner check every guarded operation makes.
// ===========================================================================

/// The caller is the repository's recorded owner, and re-deriving the
/// repository's address from the caller and the stored name reproduces the
/// address and bump it actually lives at.
pub open spec fn repo_auth(e: RepoEntry, caller: Seq<u8>) -> bool {
    &&& derived(repo_tag(), caller, e.repo.name@, program_key()) == Some((e.addr@, e.repo.bump))
    &&& e.repo.owner@ == caller
}

/// Re-derive the repository address from the caller and the stored name,
/// compare address and bump, then match the stored owner.
fn check_repo_auth(e: &RepoEntry, caller: &Vec<u8>) -> (r: bool)
    ensures
        r == repo_auth(*e, caller@),
{
    match repo_address(caller, &e.repo.name) {
        None => false,
        Some((addr, bump)) => {
            if bytes_eq(&addr, &e.addr) && bump == e.repo.bump {
                bytes_eq(&e.repo.owner, caller)
            } else {
                false
            }
        },
    }
}

// ===========================================================================
// What each operation does, stated field by field.
// ===========================================================================

/// `e` is a freshly created repository record.
pub open spec fn repo_created(e: RepoEntry, addr: Seq<u8>, bump: u8, owner: Seq<u8>, name: Seq<u8>, description: Seq<u8>, is_private: bool, now: i64) -> bool {
    &&& e.addr@ == addr
    &&& e.repo.owner@ == owner
    &&& e.repo.name@ == name
    &&& e.repo.description@ == description
    &&& e.repo.is_private == is_private
    &&& e.repo.created_at == now
    &&& e.repo.updated_at == now
    &&& e.repo.head_commit@.len() == 0
    &&& e.repo.ipfs_cid@.len() == 0
    &&& e.repo.stars == 0
    &&& e.repo.bump == bump
}

/// The event a successful `create_repo` reports.
pub open spec fn created_event(ev: RepoCreated, owner: Seq<u8>, name: Seq<u8>, is_private: bool, now: i64) -> bool {
    &&& ev.owner@ == owner
    &&& ev.name@ == name
    &&& ev.is_private == is_private
    &&& ev.timestamp == now
}

/// Exactly what `create_repo` does for every input, success and failure
/// alike. `d` is the derivation outcome for (owner, name).
pub open spec fn create_outcome(
    pre: Seq<RepoEntry>,
    post: Seq<RepoEntry>,
    owner: Seq<u8>,
    name: Seq<u8>,
    description: Seq<u8>,
    is_private: bool,
    now: i64,
    d: Option<(Seq<u8>, u8)>,
    r: Result<RepoCreated, VanishError>,
) -> bool {
    if name.len() > 64 {
        r matches Err(VanishError::NameTooLong) && post == pre
    } else if description.len() > 256 {
        r matches Err(VanishError::DescriptionTooLong) && post == pre
    } else if name.len() == 0 {
        r matches Err(VanishError::NameEmpty) && post == pre
    } else {
        match d {
            None => r matches Err(VanishError::Unauthorized) && post == pre,
            Some(p) => if has_repo_at(pre, p.0) {
                r matches Err(VanishError::AlreadyExists) && post == pre
            } else {
                &&& r matches Ok(ev) && created_event(ev, owner, name, is_private, now)
                &&& post.len() == pre.len() + 1
                &&& forall|j: int| 0 <= j < pre.len() ==> post[j] == pre[j]
                &&& repo_created(post.last(), p.0, p.1, owner, name, description, is_private, now)
            },
        }
    }
}

impl Registry {
    /// Create a repository for `ctx.owner` under `name`. The record is
    /// placed at the address derived from (owner, name); the name must be
    /// 1 to 64 bytes and the description at most 256.
    pub fn create_repo(&mut self, ctx: CreateRepo, name: Vec<u8>, description: Vec<u8>, is_private: bool, now: i64) -> (r: Result<RepoCreated, VanishError>)
        requires
            old(self).wf(),
        ensures
            final(self).wf(),
            final(self).collabs@ == old(self).collabs@,
            final(self).stars@ == old(self).stars@,
            create_outcome(
                old(self).repos@,
                final(self).repos@,
                ctx.owner@,
                name@,
                description@,
                is_private,
                now,
                derived(repo_tag(), ctx.owner@, name@, program_key()),
                r,
            ),
            // a name or description over the limits, or an empty name,
            // always fails and creates no record
            (name@.len() == 0 || name@.len() > 64 || description@.len() > 256)
                ==> r is Err && final(self).repos@ == old(self).repos@,
            // counters stay consistent unless orphaned stars already sat at
            // the newly derived address (the recreate-after-delete gap)
            (counts_consistent(old(self).repos@, old(self).stars@) && (r is Ok
                ==> star_count_for(old(self).stars@, final(self).repos@.last().addr@) == 0))
                ==> counts_consistent(final(self).repos@, final(self).stars@),
    {
        if name.len() > 64 {
            return Err(VanishError::NameTooLong);
        }
        if description.len() > 256 {
            return Err(VanishError::DescriptionTooLong);
        }
        if name.len() == 0 {
            return Err(VanishError::NameEmpty);
        }
        match repo_address(&ctx.owner, &name) {
            None => Err(VanishError::Unauthorized),
            Some((addr, bump)) => {
                match find_repo(&self.repos, &addr) {
                    Some(i) => {
                        proof {
                            assert(has_repo_at(self.repos@, addr@));
                        }
                        Err(VanishError::AlreadyExists)
                    },
                    None => {
                        let ev = RepoCreated {
                            owner: clone_bytes(&ctx.owner),
                            name: clone_bytes(&name),
                            is_private,
                            timestamp: now,
                        };
                        let entry = RepoEntry {
                            addr,
                            repo: Repository {
                                owner: ctx.owner,
                                name,
                                description,
                                is_private,
                                created_at: now,
                                updated_at: now,
                                head_commit: Vec::new(),
                                ipfs_cid: Vec::new(),
                                stars: 0,
                                bump,
                            },
                        };
                        self.repos.push(entry);
                        proof {
                            let pre = old(self).repos@;
                            let post = self.repos@;
                            assert(post.last() == entry);
                            assert forall|i: int, j: int| 0 <= i < j < post.len()
                                implies post[i].addr@ != post[j].addr@ by {
                                if j == post.len() - 1 {
                                    assert(!has_repo_at(pre, entry.addr@));
                                    assert(post[i] == pre[i]);
                                }
                            }
                            assert forall|i: int| 0 <= i < post.len()
                                implies (#[trigger] post[i].repo).valid() by {
                                if i < pre.len() {
                                    assert(post[i] == pre[i]);
                                }
                            }
                            if counts_consistent(pre, old(self).stars@)
                                && star_count_for(old(self).stars@, post.last().addr@) == 0 {
                                assert forall|i: int| 0 <= i < post.len()
                                    implies #[trigger] post[i].repo.stars == star_count_for(
                                    self.stars@,
                                    post[i].addr@,
                                ) by {
                                    if i < pre.len() {
                                        assert(post[i] == pre[i]);
                                    }
                                }
                            }
                        }
                        Ok(ev)
                    },
                }
            },
        }
    }
}

/// `new` is `old_e` with a fresh head commit, content location and update
/// time; everything else, the address included, is untouched.
pub open spec fn repo_pushed(new: RepoEntry, old_e: RepoEntry, head: Seq<u8>, cid: Seq<u8>, now: i64) -> bool {
    &&& new.addr@ == old_e.addr@
    &&& new.repo.owner@ == old_e.repo.owner@
    &&& new.repo.name@ == old_e.repo.name@
    &&& new.repo.description@ == old_e.repo.description@
    &&& new.repo.is_private == old_e.repo.is_private
    &&& new.repo.created_at == old_e.repo.created_at
    &&& new.repo.updated_at == now
    &&& new.repo.head_commit@ == head
    &&& new.repo.ipfs_cid@ == cid
    &&& new.repo.stars == old_e.repo.stars
    &&& new.repo.bump == old_e.repo.bump
}

/// The event a successful `push_update` reports.
pub open spec fn pushed_event(ev: RepoPushed, owner: Seq<u8>, name: Seq<u8>, head: Seq<u8>, cid: Seq<u8>, now: i64) -> bool {
    &&& ev.owner@ == owner
    &&& ev.name@ == name
    &&& ev.head_commit@ == head
    &&& ev.ipfs_cid@ == cid
    &&& ev.timestamp == now
}

/// Exactly what `push_update` does for every input.
pub open spec fn push_outcome(
    pre: Seq<RepoEntry>,
    post: Seq<RepoEntry>,
    caller: Seq<u8>,
    repo_addr: Seq<u8>,
    head: Seq<u8>,
    cid: Seq<u8>,
    now: i64,
    r: Result<RepoPushed, VanishError>,
) -> bool {
    if !has_repo_at(pre, repo_addr) {
        r matches Err(VanishError::NotFound) && post == pre
    } else {
        let i = repo_idx(pre, repo_addr);
        if !repo_auth(pre[i], caller) {
            r matches Err(VanishError::Unauthorized) && post == pre
        } else if head.len() != 40 {
            r matches Err(VanishError::InvalidCommitHash) && post == pre
        } else if cid.len() > 64 {
            r matches Err(VanishError::InvalidIpfsCid) && post == pre
        } else {
            &&& r matches Ok(ev) && pushed_event(ev, pre[i].repo.owner@, pre[i].repo.name@, head, cid, now)
            &&& post.len() == pre.len()
            &&& forall|j: int| 0 <= j < pre.len() && j != i ==> post[j] == pre[j]
            &&& repo_pushed(post[i], pre[i], head, cid, now)
        }
    }
}

impl Registry {
    /// Record a push: overwrite the repository's head commit, content
    /// location and update time. Only the recorded owner, re-verified by
    /// derivation, may push; the commit fingerprint must be exactly 40
    /// bytes and the content location at most 64.
    pub fn push_update(&mut self, ctx: PushUpdate, head_commit: Vec<u8>, ipfs_cid: Vec<u8>, now: i64) -> (r: Result<RepoPushed, VanishError>)
        requires
            old(self).wf(),
        ensures
            final(self).wf(),
            final(self).collabs@ == old(self).collabs@,
            final(self).stars@ == old(self).stars@,
            push_outcome(
                old(self).repos@,
                final(self).repos@,
                ctx.owner@,
                ctx.repository@,
                head_commit@,
                ipfs_cid@,
                now,
                r,
            ),
            // a commit fingerprint of the wrong length always fails and
            // leaves the repository unmodified
            head_commit@.len() != 40 ==> r is Err && final(self).repos@ == old(self).repos@,
            // only the recorded owner succeeds
            r is Ok ==> has_repo_at(old(self).repos@, ctx.repository@)
                && old(self).repos@[repo_idx(old(self).repos@, ctx.repository@)].repo.owner@
                == ctx.owner@,
            (has_repo_at(old(self).repos@, ctx.repository@)
                && old(self).repos@[repo_idx(old(self).repos@, ctx.repository@)].repo.owner@
                != ctx.owner@) ==> (r matches Err(VanishError::Unauthorized))
                && final(self).repos@ == old(self).repos@,
            counts_consistent(old(self).repos@, old(self).stars@)
                ==> counts_consistent(final(self).repos@, final(self).stars@),
    {
        let i = match find_repo(&self.repos, &ctx.repository) {
            None => {
                return Err(VanishError::NotFound);
            },
            Some(i) => i,
        };
        proof {
            lemma_found_repo_is_idx(self.repos@, ctx.repository@, i as int);
        }
        if !check_repo_auth(&self.repos[i], &ctx.owner) {
            return Err(VanishError::Unauthorized);
        }
        if head_commit.len() != 40 {
            return Err(VanishError::InvalidCommitHash);
        }
        if ipfs_cid.len() > 64 {
            return Err(VanishError::InvalidIpfsCid);
        }
        let old_entry = self.repos.remove(i);
        let ev = RepoPushed {
            owner: clone_bytes(&old_entry.repo.owner),
            name: clone_bytes(&old_entry.repo.name),
            head_commit: clone_bytes(&head_commit),
            ipfs_cid: clone_bytes(&ipfs_cid),
            timestamp: now,
        };
        let new_entry = RepoEntry {
            addr: old_entry.addr,
            repo: Repository {
                owner: old_entry.repo.owner,
                name: old_entry.repo.name,
                description: old_entry.repo.description,
                is_private: old_entry.repo.is_private,
                created_at: old_entry.repo.created_at,
                updated_at: now,
                head_commit,
                ipfs_cid,
                stars: old_entry.repo.stars,
                bump: old_entry.repo.bump,
            },
        };
        self.repos.insert(i, new_entry);
        proof {
            let pre = old(self).repos@;
            let post = self.repos@;
            assert forall|j: int| 0 <= j < pre.len() && j != i as int implies post[j] == pre[j] by {
                assert(post[j] == pre.remove(i as int).insert(i as int, new_entry)[j]);
            }
            assert(post[i as int] == new_entry);
            assert(post.len() == pre.len());
            assert forall|p: int, q: int| 0 <= p < q < post.len()
                implies post[p].addr@ != post[q].addr@ by {
                assert(post[p].addr@ == pre[p].addr@);
                assert(post[q].addr@ == pre[q].addr@);
            }
            assert forall|j: int| 0 <= j < post.len() implies (#[trigger] post[j].repo).valid() by {
                if j != i as int {
                    assert(post[j] == pre[j]);
                }
            }
            if counts_consistent(pre, old(self).stars@) {
                assert forall|j: int| 0 <= j < post.len()
                    implies #[trigger] post[j].repo.stars == star_count_for(
                    self.stars@,
                    post[j].addr@,
                ) by {
                    if j != i as int {
                        assert(post[j] == pre[j]);
                    } else {
                        assert(pre[j].repo.stars == star_count_for(old(self).stars@, pre[j].addr@));
                    }
                }
            }
        }
        Ok(ev)
    }
}

/// `e` is a freshly created collaborator grant.
pub open spec fn collab_created(e: CollabEntry, addr: Seq<u8>, bump: u8, repo_addr: Seq<u8>, grantee: Seq<u8>, can_push: bool, now: i64) -> bool {
    &&& e.addr@ == addr
    &&& e.collab.repository@ == repo_addr
    &&& e.collab.user@ == grantee
    &&& e.collab.can_push == can_push
    &&& e.collab.added_at == now
    &&& e.collab.bump == bump
}

/// The event a successful `add_collaborator` reports.
pub open spec fn collab_event(ev: CollaboratorAdded, repo_addr: Seq<u8>, grantee: Seq<u8>, can_push: bool, now: i64) -> bool {
    &&& ev.repository@ == repo_addr
    &&& ev.collaborator@ == grantee
    &&& ev.can_push == can_push
    &&& ev.timestamp == now
}

/// Exactly what `add_collaborator` does to the grants for every input.
/// `auth` is whether the caller passed the repository's owner check, and
/// `d` is the derivation outcome for (repository, grantee).
pub open spec fn add_collab_outcome(
    pre_r: Seq<RepoEntry>,
    pre: Seq<CollabEntry>,
    post: Seq<CollabEntry>,
    auth: bool,
    repo_addr: Seq<u8>,
    grantee: Seq<u8>,
    can_push: bool,
    now: i64,
    d: Option<(Seq<u8>, u8)>,
    r: Result<CollaboratorAdded, VanishError>,
) -> bool {
    if !has_repo_at(pre_r, repo_addr) {
        r matches Err(VanishError::NotFound) && post == pre
    } else if !auth {
        r matches Err(VanishError::Unauthorized) && post == pre
    } else {
        match d {
            None => r matches Err(VanishError::Unauthorized) && post == pre,
            Some(p) => if has_collab_at(pre, p.0) {
                r matches Err(VanishError::AlreadyExists) && post == pre
            } else {
                &&& r matches Ok(ev) && collab_event(ev, repo_addr, grantee, can_push, now)
                &&& post.len() == pre.len() + 1
                &&& forall|j: int| 0 <= j < pre.len() ==> post[j] == pre[j]
                &&& collab_created(post.last(), p.0, p.1, repo_addr, grantee, can_push, now)
            },
        }
    }
}

/// Exactly what `remove_collaborator` does to the grants for every input.
/// `auth` is whether the caller passed the repository's owner check, and
/// `d` is the derivation outcome for (repository, stored grantee identity)
/// — the defence against address confusion: the grant found at the given
/// address must re-derive, from the identity it records, to that very
/// address and bump.
pub open spec fn remove_collab_outcome(
    pre_r: Seq<RepoEntry>,
    pre: Seq<CollabEntry>,
    post: Seq<CollabEntry>,
    auth: bool,
    repo_addr: Seq<u8>,
    collab_addr: Seq<u8>,
    d: Option<(Seq<u8>, u8)>,
    r: Result<(), VanishError>,
) -> bool {
    if !has_repo_at(pre_r, repo_addr) {
        r matches Err(VanishError::NotFound) && post == pre
    } else if !auth {
        r matches Err(VanishError::Unauthorized) && post == pre
    } else if !has_collab_at(pre, collab_addr) {
        r matches Err(VanishError::NotFound) && post == pre
    } else {
        let k = collab_idx(pre, collab_addr);
        if d != Some((collab_addr, pre[k].collab.bump)) {
            r matches Err(VanishError::Unauthorized) && post == pre
        } else {
            r is Ok && post == pre.remove(k)
        }
    }
}

impl Registry {
    /// Grant `collaborator` a seat on the repository at `ctx.repository`.
    /// Only the recorded owner may grant, and at most one grant can exist
    /// per (repository, grantee) address.
    pub fn add_collaborator(&mut self, ctx: AddCollaborator, collaborator: Vec<u8>, can_push: bool, now: i64) -> (r: Result<CollaboratorAdded, VanishError>)
        requires
            old(self).wf(),
        ensures
            final(self).wf(),
            final(self).repos@ == old(self).repos@,
            final(self).stars@ == old(self).stars@,
            add_collab_outcome(
                old(self).repos@,
                old(self).collabs@,
                final(self).collabs@,
                repo_auth(old(self).repos@[repo_idx(old(self).repos@, ctx.repository@)], ctx.owner@),
                ctx.repository@,
                collaborator@,
                can_push,
                now,
                derived(collab_tag(), ctx.repository@, collaborator@, program_key()),
                r,
            ),
            // only the recorded owner succeeds
            r is Ok ==> has_repo_at(old(self).repos@, ctx.repository@)
                && old(self).repos@[repo_idx(old(self).repos@, ctx.repository@)].repo.owner@
                == ctx.owner@,
            (has_repo_at(old(self).repos@, ctx.repository@)
                && old(self).repos@[repo_idx(old(self).repos@, ctx.repository@)].repo.owner@
                != ctx.owner@) ==> (r matches Err(VanishError::Unauthorized))
                && final(self).collabs@ == old(self).collabs@,
            counts_consistent(old(self).repos@, old(self).stars@)
                ==> counts_consistent(final(self).repos@, final(self).stars@),
    {
        let i = match find_repo(&self.repos, &ctx.repository) {
            None => {
                return Err(VanishError::NotFound);
            },
            Some(i) => i,
        };
        proof {
            lemma_found_repo_is_idx(self.repos@, ctx.repository@, i as int);
        }
        if !check_repo_auth(&self.repos[i], &ctx.owner) {
            return Err(VanishError::Unauthorized);
        }
        match collab_address(&ctx.repository, &collaborator) {
            None => Err(VanishError::Unauthorized),
            Some((addr, bump)) => {
                match find_collab(&self.collabs, &addr) {
                    Some(k) => {
                        proof {
                            assert(has_collab_at(self.collabs@, addr@));
                        }
                        Err(VanishError::AlreadyExists)
                    },
                    None => {
                        let ev = CollaboratorAdded {
                            repository: clone_bytes(&ctx.repository),
                            collaborator: clone_bytes(&collaborator),
                            can_push,
                            timestamp: now,
                        };
                        let entry = CollabEntry {
                            addr,
                            collab: Collaborator {
                                repository: ctx.repository,
                                user: collaborator,
                                can_push,
                                added_at: now,
                                bump,
                            },
                        };
                        self.collabs.push(entry);
                        proof {
                            let pre = old(self).collabs@;
                            let post = self.collabs@;
                            assert(post.last() == entry);
                            assert forall|p: int, q: int| 0 <= p < q < post.len()
                                implies post[p].addr@ != post[q].addr@ by {
                                if q == post.len() - 1 {
                                    assert(!has_collab_at(pre, entry.addr@));
                                    assert(post[p] == pre[p]);
                                }
                            }
                        }
                        Ok(ev)
                    },
                }
            },
        }
    }

    /// Close the grant at `ctx.collaborator_account`, after re-deriving its
    /// address from the grantee identity it records. Only the repository's
    /// recorded owner may remove a grant; the reserved space is refunded to
    /// the owner by the store.
    pub fn remove_collaborator(&mut self, ctx: RemoveCollaborator) -> (r: Result<(), VanishError>)
        requires
            old(self).wf(),
        ensures
            final(self).wf(),
            final(self).repos@ == old(self).repos@,
            final(self).stars@ == old(self).stars@,
            remove_collab_outcome(
                old(self).repos@,
                old(self).collabs@,
                final(self).collabs@,
                repo_auth(old(self).repos@[repo_idx(old(self).repos@, ctx.repository@)], ctx.owner@),
                ctx.repository@,
                ctx.collaborator_account@,
                derived(
                    collab_tag(),
                    ctx.repository@,
                    old(self).collabs@[collab_idx(old(self).collabs@, ctx.collaborator_account@)].collab.user@,
                    program_key(),
                ),
                r,
            ),
            // only the recorded owner succeeds
            r is Ok ==> has_repo_at(old(self).repos@, ctx.repository@)
                && old(self).repos@[repo_idx(old(self).repos@, ctx.repository@)].repo.owner@
                == ctx.owner@,
            (has_repo_at(old(self).repos@, ctx.repository@)
                && old(self).repos@[repo_idx(old(self).repos@, ctx.repository@)].repo.owner@
                != ctx.owner@) ==> (r matches Err(VanishError::Unauthorized))
                && final(self).collabs@ == old(self).collabs@,
            counts_consistent(old(self).repos@, old(self).stars@)
                ==> counts_consistent(final(self).repos@, final(self).stars@),
    {
        let i = match find_repo(&self.repos, &ctx.repository) {
            None => {
                return Err(VanishError::NotFound);
            },
            Some(i) => i,
        };
        proof {
            lemma_found_repo_is_idx(self.repos@, ctx.repository@, i as int);
        }
        if !check_repo_auth(&self.repos[i], &ctx.owner) {
            return Err(VanishError::Unauthorized);
        }
        let k = match find_collab(&self.collabs, &ctx.collaborator_account) {
            None => {
                return Err(VanishError::NotFound);
            },
            Some(k) => k,
        };
        proof {
            lemma_found_collab_is_idx(self.collabs@, ctx.collaborator_account@, k as int);
        }
        let rederived = match collab_address(&ctx.repository, &self.collabs[k].collab.user) {
            None => false,
            Some((addr, bump)) => {
                if bytes_eq(&addr, &ctx.collaborator_account) {
                    bump == self.collabs[k].collab.bump
                } else {
                    false
                }
            },
        };
        if !rederived {
            return Err(VanishError::Unauthorized);
        }
        self.collabs.remove(k);
        proof {
            let pre = old(self).collabs@;
            let post = self.collabs@;
            assert forall|p: int, q: int| 0 <= p < q < post.len()
                implies post[p].addr@ != post[q].addr@ by {
                assert(post[p] == if p < k as int { pre[p] } else { pre[p + 1] });
                assert(post[q] == if q < k as int { pre[q] } else { pre[q + 1] });
            }
        }
        Ok(())
    }
}

/// `e` is a freshly created star record.
pub open spec fn star_created(e: StarEntry, addr: Seq<u8>, bump: u8, user: Seq<u8>, repo_addr: Seq<u8>, now: i64) -> bool {
    &&& e.addr@ == addr
    &&& e.star.user@ == user
    &&& e.star.repository@ == repo_addr
    &&& e.star.starred_at == now
    &&& e.star.bump == bump
}

/// The event a successful `star_repo` reports.
pub open spec fn star_event(ev: RepoStarred, user: Seq<u8>, repo_addr: Seq<u8>, now: i64) -> bool {
    &&& ev.user@ == user
    &&& ev.repository@ == repo_addr
    &&& ev.timestamp == now
}

/// `new` is `old_e` with its star counter one higher, clamped instead of
/// wrapped at the top of the range; nothing else changes.
pub open spec fn starred_repo(new: RepoEntry, old_e: RepoEntry) -> bool {
    &&& new.addr@ == old_e.addr@
    &&& new.repo.owner@ == old_e.repo.owner@
    &&& new.repo.name@ == old_e.repo.name@
    &&& new.repo.description@ == old_e.repo.description@
    &&& new.repo.is_private == old_e.repo.is_private
    &&& new.repo.created_at == old_e.repo.created_at
    &&& new.repo.updated_at == old_e.repo.updated_at
    &&& new.repo.head_commit@ == old_e.repo.head_commit@
    &&& new.repo.ipfs_cid@ == old_e.repo.ipfs_cid@
    &&& new.repo.stars == if old_e.repo.stars < u64::MAX {
        old_e.repo.stars + 1
    } else {
        old_e.repo.stars as int
    }
    &&& new.repo.bump == old_e.repo.bump
}

/// `new` is `old_e` with its star counter one lower, floored at zero;
/// nothing else changes.
pub open spec fn unstarred_repo(new: RepoEntry, old_e: RepoEntry) -> bool {
    &&& new.addr@ == old_e.addr@
    &&& new.repo.owner@ == old_e.repo.owner@
    &&& new.repo.name@ == old_e.repo.name@
    &&& new.repo.description@ == old_e.repo.description@
    &&& new.repo.is_private == old_e.repo.is_private
    &&& new.repo.created_at == old_e.repo.created_at
    &&& new.repo.updated_at == old_e.repo.updated_at
    &&& new.repo.head_commit@ == old_e.repo.head_commit@
    &&& new.repo.ipfs_cid@ == old_e.repo.ipfs_cid@
    &&& new.repo.stars == if old_e.repo.stars > 0 {
        old_e.repo.stars - 1
    } else {
        0int
    }
    &&& new.repo.bump == old_e.repo.bump
}

/// Exactly what `star_repo` does for every input. `d` is the derivation
/// outcome for (user, repository).
pub open spec fn star_outcome(
    pre_r: Seq<RepoEntry>,
    post_r: Seq<RepoEntry>,
    pre_s: Seq<StarEntry>,
    post_s: Seq<StarEntry>,
    user: Seq<u8>,
    repo_addr: Seq<u8>,
    now: i64,
    d: Option<(Seq<u8>, u8)>,
    r: Result<RepoStarred, VanishError>,
) -> bool {
    if !has_repo_at(pre_r, repo_addr) {
        r matches Err(VanishError::NotFound) && post_r == pre_r && post_s == pre_s
    } else {
        match d {
            None => r matches Err(VanishError::Unauthorized) && post_r == pre_r && post_s == pre_s,
            Some(p) => if has_star_at(pre_s, p.0) {
                r matches Err(VanishError::AlreadyExists) && post_r == pre_r && post_s == pre_s
            } else {
                let i = repo_idx(pre_r, repo_addr);
                &&& r matches Ok(ev) && star_event(ev, user, repo_addr, now)
                &&& post_s.len() == pre_s.len() + 1
                &&& forall|j: int| 0 <= j < pre_s.len() ==> post_s[j] == pre_s[j]
                &&& star_created(post_s.last(), p.0, p.1, user, repo_addr, now)
                &&& post_r.len() == pre_r.len()
                &&& forall|j: int| 0 <= j < pre_r.len() && j != i ==> post_r[j] == pre_r[j]
                &&& starred_repo(post_r[i], pre_r[i])
            },
        }
    }
}

/// Exactly what `unstar_repo` does for every input. `d` is the derivation
/// outcome for (user, repository); the star found at the derived address
/// must record that very user, repository and bump.
pub open spec fn unstar_outcome(
    pre_r: Seq<RepoEntry>,
    post_r: Seq<RepoEntry>,
    pre_s: Seq<StarEntry>,
    post_s: Seq<StarEntry>,
    user: Seq<u8>,
    repo_addr: Seq<u8>,
    d: Option<(Seq<u8>, u8)>,
    r: Result<(), VanishError>,
) -> bool {
    if !has_repo_at(pre_r, repo_addr) {
        r matches Err(VanishError::NotFound) && post_r == pre_r && post_s == pre_s
    } else {
        match d {
            None => r matches Err(VanishError::Unauthorized) && post_r == pre_r && post_s == pre_s,
            Some(p) => if !has_star_at(pre_s, p.0) {
                r matches Err(VanishError::NotFound) && post_r == pre_r && post_s == pre_s
            } else {
                let k = star_idx(pre_s, p.0);
                if !(pre_s[k].star.user@ == user && pre_s[k].star.repository@ == repo_addr
                    && pre_s[k].star.bump == p.1) {
                    r matches Err(VanishError::Unauthorized) && post_r == pre_r && post_s == pre_s
                } else {
                    let i = repo_idx(pre_r, repo_addr);
                    &&& r is Ok
                    &&& post_s == pre_s.remove(k)
                    &&& post_r.len() == pre_r.len()
                    &&& forall|j: int| 0 <= j < pre_r.len() && j != i ==> post_r[j] == pre_r[j]
                    &&& unstarred_repo(post_r[i], pre_r[i])
                }
            },
        }
    }
}

impl Registry {
    /// Star the repository at `ctx.repository` as `ctx.user`: create the
    /// star record and raise the repository's counter, clamping instead of
    /// wrapping at the top of the range. At most one star can exist per
    /// (user, repository) address.
    pub fn star_repo(&mut self, ctx: StarRepo, now: i64) -> (r: Result<RepoStarred, VanishError>)
        requires
            old(self).wf(),
        ensures
            final(self).wf(),
            final(self).collabs@ == old(self).collabs@,
            star_outcome(
                old(self).repos@,
                final(self).repos@,
                old(self).stars@,
                final(self).stars@,
                ctx.user@,
                ctx.repository@,
                now,
                derived(star_tag(), ctx.user@, ctx.repository@, program_key()),
                r,
            ),
            // a counter below the clamp keeps counting the open stars
            (counts_consistent(old(self).repos@, old(self).stars@) && (r is Ok
                ==> old(self).repos@[repo_idx(old(self).repos@, ctx.repository@)].repo.stars
                < u64::MAX)) ==> counts_consistent(final(self).repos@, final(self).stars@),
    {
        let i = match find_repo(&self.repos, &ctx.repository) {
            None => {
                return Err(VanishError::NotFound);
            },
            Some(i) => i,
        };
        proof {
            lemma_found_repo_is_idx(self.repos@, ctx.repository@, i as int);
        }
        match star_address(&ctx.user, &ctx.repository) {
            None => Err(VanishError::Unauthorized),
            Some((addr, bump)) => {
                match find_star(&self.stars, &addr) {
                    Some(k) => {
                        proof {
                            assert(has_star_at(self.stars@, addr@));
                        }
                        Err(VanishError::AlreadyExists)
                    },
                    None => {
                        let ev = RepoStarred {
                            user: clone_bytes(&ctx.user),
                            repository: clone_bytes(&ctx.repository),
                            timestamp: now,
                        };
                        let entry = StarEntry {
                            addr,
                            star: Star {
                                user: ctx.user,
                                repository: ctx.repository,
                                starred_at: now,
                                bump,
                            },
                        };
                        self.stars.push(entry);
                        let old_entry = self.repos.remove(i);
                        let new_stars = match old_entry.repo.stars.checked_add(1) {
                            Some(v) => v,
                            None => old_entry.repo.stars,
                        };
                        let new_entry = RepoEntry {
                            addr: old_entry.addr,
                            repo: Repository {
                                owner: old_entry.repo.owner,
                                name: old_entry.repo.name,
                                description: old_entry.repo.description,
                                is_private: old_entry.repo.is_private,
                                created_at: old_entry.repo.created_at,
                                updated_at: old_entry.repo.updated_at,
                                head_commit: old_entry.repo.head_commit,
                                ipfs_cid: old_entry.repo.ipfs_cid,
                                stars: new_stars,
                                bump: old_entry.repo.bump,
                            },
                        };
                        self.repos.insert(i, new_entry);
                        proof {
                            let pre_r = old(self).repos@;
                            let post_r = self.repos@;
                            let pre_s = old(self).stars@;
                            let post_s = self.stars@;
                            assert(post_s.last() == entry);
                            assert forall|j: int| 0 <= j < pre_r.len() && j != i as int
                                implies post_r[j] == pre_r[j] by {
                                assert(post_r[j] == pre_r.remove(i as int).insert(
                                    i as int,
                                    new_entry,
                                )[j]);
                            }
                            assert(post_r[i as int] == new_entry);
                            assert forall|p: int, q: int| 0 <= p < q < post_r.len()
                                implies post_r[p].addr@ != post_r[q].addr@ by {
                                assert(post_r[p].addr@ == pre_r[p].addr@);
                                assert(post_r[q].addr@ == pre_r[q].addr@);
                            }
                            assert forall|j: int| 0 <= j < post_r.len()
                                implies (#[trigger] post_r[j].repo).valid() by {
                                if j != i as int {
                                    assert(post_r[j] == pre_r[j]);
                                }
                            }
                            assert forall|p: int, q: int| 0 <= p < q < post_s.len()
                                implies post_s[p].addr@ != post_s[q].addr@ by {
                                if q == post_s.len() - 1 {
                                    assert(!has_star_at(pre_s, entry.addr@));
                                    assert(post_s[p] == pre_s[p]);
                                }
                            }
                            if counts_consistent(pre_r, pre_s) && pre_r[i as int].repo.stars
                                < u64::MAX {
                                assert forall|j: int| 0 <= j < post_r.len()
                                    implies #[trigger] post_r[j].repo.stars == star_count_for(
                                    post_s,
                                    post_r[j].addr@,
                                ) by {
                                    lemma_count_push(pre_s, post_r[j].addr@, entry);
                                    if j != i as int {
                                        assert(post_r[j] == pre_r[j]);
                                        assert(entry.star.repository@ == pre_r[i as int].addr@);
                                        assert(pre_r[j].addr@ != pre_r[i as int].addr@);
                                    } else {
                                        assert(entry.star.repository@ == post_r[j].addr@);
                                    }
                                }
                            }
                        }
                        Ok(ev)
                    },
                }
            },
        }
    }

    /// Unstar the repository at `ctx.repository` as `ctx.user`: close the
    /// star record found at the re-derived address, which must record this
    /// very user and repository, and lower the counter, floored at zero.
    /// No event: unstarring is a pure cleanup.
    pub fn unstar_repo(&mut self, ctx: UnstarRepo) -> (r: Result<(), VanishError>)
        requires
            old(self).wf(),
        ensures
            final(self).wf(),
            final(self).collabs@ == old(self).collabs@,
            unstar_outcome(
                old(self).repos@,
                final(self).repos@,
                old(self).stars@,
                final(self).stars@,
                ctx.user@,
                ctx.repository@,
                derived(star_tag(), ctx.user@, ctx.repository@, program_key()),
                r,
            ),
            // the floor property: a counter at zero stays at zero
            (r is Ok && has_repo_at(old(self).repos@, ctx.repository@)
                && old(self).repos@[repo_idx(old(self).repos@, ctx.repository@)].repo.stars == 0)
                ==> final(self).repos@[repo_idx(old(self).repos@, ctx.repository@)].repo.stars
                == 0,
            counts_consistent(old(self).repos@, old(self).stars@)
                ==> counts_consistent(final(self).repos@, final(self).stars@),
    {
        let i = match find_repo(&self.repos, &ctx.repository) {
            None => {
                return Err(VanishError::NotFound);
            },
            Some(i) => i,
        };
        proof {
            lemma_found_repo_is_idx(self.repos@, ctx.repository@, i as int);
        }
        match star_address(&ctx.user, &ctx.repository) {
            None => Err(VanishError::Unauthorized),
            Some((addr, bump)) => {
                let k = match find_star(&self.stars, &addr) {
                    None => {
                        return Err(VanishError::NotFound);
                    },
                    Some(k) => k,
                };
                proof {
                    lemma_found_star_is_idx(self.stars@, addr@, k as int);
                }
                let matching = bytes_eq(&self.stars[k].star.user, &ctx.user)
                    && bytes_eq(&self.stars[k].star.repository, &ctx.repository)
                    && self.stars[k].star.bump == bump;
                if !matching {
                    return Err(VanishError::Unauthorized);
                }
                self.stars.remove(k);
                let old_entry = self.repos.remove(i);
                let new_entry = RepoEntry {
                    addr: old_entry.addr,
                    repo: Repository {
                        owner: old_entry.repo.owner,
                        name: old_entry.repo.name,
                        description: old_entry.repo.description,
                        is_private: old_entry.repo.is_private,
                        created_at: old_entry.repo.created_at,
                        updated_at: old_entry.repo.updated_at,
                        head_commit: old_entry.repo.head_commit,
                        ipfs_cid: old_entry.repo.ipfs_cid,
                        stars: old_entry.repo.stars.saturating_sub(1),
                        bump: old_entry.repo.bump,
                    },
                };
                self.repos.insert(i, new_entry);
                proof {
                    let pre_r = old(self).repos@;
                    let post_r = self.repos@;
                    let pre_s = old(self).stars@;
                    let post_s = self.stars@;
                    assert forall|j: int| 0 <= j < pre_r.len() && j != i as int
                        implies post_r[j] == pre_r[j] by {
                        assert(post_r[j] == pre_r.remove(i as int).insert(i as int, new_entry)[j]);
                    }
                    assert(post_r[i as int] == new_entry);
                    assert forall|p: int, q: int| 0 <= p < q < post_r.len()
                        implies post_r[p].addr@ != post_r[q].addr@ by {
                        assert(post_r[p].addr@ == pre_r[p].addr@);
                        assert(post_r[q].addr@ == pre_r[q].addr@);
                    }
                    assert forall|j: int| 0 <= j < post_r.len()
                        implies (#[trigger] post_r[j].repo).valid() by {
                        if j != i as int {
                            assert(post_r[j] == pre_r[j]);
                        }
                    }
                    assert forall|p: int, q: int| 0 <= p < q < post_s.len()
                        implies post_s[p].addr@ != post_s[q].addr@ by {
                        assert(post_s[p] == if p < k as int { pre_s[p] } else { pre_s[p + 1] });
                        assert(post_s[q] == if q < k as int { pre_s[q] } else { pre_s[q + 1] });
                    }
                    if counts_consistent(pre_r, pre_s) {
                        assert forall|j: int| 0 <= j < post_r.len()
                            implies #[trigger] post_r[j].repo.stars == star_count_for(
                            post_s,
                            post_r[j].addr@,
                        ) by {
                            lemma_count_remove(pre_s, post_r[j].addr@, k as int);
                            if j != i as int {
                                assert(post_r[j] == pre_r[j]);
                                assert(pre_s[k as int].star.repository@ == pre_r[i as int].addr@);
                                assert(pre_r[j].addr@ != pre_r[i as int].addr@);
                            } else {
                                assert(pre_s[k as int].star.repository@ == post_r[j].addr@);
                                lemma_count_member(pre_s, post_r[j].addr@, k as int);
                            }
                        }
                    }
                }
                Ok(())
            },
        }
    }
}

/// `new` is `old_e` with a new owner; nothing else changes — not the
/// address, not the name, not the nonce.
pub open spec fn transferred_repo(new: RepoEntry, old_e: RepoEntry, new_owner: Seq<u8>) -> bool {
    &&& new.addr@ == old_e.addr@
    &&& new.repo.owner@ == new_owner
    &&& new.repo.name@ == old_e.repo.name@
    &&& new.repo.description@ == old_e.repo.description@
    &&& new.repo.is_private == old_e.repo.is_private
    &&& new.repo.created_at == old_e.repo.created_at
    &&& new.repo.updated_at == old_e.repo.updated_at
    &&& new.repo.head_commit@ == old_e.repo.head_commit@
    &&& new.repo.ipfs_cid@ == old_e.repo.ipfs_cid@
    &&& new.repo.stars == old_e.repo.stars
    &&& new.repo.bump == old_e.repo.bump
}

/// The event a successful `transfer_ownership` reports.
pub open spec fn transfer_event(ev: OwnershipTransferred, repo_addr: Seq<u8>, old_owner: Seq<u8>, new_owner: Seq<u8>) -> bool {
    &&& ev.repository@ == repo_addr
    &&& ev.old_owner@ == old_owner
    &&& ev.new_owner@ == new_owner
}

/// Exactly what `transfer_ownership` does for every input.
pub open spec fn transfer_outcome(
    pre: Seq<RepoEntry>,
    post: Seq<RepoEntry>,
    caller: Seq<u8>,
    repo_addr: Seq<u8>,
    new_owner: Seq<u8>,
    r: Result<OwnershipTransferred, VanishError>,
) -> bool {
    if !has_repo_at(pre, repo_addr) {
        r matches Err(VanishError::NotFound) && post == pre
    } else {
        let i = repo_idx(pre, repo_addr);
        if !repo_auth(pre[i], caller) {
            r matches Err(VanishError::Unauthorized) && post == pre
        } else {
            &&& r matches Ok(ev) && transfer_event(ev, repo_addr, pre[i].repo.owner@, new_owner)
            &&& post.len() == pre.len()
            &&& forall|j: int| 0 <= j < pre.len() && j != i ==> post[j] == pre[j]
            &&& transferred_repo(post[i], pre[i], new_owner)
        }
    }
}

/// Exactly what `delete_repo` does for every input. Grants and stars are
/// not cascaded: they stay, orphaned, until independently closed.
pub open spec fn delete_outcome(
    pre: Seq<RepoEntry>,
    post: Seq<RepoEntry>,
    caller: Seq<u8>,
    repo_addr: Seq<u8>,
    r: Result<(), VanishError>,
) -> bool {
    if !has_repo_at(pre, repo_addr) {
        r matches Err(VanishError::NotFound) && post == pre
    } else {
        let i = repo_idx(pre, repo_addr);
        if !repo_auth(pre[i], caller) {
            r matches Err(VanishError::Unauthorized) && post == pre
        } else {
            r is Ok && post == pre.remove(i)
        }
    }
}

impl Registry {
    /// Hand the repository at `ctx.repository` to `new_owner`. The record's
    /// address stays derived from the original owner and name, so after the
    /// transfer it is reachable only by replaying that original pair.
    pub fn transfer_ownership(&mut self, ctx: TransferOwnership, new_owner: Vec<u8>) -> (r: Result<OwnershipTransferred, VanishError>)
        requires
            old(self).wf(),
        ensures
            final(self).wf(),
            final(self).collabs@ == old(self).collabs@,
            final(self).stars@ == old(self).stars@,
            transfer_outcome(
                old(self).repos@,
                final(self).repos@,
                ctx.owner@,
                ctx.repository@,
                new_owner@,
                r,
            ),
            // only the recorded owner succeeds
            r is Ok ==> has_repo_at(old(self).repos@, ctx.repository@)
                && old(self).repos@[repo_idx(old(self).repos@, ctx.repository@)].repo.owner@
                == ctx.owner@,
            (has_repo_at(old(self).repos@, ctx.repository@)
                && old(self).repos@[repo_idx(old(self).repos@, ctx.repository@)].repo.owner@
                != ctx.owner@) ==> (r matches Err(VanishError::Unauthorized))
                && final(self).repos@ == old(self).repos@,
            counts_consistent(old(self).repos@, old(self).stars@)
                ==> counts_consistent(final(self).repos@, final(self).stars@),
    {
        let i = match find_repo(&self.repos, &ctx.repository) {
            None => {
                return Err(VanishError::NotFound);
            },
            Some(i) => i,
        };
        proof {
            lemma_found_repo_is_idx(self.repos@, ctx.repository@, i as int);
        }
        if !check_repo_auth(&self.repos[i], &ctx.owner) {
            return Err(VanishError::Unauthorized);
        }
        let old_entry = self.repos.remove(i);
        let ev = OwnershipTransferred {
            repository: clone_bytes(&ctx.repository),
            old_owner: old_entry.repo.owner,
            new_owner: clone_bytes(&new_owner),
        };
        let new_entry = RepoEntry {
            addr: old_entry.addr,
            repo: Repository {
                owner: new_owner,
                name: old_entry.repo.name,
                description: old_entry.repo.description,
                is_private: old_entry.repo.is_private,
                created_at: old_entry.repo.created_at,
                updated_at: old_entry.repo.updated_at,
                head_commit: old_entry.repo.head_commit,
                ipfs_cid: old_entry.repo.ipfs_cid,
                stars: old_entry.repo.stars,
                bump: old_entry.repo.bump,
            },
        };
        self.repos.insert(i, new_entry);
        proof {
            let pre = old(self).repos@;
            let post = self.repos@;
            assert forall|j: int| 0 <= j < pre.len() && j != i as int implies post[j] == pre[j] by {
                assert(post[j] == pre.remove(i as int).insert(i as int, new_entry)[j]);
            }
            assert(post[i as int] == new_entry);
            assert forall|p: int, q: int| 0 <= p < q < post.len()
                implies post[p].addr@ != post[q].addr@ by {
                assert(post[p].addr@ == pre[p].addr@);
                assert(post[q].addr@ == pre[q].addr@);
            }
            assert forall|j: int| 0 <= j < post.len() implies (#[trigger] post[j].repo).valid() by {
                if j != i as int {
                    assert(post[j] == pre[j]);
                }
            }
            if counts_consistent(pre, old(self).stars@) {
                assert forall|j: int| 0 <= j < post.len()
                    implies #[trigger] post[j].repo.stars == star_count_for(
                    self.stars@,
                    post[j].addr@,
                ) by {
                    if j != i as int {
                        assert(post[j] == pre[j]);
                    } else {
                        assert(pre[j].repo.stars == star_count_for(old(self).stars@, pre[j].addr@));
                    }
                }
            }
        }
        Ok(ev)
    }

    /// Destroy the repository at `ctx.repository`; the reserved space is
    /// refunded to the owner by the store. Grants and stars on it are not
    /// cascaded: they become orphaned until independently closed.
    pub fn delete_repo(&mut self, ctx: DeleteRepo) -> (r: Result<(), VanishError>)
        requires
            old(self).wf(),
        ensures
            final(self).wf(),
            final(self).collabs@ == old(self).collabs@,
            final(self).stars@ == old(self).stars@,
            delete_outcome(old(self).repos@, final(self).repos@, ctx.owner@, ctx.repository@, r),
            // only the recorded owner succeeds
            r is Ok ==> has_repo_at(old(self).repos@, ctx.repository@)
                && old(self).repos@[repo_idx(old(self).repos@, ctx.repository@)].repo.owner@
                == ctx.owner@,
            (has_repo_at(old(self).repos@, ctx.repository@)
                && old(self).repos@[repo_idx(old(self).repos@, ctx.repository@)].repo.owner@
                != ctx.owner@) ==> (r matches Err(VanishError::Unauthorized))
                && final(self).repos@ == old(self).repos@,
            counts_consistent(old(self).repos@, old(self).stars@)
                ==> counts_consistent(final(self).repos@, final(self).stars@),
    {
        let i = match find_repo(&self.repos, &ctx.repository) {
            None => {
                return Err(VanishError::NotFound);
            },
            Some(i) => i,
        };
        proof {
            lemma_found_repo_is_idx(self.repos@, ctx.repository@, i as int);
        }
        if !check_repo_auth(&self.repos[i], &ctx.owner) {
            return Err(VanishError::Unauthorized);
        }
        self.repos.remove(i);
        proof {
            let pre = old(self).repos@;
            let post = self.repos@;
            assert forall|p: int, q: int| 0 <= p < q < post.len()
                implies post[p].addr@ != post[q].addr@ by {
                assert(post[p] == if p < i as int { pre[p] } else { pre[p + 1] });
                assert(post[q] == if q < i as int { pre[q] } else { pre[q + 1] });
            }
            assert forall|j: int| 0 <= j < post.len() implies (#[trigger] post[j].repo).valid() by {
                assert(post[j] == if j < i as int { pre[j] } else { pre[j + 1] });
            }
            if counts_consistent(pre, old(self).stars@) {
                assert forall|j: int| 0 <= j < post.len()
                    implies #[trigger] post[j].repo.stars == star_count_for(
                    self.stars@,
                    post[j].addr@,
                ) by {
                    assert(post[j] == if j < i as int { pre[j] } else { pre[j + 1] });
                }
            }
        }
        Ok(())
    }

    /// The repository at `addr`, if one lives there.
    pub fn get_repo(&self, addr: &Vec<u8>) -> (r: Option<&Repository>)
        requires
            self.wf(),
        ensures
            match r {
                Some(rep) => has_repo_at(self.repos@, addr@) && *rep == self.repos@[repo_idx(
                    self.repos@,
                    addr@,
                )].repo,
                None => !has_repo_at(self.repos@, addr@),
            },
    {
        match find_repo(&self.repos, addr) {
            None => None,
            Some(i) => {
                proof {
                    lemma_found_repo_is_idx(self.repos@, addr@, i as int);
                }
                Some(&self.repos[i].repo)
            },
        }
    }

    /// The collaborator grant at `addr`, if one lives there.
    pub fn get_collaborator(&self, addr: &Vec<u8>) -> (r: Option<&Collaborator>)
        requires
            self.wf(),
        ensures
            match r {
                Some(c) => has_collab_at(self.collabs@, addr@) && *c == self.collabs@[collab_idx(
                    self.collabs@,
                    addr@,
                )].collab,
                None => !has_collab_at(self.collabs@, addr@),
            },
    {
        match find_collab(&self.collabs, addr) {
            None => None,
            Some(i) => {
                proof {
                    lemma_found_collab_is_idx(self.collabs@, addr@, i as int);
                }
                Some(&self.collabs[i].collab)
            },
        }
    }

    /// The star at `addr`, if one lives there.
    pub fn get_star(&self, addr: &Vec<u8>) -> (r: Option<&Star>)
        requires
            self.wf(),
        ensures
            match r {
                Some(s) => has_star_at(self.stars@, addr@) && *s == self.stars@[star_idx(
                    self.stars@,
                    addr@,
                )].star,
                None => !has_star_at(self.stars@, addr@),
            },
    {
        match find_star(&self.stars, addr) {
            None => None,
            Some(i) => {
                proof {
                    lemma_found_star_is_idx(self.stars@, addr@, i as int);
                }
                Some(&self.stars[i].star)
            },
        }
    }
}

} // verus!
