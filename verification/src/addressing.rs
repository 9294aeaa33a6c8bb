//! Address derivation: the deterministic map from a record kind and its
//! identifying fields to the address the record lives at, plus the
//! disambiguation nonce ("bump") found for it.
//!
//! Each record kind has its own tag seed, so the three derivation families
//! cannot be confused with one another by construction of the inputs. The
//! derivation itself is done by the ledger's own routine; this module names
//! its result and exposes one derivation function per record kind.

use vstd::prelude::*;

verus! {

/// What `Pubkey::try_find_program_address` returns for three seeds and a
/// program id: a deterministic function of those bytes alone (a hash-based
/// search for the largest bump that yields a valid address — far too long
/// to state, so it is only named). `None` means no bump was viable.
pub uninterp spec fn derived(tag: Seq<u8>, seed_a: Seq<u8>, seed_b: Seq<u8>, program: Seq<u8>) -> Option<(Seq<u8>, u8)>;

/// How an executable derivation result relates to the named one: same
/// presence, same address bytes, same bump; a present address is 32 bytes.
pub open spec fn matches_derived(r: Option<(Vec<u8>, u8)>, d: Option<(Seq<u8>, u8)>) -> bool {
    match d {
        Some(p) => r matches Some(q) && q.0@ == p.0 && q.1 == p.1 && p.0.len() == 32,
        None => r is None,
    }
}

/// Relies on `anchor_lang`'s `Pubkey::try_find_program_address` (the
/// program-derived-address search of `solana_address`): off the ledger it
/// computes the address directly from the seed bytes and the program id,
/// so the result depends on those alone; it returns `None` instead of
/// panicking when no bump is viable or a seed is over the length cap.
#[verifier::external_body]
fn derive_address(tag: &Vec<u8>, seed_a: &Vec<u8>, seed_b: &Vec<u8>, program: &Vec<u8>) -> (r: Option<(Vec<u8>, u8)>)
    requires
        program@.len() == 32,
    ensures
        matches_derived(r, derived(tag@, seed_a@, seed_b@, program@)),
{
    let program = anchor_lang::prelude::Pubkey::try_from(program.as_slice()).unwrap();
    let found = anchor_lang::prelude::Pubkey::try_find_program_address(
        &[tag.as_slice(), seed_a.as_slice(), seed_b.as_slice()],
        &program,
    );
    found.map(|(addr, bump)| (addr.to_bytes().to_vec(), bump))
}

/// The tag seed of repository records: the bytes of `"repo"`.
pub open spec fn repo_tag() -> Seq<u8> {
    seq![114u8, 101u8, 112u8, 111u8]
}

/// The tag seed of collaborator records: the bytes of `"collab"`.
pub open spec fn collab_tag() -> Seq<u8> {
    seq![99u8, 111u8, 108u8, 108u8, 97u8, 98u8]
}

/// The tag seed of star records: the bytes of `"star"`.
pub open spec fn star_tag() -> Seq<u8> {
    seq![115u8, 116u8, 97u8, 114u8]
}

/// The registry's own identity, the program id every derivation is
/// relative to.
pub open spec fn program_key() -> Seq<u8> {
    Seq::new(32, |i: int| 11u8)
}

fn repo_tag_bytes() -> (r: Vec<u8>)
    ensures
        r@ == repo_tag(),
{
    let mut v: Vec<u8> = Vec::new();
    v.push(114);
    v.push(101);
    v.push(112);
    v.push(111);
    proof {
        assert(v@ =~= repo_tag());
    }
    v
}

fn collab_tag_bytes() -> (r: Vec<u8>)
    ensures
        r@ == collab_tag(),
{
    let mut v: Vec<u8> = Vec::new();
    v.push(99);
    v.push(111);
    v.push(108);
    v.push(108);
    v.push(97);
    v.push(98);
    proof {
        assert(v@ =~= collab_tag());
    }
    v
}

fn star_tag_bytes() -> (r: Vec<u8>)
    ensures
        r@ == star_tag(),
{
    let mut v: Vec<u8> = Vec::new();
    v.push(115);
    v.push(116);
    v.push(97);
    v.push(114);
    proof {
        assert(v@ =~= star_tag());
    }
    v
}

fn program_id_bytes() -> (r: Vec<u8>)
    ensures
        r@ == program_key(),
        r@.len() == 32,
{
    let mut v: Vec<u8> = Vec::new();
    let mut i: usize = 0;
    while i < 32
        invariant
            i <= 32,
            v@.len() == i,
            forall|j: int| 0 <= j < i ==> v@[j] == 11u8,
        decreases 32 - i,
    {
        v.push(11);
        i = i + 1;
    }
    proof {
        assert(v@ =~= program_key());
    }
    v
}

/// The address a repository of `owner` named `name` lives at, with its
/// bump, or `None` where no bump is viable for that pair.
pub fn repo_address(owner: &Vec<u8>, name: &Vec<u8>) -> (r: Option<(Vec<u8>, u8)>)
    ensures
        matches_derived(r, derived(repo_tag(), owner@, name@, program_key())),
{
    derive_address(&repo_tag_bytes(), owner, name, &program_id_bytes())
}

/// The address of the collaborator grant of `grantee` on the repository
/// living at `repository`.
pub fn collab_address(repository: &Vec<u8>, grantee: &Vec<u8>) -> (r: Option<(Vec<u8>, u8)>)
    ensures
        matches_derived(r, derived(collab_tag(), repository@, grantee@, program_key())),
{
    derive_address(&collab_tag_bytes(), repository, grantee, &program_id_bytes())
}

/// The address of `user`'s star on the repository living at `repository`.
pub fn star_address(user: &Vec<u8>, repository: &Vec<u8>) -> (r: Option<(Vec<u8>, u8)>)
    ensures
        matches_derived(r, derived(star_tag(), user@, repository@, program_key())),
{
    derive_address(&star_tag_bytes(), user, repository, &program_id_bytes())
}

} // verus!
