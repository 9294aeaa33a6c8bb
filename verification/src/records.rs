//! The three record kinds of the registry and their field invariants.
//!
//! A record lives in the store together with the address it was created
//! at; the address never changes afterwards, even when the fields do.

use vstd::prelude::*;

verus! {

/// One hosted repository: one per (owner, name) pair.
pub struct Repository {
    /// The identity allowed to mutate, transfer and delete the repository.
    pub owner: Vec<u8>,
    /// Immutable after creation; 1 to 64 bytes.
    pub name: Vec<u8>,
    /// At most 256 bytes.
    pub description: Vec<u8>,
    pub is_private: bool,
    pub created_at: i64,
    pub updated_at: i64,
    /// Empty until the first push; exactly 40 bytes once set.
    pub head_commit: Vec<u8>,
    /// Content-location string; at most 64 bytes.
    pub ipfs_cid: Vec<u8>,
    /// Star counter: floored at zero, clamped instead of wrapped above.
    pub stars: u64,
    /// The disambiguation nonce its address was derived with.
    pub bump: u8,
}

impl Repository {
    /// The space reserved at creation, computed once from the maximum
    /// allowed lengths and never resized: a fixed-width kind discriminator,
    /// the fixed fields, and each variable-length string behind an explicit
    /// length prefix.
    pub const SPACE: usize = 8  // discriminator
        + 32  // owner
        + 4 + 64  // name (length prefix + bytes)
        + 4 + 256  // description
        + 1  // is_private
        + 8  // created_at
        + 8  // updated_at
        + 4 + 40  // head_commit
        + 4 + 64  // ipfs_cid
        + 8  // stars
        + 1;  // bump

    /// The field invariants every stored repository satisfies.
    pub open spec fn valid(self) -> bool {
        &&& 1 <= self.name@.len() <= 64
        &&& self.description@.len() <= 256
        &&& self.head_commit@.len() == 0 || self.head_commit@.len() == 40
        &&& self.ipfs_cid@.len() <= 64
    }
}

/// One collaborator grant: one per (repository, grantee) pair. Its very
/// existence is the authorization signal; there is no enable flag beyond
/// presence.
pub struct Collaborator {
    /// The address of the repository the grant belongs to.
    pub repository: Vec<u8>,
    /// The grantee's identity.
    pub user: Vec<u8>,
    pub can_push: bool,
    pub added_at: i64,
    /// The disambiguation nonce its address was derived with.
    pub bump: u8,
}

impl Collaborator {
    /// The space reserved for a grant at creation.
    pub const SPACE: usize = 8  // discriminator
        + 32  // repository
        + 32  // user
        + 1  // can_push
        + 8  // added_at
        + 1;  // bump
}

/// One star: one per (user, repository) pair.
pub struct Star {
    /// The starring user, who pays for the record and is refunded on unstar.
    pub user: Vec<u8>,
    /// The address of the starred repository.
    pub repository: Vec<u8>,
    pub starred_at: i64,
    /// The disambiguation nonce its address was derived with.
    pub bump: u8,
}

impl Star {
    /// The space reserved for a star at creation.
    pub const SPACE: usize = 8  // discriminator
        + 32  // user
        + 32  // repository
        + 8  // starred_at
        + 1;  // bump
}

/// A repository together with the address it lives at.
pub struct RepoEntry {
    pub addr: Vec<u8>,
    pub repo: Repository,
}

/// A collaborator grant together with the address it lives at.
pub struct CollabEntry {
    pub addr: Vec<u8>,
    pub collab: Collaborator,
}

/// A star together with the address it lives at.
pub struct StarEntry {
    pub addr: Vec<u8>,
    pub star: Star,
}

} // verus!
