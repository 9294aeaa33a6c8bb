//! The events a successful operation hands back for external observers
//! (indexers, UIs). They never affect the core state: an operation returns
//! its event and the caller's surroundings decide what to do with it.

use vstd::prelude::*;

verus! {

/// A repository was created.
pub struct RepoCreated {
    pub owner: Vec<u8>,
    pub name: Vec<u8>,
    pub is_private: bool,
    pub timestamp: i64,
}

/// A repository took a new head commit and content location.
pub struct RepoPushed {
    pub owner: Vec<u8>,
    pub name: Vec<u8>,
    pub head_commit: Vec<u8>,
    pub ipfs_cid: Vec<u8>,
    pub timestamp: i64,
}

/// A collaborator grant was created on a repository.
pub struct CollaboratorAdded {
    pub repository: Vec<u8>,
    pub collaborator: Vec<u8>,
    pub can_push: bool,
    pub timestamp: i64,
}

/// A user starred a repository. Unstarring emits nothing: it is a pure
/// cleanup, and the asymmetry is intentional.
pub struct RepoStarred {
    pub user: Vec<u8>,
    pub repository: Vec<u8>,
    pub timestamp: i64,
}

/// A repository's logical owner changed. The record's address stays bound
/// to the original owner's derivation path.
pub struct OwnershipTransferred {
    pub repository: Vec<u8>,
    pub old_owner: Vec<u8>,
    pub new_owner: Vec<u8>,
}

} // verus!
