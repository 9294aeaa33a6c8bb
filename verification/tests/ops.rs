use vanish::addressing::{repo_address, collab_address, star_address};
use vanish::errors::VanishError;
use vanish::registry::{
    Registry, CreateRepo, PushUpdate, AddCollaborator, RemoveCollaborator, StarRepo, UnstarRepo,
    TransferOwnership, DeleteRepo,
};

fn key(fill: u8) -> Vec<u8> {
    vec![fill; 32]
}

fn create(reg: &mut Registry, owner: u8, name: &str) -> Vec<u8> {
    let r = reg.create_repo(
        CreateRepo { owner: key(owner) },
        name.as_bytes().to_vec(),
        b"x".to_vec(),
        false,
        100,
    );
    assert!(r.is_ok());
    let (addr, _bump) = repo_address(&key(owner), &name.as_bytes().to_vec()).unwrap();
    addr
}

#[test]
fn create_repo_records_owner_and_defaults() {
    let mut reg = Registry::new();
    let ev = reg
        .create_repo(
            CreateRepo { owner: key(1) },
            b"demo".to_vec(),
            b"x".to_vec(),
            false,
            100,
        )
        .unwrap();
    assert_eq!(ev.owner, key(1));
    assert_eq!(ev.name, b"demo".to_vec());
    assert!(!ev.is_private);
    assert_eq!(ev.timestamp, 100);

    // re-derive the same address and find the record
    let (addr, bump) = repo_address(&key(1), &b"demo".to_vec()).unwrap();
    let repo = reg.get_repo(&addr).unwrap();
    assert_eq!(repo.owner, key(1));
    assert_eq!(repo.name, b"demo".to_vec());
    assert_eq!(repo.description, b"x".to_vec());
    assert_eq!(repo.stars, 0);
    assert_eq!(repo.head_commit, Vec::<u8>::new());
    assert_eq!(repo.ipfs_cid, Vec::<u8>::new());
    assert_eq!(repo.created_at, 100);
    assert_eq!(repo.updated_at, 100);
    assert_eq!(repo.bump, bump);
}

#[test]
fn create_repo_rejects_bad_name_and_description() {
    let mut reg = Registry::new();
    let r = reg.create_repo(CreateRepo { owner: key(1) }, Vec::new(), b"x".to_vec(), false, 1);
    assert!(matches!(r, Err(VanishError::NameEmpty)));

    let r = reg.create_repo(
        CreateRepo { owner: key(1) },
        vec![b'a'; 65],
        b"x".to_vec(),
        false,
        1,
    );
    assert!(matches!(r, Err(VanishError::NameTooLong)));

    let r = reg.create_repo(
        CreateRepo { owner: key(1) },
        b"demo".to_vec(),
        vec![b'd'; 257],
        false,
        1,
    );
    assert!(matches!(r, Err(VanishError::DescriptionTooLong)));

    // no record was created under any of those attempts
    let (addr, _) = repo_address(&key(1), &b"demo".to_vec()).unwrap();
    assert!(reg.get_repo(&addr).is_none());
}

#[test]
fn name_over_the_seed_cap_cannot_be_derived() {
    // the ledger caps a single seed at 32 bytes, so a 33-byte name has no
    // derivable address: creation fails cleanly and records nothing
    let mut reg = Registry::new();
    assert!(repo_address(&key(1), &vec![b'n'; 33]).is_none());
    let r = reg.create_repo(CreateRepo { owner: key(1) }, vec![b'n'; 33], b"x".to_vec(), false, 1);
    assert!(matches!(r, Err(VanishError::Unauthorized)));

    // a 32-byte name sits exactly at the cap and works
    let r = reg.create_repo(CreateRepo { owner: key(1) }, vec![b'n'; 32], b"x".to_vec(), false, 1);
    assert!(r.is_ok());
    let (addr, _) = repo_address(&key(1), &vec![b'n'; 32]).unwrap();
    assert!(reg.get_repo(&addr).is_some());
}

#[test]
fn create_repo_twice_already_exists() {
    let mut reg = Registry::new();
    create(&mut reg, 1, "demo");
    let r = reg.create_repo(
        CreateRepo { owner: key(1) },
        b"demo".to_vec(),
        b"other".to_vec(),
        true,
        200,
    );
    assert!(matches!(r, Err(VanishError::AlreadyExists)));
}

#[test]
fn distinct_names_get_distinct_addresses() {
    let mut reg = Registry::new();
    let a = create(&mut reg, 1, "demo");
    let b = create(&mut reg, 1, "demo2");
    assert_ne!(a, b);
    // derivation is deterministic
    let (a2, _) = repo_address(&key(1), &b"demo".to_vec()).unwrap();
    assert_eq!(a, a2);
    // and kinds do not collide: a star address differs from the repo's
    let (s, _) = star_address(&key(1), &a).unwrap();
    assert_ne!(s, a);
}

#[test]
fn push_update_by_owner_succeeds() {
    let mut reg = Registry::new();
    let addr = create(&mut reg, 1, "demo");
    let commit = vec![b'a'; 40];
    let ev = reg
        .push_update(
            PushUpdate { owner: key(1), repository: addr.clone() },
            commit.clone(),
            b"Qm123".to_vec(),
            200,
        )
        .unwrap();
    assert_eq!(ev.head_commit, commit);
    assert_eq!(ev.ipfs_cid, b"Qm123".to_vec());
    let repo = reg.get_repo(&addr).unwrap();
    assert_eq!(repo.head_commit, commit);
    assert_eq!(repo.ipfs_cid, b"Qm123".to_vec());
    assert_eq!(repo.updated_at, 200);
    assert_eq!(repo.created_at, 100);
}

#[test]
fn push_update_by_other_caller_unauthorized() {
    let mut reg = Registry::new();
    let addr = create(&mut reg, 1, "demo");
    let commit = vec![b'a'; 40];
    reg.push_update(
        PushUpdate { owner: key(1), repository: addr.clone() },
        commit.clone(),
        b"Qm123".to_vec(),
        200,
    )
    .unwrap();
    let r = reg.push_update(
        PushUpdate { owner: key(2), repository: addr.clone() },
        vec![b'b'; 40],
        b"QmX".to_vec(),
        300,
    );
    assert!(matches!(r, Err(VanishError::Unauthorized)));
    // head commit unchanged
    let repo = reg.get_repo(&addr).unwrap();
    assert_eq!(repo.head_commit, commit);
    assert_eq!(repo.updated_at, 200);
}

#[test]
fn push_update_bad_commit_length_fails_unmodified() {
    let mut reg = Registry::new();
    let addr = create(&mut reg, 1, "demo");
    let r = reg.push_update(
        PushUpdate { owner: key(1), repository: addr.clone() },
        vec![b'a'; 39],
        b"Qm123".to_vec(),
        200,
    );
    assert!(matches!(r, Err(VanishError::InvalidCommitHash)));
    let r = reg.push_update(
        PushUpdate { owner: key(1), repository: addr.clone() },
        vec![b'a'; 41],
        b"Qm123".to_vec(),
        200,
    );
    assert!(matches!(r, Err(VanishError::InvalidCommitHash)));
    let repo = reg.get_repo(&addr).unwrap();
    assert_eq!(repo.head_commit, Vec::<u8>::new());
    assert_eq!(repo.updated_at, 100);
}

#[test]
fn push_update_bad_cid_fails() {
    let mut reg = Registry::new();
    let addr = create(&mut reg, 1, "demo");
    let r = reg.push_update(
        PushUpdate { owner: key(1), repository: addr.clone() },
        vec![b'a'; 40],
        vec![b'c'; 65],
        200,
    );
    assert!(matches!(r, Err(VanishError::InvalidIpfsCid)));
    let repo = reg.get_repo(&addr).unwrap();
    assert_eq!(repo.head_commit, Vec::<u8>::new());
}

#[test]
fn push_update_unknown_repository_not_found() {
    let mut reg = Registry::new();
    let r = reg.push_update(
        PushUpdate { owner: key(1), repository: key(9) },
        vec![b'a'; 40],
        b"Qm".to_vec(),
        1,
    );
    assert!(matches!(r, Err(VanishError::NotFound)));
}

#[test]
fn star_twice_fails_and_counter_matches_records() {
    let mut reg = Registry::new();
    let addr = create(&mut reg, 1, "demo");
    let ev = reg.star_repo(StarRepo { user: key(2), repository: addr.clone() }, 150).unwrap();
    assert_eq!(ev.user, key(2));
    assert_eq!(ev.repository, addr);
    assert_eq!(reg.get_repo(&addr).unwrap().stars, 1);

    let r = reg.star_repo(StarRepo { user: key(2), repository: addr.clone() }, 160);
    assert!(matches!(r, Err(VanishError::AlreadyExists)));
    assert_eq!(reg.get_repo(&addr).unwrap().stars, 1);

    // a second user is a second star
    reg.star_repo(StarRepo { user: key(3), repository: addr.clone() }, 170).unwrap();
    assert_eq!(reg.get_repo(&addr).unwrap().stars, 2);

    // the star record is inspectable at its derived address
    let (star_addr, star_bump) = star_address(&key(2), &addr).unwrap();
    let star = reg.get_star(&star_addr).unwrap();
    assert_eq!(star.user, key(2));
    assert_eq!(star.repository, addr);
    assert_eq!(star.starred_at, 150);
    assert_eq!(star.bump, star_bump);
}

#[test]
fn unstar_decrements_and_closes_the_record() {
    let mut reg = Registry::new();
    let addr = create(&mut reg, 1, "demo");
    reg.star_repo(StarRepo { user: key(2), repository: addr.clone() }, 150).unwrap();
    assert_eq!(reg.get_repo(&addr).unwrap().stars, 1);

    reg.unstar_repo(UnstarRepo { user: key(2), repository: addr.clone() }).unwrap();
    assert_eq!(reg.get_repo(&addr).unwrap().stars, 0);
    let (star_addr, _) = star_address(&key(2), &addr).unwrap();
    assert!(reg.get_star(&star_addr).is_none());

    // without an open star record there is nothing to unstar
    let r = reg.unstar_repo(UnstarRepo { user: key(2), repository: addr.clone() });
    assert!(matches!(r, Err(VanishError::NotFound)));
    assert_eq!(reg.get_repo(&addr).unwrap().stars, 0);
}

#[test]
fn unstar_with_zero_counter_floors_at_zero() {
    // an orphaned star outlives its repository; recreating the repository
    // at the same address leaves a fresh counter at zero with the old star
    // still open — unstarring must not underflow and must not error
    let mut reg = Registry::new();
    let addr = create(&mut reg, 1, "demo");
    reg.star_repo(StarRepo { user: key(2), repository: addr.clone() }, 150).unwrap();
    reg.delete_repo(DeleteRepo { owner: key(1), repository: addr.clone() }).unwrap();
    let addr2 = create(&mut reg, 1, "demo");
    assert_eq!(addr, addr2);
    assert_eq!(reg.get_repo(&addr).unwrap().stars, 0);

    let r = reg.unstar_repo(UnstarRepo { user: key(2), repository: addr.clone() });
    assert!(r.is_ok());
    assert_eq!(reg.get_repo(&addr).unwrap().stars, 0);
}

#[test]
fn add_then_remove_collaborator_round_trip() {
    let mut reg = Registry::new();
    let addr = create(&mut reg, 1, "demo");
    let ev = reg
        .add_collaborator(
            AddCollaborator { owner: key(1), repository: addr.clone() },
            key(5),
            true,
            120,
        )
        .unwrap();
    assert_eq!(ev.repository, addr);
    assert_eq!(ev.collaborator, key(5));
    assert!(ev.can_push);

    let (collab_addr, collab_bump) = collab_address(&addr, &key(5)).unwrap();
    let c = reg.get_collaborator(&collab_addr).unwrap();
    assert_eq!(c.repository, addr);
    assert_eq!(c.user, key(5));
    assert!(c.can_push);
    assert_eq!(c.added_at, 120);
    assert_eq!(c.bump, collab_bump);

    reg.remove_collaborator(RemoveCollaborator {
        owner: key(1),
        repository: addr.clone(),
        collaborator_account: collab_addr.clone(),
    })
    .unwrap();
    assert!(reg.get_collaborator(&collab_addr).is_none());
    // the repository is back to its pre-grant state
    let repo = reg.get_repo(&addr).unwrap();
    assert_eq!(repo.owner, key(1));
    assert_eq!(repo.stars, 0);
}

#[test]
fn add_collaborator_twice_already_exists() {
    let mut reg = Registry::new();
    let addr = create(&mut reg, 1, "demo");
    reg.add_collaborator(
        AddCollaborator { owner: key(1), repository: addr.clone() },
        key(5),
        true,
        120,
    )
    .unwrap();
    let r = reg.add_collaborator(
        AddCollaborator { owner: key(1), repository: addr.clone() },
        key(5),
        false,
        130,
    );
    assert!(matches!(r, Err(VanishError::AlreadyExists)));
}

#[test]
fn only_owner_may_touch_guarded_operations() {
    let mut reg = Registry::new();
    let addr = create(&mut reg, 1, "demo");

    let r = reg.add_collaborator(
        AddCollaborator { owner: key(2), repository: addr.clone() },
        key(5),
        true,
        1,
    );
    assert!(matches!(r, Err(VanishError::Unauthorized)));

    reg.add_collaborator(
        AddCollaborator { owner: key(1), repository: addr.clone() },
        key(5),
        true,
        1,
    )
    .unwrap();
    let (collab_addr, _) = collab_address(&addr, &key(5)).unwrap();
    let r = reg.remove_collaborator(RemoveCollaborator {
        owner: key(2),
        repository: addr.clone(),
        collaborator_account: collab_addr.clone(),
    });
    assert!(matches!(r, Err(VanishError::Unauthorized)));
    assert!(reg.get_collaborator(&collab_addr).is_some());

    let r = reg.transfer_ownership(
        TransferOwnership { owner: key(2), repository: addr.clone() },
        key(3),
    );
    assert!(matches!(r, Err(VanishError::Unauthorized)));

    let r = reg.delete_repo(DeleteRepo { owner: key(2), repository: addr.clone() });
    assert!(matches!(r, Err(VanishError::Unauthorized)));
    assert!(reg.get_repo(&addr).is_some());
    assert_eq!(reg.get_repo(&addr).unwrap().owner, key(1));
}

#[test]
fn transfer_ownership_changes_owner_only() {
    let mut reg = Registry::new();
    let addr = create(&mut reg, 1, "demo");
    let ev = reg
        .transfer_ownership(TransferOwnership { owner: key(1), repository: addr.clone() }, key(7))
        .unwrap();
    assert_eq!(ev.repository, addr);
    assert_eq!(ev.old_owner, key(1));
    assert_eq!(ev.new_owner, key(7));

    let repo = reg.get_repo(&addr).unwrap();
    assert_eq!(repo.owner, key(7));
    assert_eq!(repo.name, b"demo".to_vec());

    // the address still encodes the original owner: the old owner fails the
    // owner match, and the new owner fails re-derivation, so neither may push
    let r = reg.push_update(
        PushUpdate { owner: key(1), repository: addr.clone() },
        vec![b'a'; 40],
        b"Qm".to_vec(),
        2,
    );
    assert!(matches!(r, Err(VanishError::Unauthorized)));
    let r = reg.push_update(
        PushUpdate { owner: key(7), repository: addr.clone() },
        vec![b'a'; 40],
        b"Qm".to_vec(),
        2,
    );
    assert!(matches!(r, Err(VanishError::Unauthorized)));
}

#[test]
fn delete_repo_leaves_children_orphaned() {
    let mut reg = Registry::new();
    let addr = create(&mut reg, 1, "demo");
    reg.add_collaborator(
        AddCollaborator { owner: key(1), repository: addr.clone() },
        key(5),
        true,
        1,
    )
    .unwrap();
    reg.star_repo(StarRepo { user: key(2), repository: addr.clone() }, 2).unwrap();

    reg.delete_repo(DeleteRepo { owner: key(1), repository: addr.clone() }).unwrap();
    assert!(reg.get_repo(&addr).is_none());

    // children are not cascaded: they stay addressable
    let (collab_addr, _) = collab_address(&addr, &key(5)).unwrap();
    let (star_addr, _) = star_address(&key(2), &addr).unwrap();
    assert!(reg.get_collaborator(&collab_addr).is_some());
    assert!(reg.get_star(&star_addr).is_some());
}

#[test]
fn full_example_scenario() {
    let mut reg = Registry::new();
    reg.create_repo(CreateRepo { owner: key(10) }, b"demo".to_vec(), b"x".to_vec(), false, 100)
        .unwrap();
    let (addr, _) = repo_address(&key(10), &b"demo".to_vec()).unwrap();
    let repo = reg.get_repo(&addr).unwrap();
    assert_eq!(repo.owner, key(10));
    assert_eq!(repo.stars, 0);

    let commit = vec![b'a'; 40];
    reg.push_update(
        PushUpdate { owner: key(10), repository: addr.clone() },
        commit.clone(),
        b"Qm123".to_vec(),
        200,
    )
    .unwrap();
    assert_eq!(reg.get_repo(&addr).unwrap().head_commit, commit);

    let r = reg.push_update(
        PushUpdate { owner: key(11), repository: addr.clone() },
        vec![b'b'; 40],
        b"Qm456".to_vec(),
        300,
    );
    assert!(matches!(r, Err(VanishError::Unauthorized)));
    assert_eq!(reg.get_repo(&addr).unwrap().head_commit, commit);
}
