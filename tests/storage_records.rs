use pifp_protocol::rbac::{
    get_role, get_super_admin, grant_role, has_role, init_super_admin, require_admin_or_above,
    require_any_of, require_can_register, require_oracle, require_role, revoke_role, role_of,
    transfer_super_admin,
};
use pifp_protocol::storage::Storage;
use pifp_protocol::types::{bytes_equal, hashes_equal};
use pifp_protocol::{Address, Error, Project, ProjectState, ProjectStatus, Role};

fn addr(n: u8) -> Address {
    let mut k = [b'A'; 56];
    k[0] = b'G';
    k[55] = b'A' + n;
    Address::new(k)
}

fn project(id: u64, tokens: Vec<Address>) -> Project {
    Project {
        id,
        creator: addr(1),
        accepted_tokens: tokens,
        goal: 100,
        proof_hash: [9u8; 32],
        deadline: 50,
        status: ProjectStatus::Funding,
        donation_count: 0,
    }
}

#[test]
fn saved_project_loads_back() {
    let mut s = Storage::new();
    assert!(!s.project_exists(0));
    assert_eq!(s.maybe_load_project(0), None);
    s.save_project(&project(0, vec![addr(2), addr(3)]));
    assert!(s.project_exists(0));
    assert_eq!(s.load_project(0).unwrap(), project(0, vec![addr(2), addr(3)]));
    let config = s.load_project_config(0).unwrap();
    assert_eq!(config.accepted_tokens, vec![addr(2), addr(3)]);
    assert_eq!(config.goal, 100);
    assert_eq!(s.load_project_state(0).unwrap().status, ProjectStatus::Funding);
    let (c, st) = s.load_project_pair(0).unwrap();
    assert_eq!(c.id, 0);
    assert_eq!(st.donation_count, 0);
    assert_eq!(s.load_project_pair(1), Err(Error::ProjectNotFound));
    assert_eq!(s.maybe_load_project_config(1), None);
    assert_eq!(s.maybe_load_project_state(1), None);
    assert_eq!(s.get_token_balance(0, &addr(2)), 0);
}

#[test]
fn projects_are_saved_under_any_free_id() {
    let mut s = Storage::new();
    s.save_project(&project(7, vec![addr(2)]));
    s.save_project(&project(3, vec![addr(4)]));
    assert!(s.project_exists(7));
    assert!(s.project_exists(3));
    assert!(!s.project_exists(0));
    assert_eq!(s.load_project(7).unwrap().accepted_tokens, vec![addr(2)]);
    assert_eq!(s.load_project(3).unwrap().accepted_tokens, vec![addr(4)]);
    // Saving does not move the id counter.
    assert_eq!(s.project_count(), 0);
}

#[test]
fn project_ids_come_from_the_counter() {
    let mut s = Storage::new();
    assert_eq!(s.get_and_increment_project_id(), Ok(0));
    assert_eq!(s.get_and_increment_project_id(), Ok(1));
    assert_eq!(s.project_count(), 2);
}

#[test]
fn state_record_is_written_alone() {
    let mut s = Storage::new();
    s.save_project(&project(0, vec![addr(2)]));
    let st = ProjectState { status: ProjectStatus::Expired, donation_count: 4 };
    assert_eq!(s.save_project_state(0, st), Ok(()));
    assert_eq!(s.save_project_state(3, st), Err(Error::ProjectNotFound));
    let p = s.load_project(0).unwrap();
    assert_eq!(p.status, ProjectStatus::Expired);
    assert_eq!(p.donation_count, 4);
    assert_eq!(p.goal, 100);
}

#[test]
fn token_balance_primitives() {
    let mut s = Storage::new();
    // Balances exist for any (project, token) pair, registered or not.
    assert_eq!(s.add_to_token_balance(0, &addr(9), 5), Ok(5));
    assert_eq!(s.get_token_balance(0, &addr(9)), 5);
    s.save_project(&project(0, vec![addr(2), addr(3)]));
    s.set_token_balance(0, &addr(3), 70);
    s.set_token_balance(5, &addr(3), 11);
    assert_eq!(s.get_token_balance(5, &addr(3)), 11);
    assert_eq!(s.add_to_token_balance(0, &addr(3), 5), Ok(75));
    assert_eq!(s.add_to_token_balance(0, &addr(2), i128::MAX), Ok(i128::MAX));
    assert_eq!(s.add_to_token_balance(0, &addr(2), 1), Err(Error::Overflow));
    assert_eq!(s.get_token_balance(0, &addr(2)), i128::MAX);
    assert_eq!(s.add_to_token_balance(1, &addr(2), i128::MIN), Ok(i128::MIN));
    assert_eq!(s.add_to_token_balance(1, &addr(2), -1), Err(Error::Overflow));
    assert_eq!(s.drain_token_balance(0, &addr(3)), 75);
    assert_eq!(s.get_token_balance(0, &addr(3)), 0);
    assert_eq!(s.drain_token_balance(0, &addr(3)), 0);
    assert_eq!(s.get_token_balance(0, &addr(9)), 5);
    let all = s.get_all_balances(&s.load_project(0).unwrap());
    assert_eq!(all.balances.len(), 2);
    assert_eq!(all.balances[0].balance, i128::MAX);
    assert_eq!(all.balances[1].balance, 0);
}

#[test]
fn pause_flag_round_trips() {
    let mut s = Storage::new();
    assert!(!s.is_paused());
    s.set_paused(true);
    assert!(s.is_paused());
    s.set_paused(false);
    assert!(!s.is_paused());
}

#[test]
fn role_records_and_guards() {
    let mut s = Storage::new();
    let root = addr(0);
    assert_eq!(get_super_admin(&s), None);
    init_super_admin(&mut s, &root).unwrap();
    assert_eq!(get_super_admin(&s), Some(root));
    assert_eq!(init_super_admin(&mut s, &addr(1)), Err(Error::AlreadyInitialized));
    grant_role(&mut s, &root, &addr(1), Role::Admin).unwrap();
    grant_role(&mut s, &addr(1), &addr(2), Role::Oracle).unwrap();
    grant_role(&mut s, &addr(1), &addr(3), Role::ProjectManager).unwrap();
    assert_eq!(get_role(&s, &addr(2)), Some(Role::Oracle));
    assert_eq!(role_of(&s, &addr(4)), None);
    assert!(has_role(&s, &addr(3), Role::ProjectManager));
    assert_eq!(require_role(&s, &addr(2), Role::Oracle), Ok(()));
    assert_eq!(require_role(&s, &addr(2), Role::Admin), Err(Error::NotAuthorized));
    assert_eq!(require_oracle(&s, &addr(2)), Ok(()));
    assert_eq!(require_oracle(&s, &addr(3)), Err(Error::NotAuthorized));
    assert_eq!(require_admin_or_above(&s, &root), Ok(()));
    assert_eq!(require_admin_or_above(&s, &addr(1)), Ok(()));
    assert_eq!(require_admin_or_above(&s, &addr(2)), Err(Error::NotAuthorized));
    assert_eq!(require_can_register(&s, &addr(3)), Ok(()));
    assert_eq!(require_can_register(&s, &addr(2)), Err(Error::NotAuthorized));
    assert_eq!(require_can_register(&s, &addr(4)), Err(Error::NotAuthorized));
    assert_eq!(require_any_of(&s, &addr(2), &[Role::Auditor, Role::Oracle]), Ok(()));
    assert_eq!(require_any_of(&s, &addr(2), &[]), Err(Error::NotAuthorized));
    assert_eq!(revoke_role(&mut s, &addr(1), &addr(2)), Ok(true));
    assert_eq!(revoke_role(&mut s, &addr(1), &root), Err(Error::NotAuthorized));
    transfer_super_admin(&mut s, &root, &addr(5)).unwrap();
    assert_eq!(get_super_admin(&s), Some(addr(5)));
    assert_eq!(role_of(&s, &root), None);
    assert_eq!(role_of(&s, &addr(5)), Some(Role::SuperAdmin));
}

#[test]
fn byte_comparisons() {
    assert!(bytes_equal(b"abc", b"abc"));
    assert!(!bytes_equal(b"abc", b"abd"));
    assert!(!bytes_equal(b"abc", b"ab"));
    assert!(bytes_equal(b"", b""));
    let mut h = [3u8; 32];
    assert!(hashes_equal(&h, &[3u8; 32]));
    h[31] = 4;
    assert!(!hashes_equal(&h, &[3u8; 32]));
    assert!(addr(1).same(&addr(1)));
    assert!(!addr(1).same(&addr(2)));
}
