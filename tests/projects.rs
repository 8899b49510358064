use pifp_protocol::events::{project_created, ProjectCreated, ProjectFunded, ProjectVerified};
use pifp_protocol::{Address, Error, PifpProtocol, ProjectStatus, Role};

const NOW: u64 = 1_700_000_000;

fn addr(n: u8) -> Address {
    let mut k = [b'A'; 56];
    k[0] = b'C';
    k[54] = b'A' + n / 26;
    k[55] = b'A' + n % 26;
    Address::new(k)
}

fn setup() -> (PifpProtocol, Address) {
    let mut p = PifpProtocol::new();
    let admin = addr(0);
    p.init(&admin).unwrap();
    (p, admin)
}

/// A contract with a ProjectManager (`creator`) and an Oracle.
fn setup_roles() -> (PifpProtocol, Address, Address, Address) {
    let (mut p, admin) = setup();
    let creator = addr(1);
    let oracle = addr(2);
    p.grant_role(&admin, &creator, Role::ProjectManager).unwrap();
    p.set_oracle(&admin, &oracle).unwrap();
    (p, admin, creator, oracle)
}

#[test]
fn test_register_project_success() {
    let (mut client, _admin, creator, _) = setup_roles();
    let token = addr(10);
    let proof_hash = [1u8; 32];
    let goal: i128 = 1_000;
    let deadline: u64 = NOW + 86_400;

    let project = client
        .register_project(NOW, &creator, &vec![token], goal, proof_hash, deadline)
        .unwrap();

    assert_eq!(project.id, 0);
    assert_eq!(project.creator, creator);
    assert_eq!(project.accepted_tokens, vec![token]);
    assert_eq!(project.goal, goal);
    assert_eq!(client.get_balance(project.id, &token), 0);
    assert_eq!(project.proof_hash, proof_hash);
    assert_eq!(project.deadline, deadline);
    assert_eq!(project.status, ProjectStatus::Funding);
}

#[test]
fn test_register_second_project_unique_ids() {
    let (mut client, _admin, creator, _) = setup_roles();
    let token = addr(10);
    let proof_hash = [2u8; 32];
    let deadline: u64 = NOW + 86_400;

    let p1 = client.register_project(NOW, &creator, &vec![token], 500, proof_hash, deadline).unwrap();
    let p2 = client.register_project(NOW, &creator, &vec![token], 700, proof_hash, deadline).unwrap();

    assert_eq!(p1.id, 0);
    assert_eq!(p2.id, 1);
}

#[test]
fn test_register_project_invalid_goal() {
    let (mut client, _admin, creator, _) = setup_roles();
    let token = addr(10);
    let deadline: u64 = NOW + 86_400;
    let r = client.register_project(NOW, &creator, &vec![token], 0, [3u8; 32], deadline);
    assert_eq!(r, Err(Error::InvalidGoal));
}

#[test]
fn test_register_project_invalid_deadline() {
    let (mut client, _admin, creator, _) = setup_roles();
    let token = addr(10);
    let r = client.register_project(NOW, &creator, &vec![token], 100, [4u8; 32], 0);
    assert_eq!(r, Err(Error::InvalidDeadline));
}

#[test]
fn test_get_project_success() {
    let (mut client, _admin, creator, _) = setup_roles();
    let token = addr(10);
    let deadline: u64 = NOW + 86_400;
    let registered =
        client.register_project(NOW, &creator, &vec![token], 999, [5u8; 32], deadline).unwrap();
    let retrieved = client.get_project(registered.id).unwrap();
    assert_eq!(registered, retrieved);
}

#[test]
fn test_get_project_not_found() {
    let (client, _admin) = setup();
    assert_eq!(client.get_project(42), Err(Error::ProjectNotFound));
}

#[test]
fn test_set_oracle() {
    let (mut client, admin) = setup();
    let oracle = addr(2);
    client.set_oracle(&admin, &oracle).unwrap();
    assert_eq!(client.role_of(&oracle), Some(Role::Oracle));
}

#[test]
fn test_verify_and_release_success() {
    let (mut client, _admin, creator, oracle) = setup_roles();
    let token = addr(10);
    let proof_hash = [10u8; 32];
    let deadline: u64 = NOW + 86_400;
    let project =
        client.register_project(NOW, &creator, &vec![token], 500, proof_hash, deadline).unwrap();

    client.verify_and_release(&oracle, project.id, proof_hash).unwrap();

    let updated = client.get_project(project.id).unwrap();
    assert_eq!(updated.status, ProjectStatus::Completed);
}

#[test]
fn test_verify_wrong_hash() {
    let (mut client, _admin, creator, oracle) = setup_roles();
    let token = addr(10);
    let proof_hash = [10u8; 32];
    let wrong_hash = [99u8; 32];
    let deadline: u64 = NOW + 86_400;
    let project =
        client.register_project(NOW, &creator, &vec![token], 500, proof_hash, deadline).unwrap();
    assert_eq!(
        client.verify_and_release(&oracle, project.id, wrong_hash),
        Err(Error::VerificationFailed)
    );
    assert_eq!(client.get_project(project.id).unwrap().status, ProjectStatus::Funding);
}

#[test]
fn test_verify_already_completed() {
    let (mut client, _admin, creator, oracle) = setup_roles();
    let token = addr(10);
    let proof_hash = [10u8; 32];
    let deadline: u64 = NOW + 86_400;
    let project =
        client.register_project(NOW, &creator, &vec![token], 500, proof_hash, deadline).unwrap();
    client.verify_and_release(&oracle, project.id, proof_hash).unwrap();
    assert_eq!(
        client.verify_and_release(&oracle, project.id, proof_hash),
        Err(Error::MilestoneAlreadyReleased)
    );
}

#[test]
fn test_verify_nonexistent_project() {
    let (mut client, _admin, _creator, oracle) = setup_roles();
    assert_eq!(
        client.verify_and_release(&oracle, 999, [0u8; 32]),
        Err(Error::ProjectNotFound)
    );
}

#[test]
fn test_verify_without_oracle_role() {
    let (mut client, _admin, creator, _oracle) = setup_roles();
    let token = addr(10);
    let proof_hash = [10u8; 32];
    let deadline: u64 = NOW + 86_400;
    let project =
        client.register_project(NOW, &creator, &vec![token], 500, proof_hash, deadline).unwrap();
    let unauthorized_oracle = addr(20);
    assert_eq!(
        client.verify_and_release(&unauthorized_oracle, project.id, proof_hash),
        Err(Error::NotAuthorized)
    );
}

#[test]
fn test_deposit_success() {
    let (mut client, _admin, creator, _) = setup_roles();
    let token = addr(10);
    let goal: i128 = 1_000;
    let deadline: u64 = NOW + 86_400;
    let project =
        client.register_project(NOW, &creator, &vec![token], goal, [1u8; 32], deadline).unwrap();
    let donator = addr(30);

    assert_eq!(client.check_deposit(NOW, project.id, &token, 500), Ok(()));
    client.deposit(NOW, project.id, &donator, &token, 500, true).unwrap();

    assert_eq!(client.get_balance(project.id, &token), 500);
    let balances = client.get_balances(project.id).unwrap();
    assert_eq!(balances.balances.len(), 1);
    assert_eq!(balances.balances[0].balance, 500);
}

#[test]
fn test_deposit_project_not_found() {
    let (mut client, _admin) = setup();
    let donator = addr(30);
    let token = addr(10);
    assert_eq!(
        client.deposit(NOW, 999, &donator, &token, 500, true),
        Err(Error::ProjectNotFound)
    );
}

#[test]
fn test_deposit_insufficient_balance() {
    let (mut client, _admin, creator, _) = setup_roles();
    let token = addr(10);
    let deadline: u64 = NOW + 86_400;
    let project =
        client.register_project(NOW, &creator, &vec![token], 1_000, [1u8; 32], deadline).unwrap();
    let donator = addr(30);
    // The donator holds nothing, so the transfer into custody fails.
    assert_eq!(
        client.deposit(NOW, project.id, &donator, &token, 500, false),
        Err(Error::InsufficientBalance)
    );
    assert_eq!(client.get_balance(project.id, &token), 0);
}

#[test]
fn test_project_manager_can_register() {
    let (mut client, _admin, pm, _) = setup_roles();
    let tokens = vec![addr(10)];
    let project = client.register_project(NOW, &pm, &tokens, 1000, [0xab; 32], NOW + 86_400).unwrap();
    assert_eq!(project.creator, pm);
}

#[test]
fn test_no_role_cannot_register_project() {
    let (mut client, _admin) = setup();
    let nobody = addr(5);
    let tokens = vec![addr(10)];
    assert_eq!(
        client.register_project(NOW, &nobody, &tokens, 1000, [0xab; 32], NOW + 86_400),
        Err(Error::NotAuthorized)
    );
}

#[test]
fn test_oracle_can_verify() {
    let (mut client, super_admin) = setup();
    let oracle = addr(2);
    let creator = addr(1);
    let tokens = vec![addr(10)];
    let proof = [0xab; 32];
    client.set_oracle(&super_admin, &oracle).unwrap();
    client.grant_role(&super_admin, &creator, Role::ProjectManager).unwrap();
    let project = client.register_project(NOW, &creator, &tokens, 100, proof, NOW + 86_400).unwrap();
    client.verify_and_release(&oracle, project.id, proof).unwrap();
    let completed = client.get_project(project.id).unwrap();
    assert_eq!(completed.status, ProjectStatus::Completed);
}

#[test]
fn test_non_oracle_cannot_verify() {
    let (mut client, super_admin) = setup();
    let pm = addr(1);
    let impersonator = addr(3);
    let tokens = vec![addr(10)];
    let proof = [0xab; 32];
    client.grant_role(&super_admin, &pm, Role::ProjectManager).unwrap();
    let project = client.register_project(NOW, &pm, &tokens, 100, proof, NOW + 86_400).unwrap();
    assert_eq!(
        client.verify_and_release(&impersonator, project.id, proof),
        Err(Error::NotAuthorized)
    );
}

#[test]
fn test_project_created_event() {
    let (mut client, _admin, creator, _) = setup_roles();
    let token = addr(10);
    let goal = 5000i128;
    let project = client
        .register_project(NOW, &creator, &vec![token], goal, [0xab; 32], NOW + 86400)
        .unwrap();
    let event = project_created(&project).expect("No events found");
    assert_eq!(event, ProjectCreated { project_id: project.id, creator, token, goal });
}

#[test]
fn test_project_funded_event() {
    let (mut client, _admin, creator, _) = setup_roles();
    let token = addr(10);
    let donator = addr(30);
    let amount = 1000i128;
    let project = client
        .register_project(NOW, &creator, &vec![token], 10000, [0u8; 32], NOW + 86400)
        .unwrap();
    let event = client.deposit(NOW, project.id, &donator, &token, amount, true).unwrap();
    assert_eq!(event, ProjectFunded { project_id: project.id, donator, amount });
}

#[test]
fn test_project_verified_event() {
    let (mut client, _admin, creator, oracle) = setup_roles();
    let token = addr(10);
    let proof_hash = [0xab; 32];
    let project = client
        .register_project(NOW, &creator, &vec![token], 1000, proof_hash, NOW + 86400)
        .unwrap();
    let event = client.verify_and_release(&oracle, project.id, proof_hash).unwrap();
    assert_eq!(event, ProjectVerified { project_id: project.id, oracle, proof_hash });
}

#[test]
fn funding_scenario_end_to_end() {
    let (mut client, _admin, creator, oracle) = setup_roles();
    let token = addr(10);
    let hash = [7u8; 32];
    let project = client
        .register_project(NOW, &creator, &vec![token], 1000, hash, NOW + 86_400)
        .unwrap();
    assert_eq!(project.id, 0);
    assert_eq!(project.status, ProjectStatus::Funding);
    assert_eq!(client.get_balance(0, &token), 0);

    let donator = addr(30);
    client.deposit(NOW + 10, 0, &donator, &token, 300, true).unwrap();
    client.deposit(NOW + 20, 0, &donator, &token, 700, true).unwrap();
    assert_eq!(client.get_balance(0, &token), 1000);
    assert_eq!(client.get_project(0).unwrap().status, ProjectStatus::Funding);

    client.verify_and_release(&oracle, 0, hash).unwrap();
    assert_eq!(client.get_project(0).unwrap().status, ProjectStatus::Completed);
    assert_eq!(
        client.verify_and_release(&oracle, 0, hash),
        Err(Error::MilestoneAlreadyReleased)
    );

    let later = client
        .register_project(NOW, &creator, &vec![token], 1000, hash, NOW + 86_400)
        .unwrap();
    assert_eq!(
        client.deposit(NOW + 86_400, later.id, &donator, &token, 100, true),
        Err(Error::ProjectExpired)
    );

    let dup = vec![addr(11), addr(11)];
    assert_eq!(
        client.register_project(NOW, &creator, &dup, 1000, hash, NOW + 86_400),
        Err(Error::DuplicateToken)
    );
}

#[test]
fn registration_errors() {
    let (mut client, admin, creator, _) = setup_roles();
    let t = vec![addr(10)];
    let h = [1u8; 32];
    let d = NOW + 86_400;
    assert_eq!(client.register_project(NOW, &creator, &vec![], 1, h, d), Err(Error::EmptyAcceptedTokens));
    let eleven: Vec<Address> = (10..21).map(addr).collect();
    assert_eq!(client.register_project(NOW, &creator, &eleven, 1, h, d), Err(Error::TooManyTokens));
    let ten: Vec<Address> = (10..20).map(addr).collect();
    assert_eq!(client.register_project(NOW, &creator, &ten, 1, h, d).unwrap().id, 0);
    assert_eq!(client.register_project(NOW, &creator, &t, -5, h, d), Err(Error::InvalidGoal));
    let max_goal: i128 = 1_000_000_000_000_000_000_000_000_000_000;
    assert_eq!(client.register_project(NOW, &creator, &t, max_goal + 1, h, d), Err(Error::InvalidGoal));
    assert_eq!(client.register_project(NOW, &creator, &t, max_goal, h, d).unwrap().id, 1);
    assert_eq!(client.register_project(NOW, &creator, &t, 1, h, NOW), Err(Error::InvalidDeadline));
    let horizon: u64 = 157_680_000;
    assert_eq!(
        client.register_project(NOW, &creator, &t, 1, h, NOW + horizon + 1),
        Err(Error::InvalidDeadline)
    );
    assert_eq!(client.register_project(NOW, &creator, &t, 1, h, NOW + horizon).unwrap().id, 2);
    // A deadline near the end of the clock does not overflow.
    assert_eq!(
        client.register_project(u64::MAX - 1, &creator, &t, 1, h, u64::MAX).unwrap().id,
        3
    );
    client.pause(&admin).unwrap();
    assert_eq!(client.register_project(NOW, &creator, &t, 1, h, d), Err(Error::ProtocolPaused));
}

#[test]
fn deposit_errors() {
    let (mut client, admin, creator, oracle) = setup_roles();
    let token = addr(10);
    let other = addr(11);
    let donator = addr(30);
    let h = [1u8; 32];
    let id = client.register_project(NOW, &creator, &vec![token], 1000, h, NOW + 100).unwrap().id;
    assert_eq!(client.deposit(NOW, id, &donator, &token, 0, true), Err(Error::InvalidAmount));
    assert_eq!(client.deposit(NOW, id, &donator, &token, -3, true), Err(Error::InvalidAmount));
    assert_eq!(client.deposit(NOW, id, &donator, &other, 5, true), Err(Error::NotAuthorized));
    assert_eq!(client.deposit(NOW + 100, id, &donator, &token, 5, true), Err(Error::ProjectExpired));
    client.deposit(NOW, id, &donator, &token, i128::MAX, true).unwrap();
    assert_eq!(client.deposit(NOW, id, &donator, &token, 1, true), Err(Error::Overflow));
    assert_eq!(client.get_balance(id, &token), i128::MAX);
    client.verify_and_release(&oracle, id, h).unwrap();
    assert_eq!(client.deposit(NOW, id, &donator, &token, 5, true), Err(Error::ProjectNotActive));
    client.pause(&admin).unwrap();
    assert_eq!(client.deposit(NOW, id, &donator, &token, 5, true), Err(Error::ProtocolPaused));
    assert_eq!(client.verify_and_release(&oracle, id, h), Err(Error::ProtocolPaused));
    // Queries are never guarded by the pause flag.
    assert_eq!(client.get_project(id).unwrap().status, ProjectStatus::Completed);
}

#[test]
fn balances_are_kept_per_token() {
    let (mut client, _admin, creator, _) = setup_roles();
    let a = addr(10);
    let b = addr(11);
    let donator = addr(30);
    let p = client
        .register_project(NOW, &creator, &vec![a, b], 1000, [1u8; 32], NOW + 100)
        .unwrap();
    client.deposit(NOW, p.id, &donator, &b, 40, true).unwrap();
    client.deposit(NOW, p.id, &donator, &a, 2, true).unwrap();
    client.deposit(NOW, p.id, &donator, &b, 60, true).unwrap();
    assert_eq!(client.get_balance(p.id, &a), 2);
    assert_eq!(client.get_balance(p.id, &b), 100);
    assert_eq!(client.get_balance(p.id, &addr(12)), 0);
    assert_eq!(client.get_balance(7, &a), 0);
    let snap = client.get_balances(p.id).unwrap();
    assert_eq!(snap.project_id, p.id);
    assert_eq!(snap.balances[0].token, a);
    assert_eq!(snap.balances[0].balance, 2);
    assert_eq!(snap.balances[1].token, b);
    assert_eq!(snap.balances[1].balance, 100);
    assert_eq!(client.get_balances(9).map(|s| s.project_id), Err(Error::ProjectNotFound));
}

#[test]
fn deposits_and_verification_leave_config_unchanged() {
    let (mut client, _admin, creator, oracle) = setup_roles();
    let token = addr(10);
    let h = [4u8; 32];
    let before = client
        .register_project(NOW, &creator, &vec![token], 1000, h, NOW + 100)
        .unwrap();
    client.deposit(NOW, before.id, &addr(30), &token, 10, true).unwrap();
    client.verify_and_release(&oracle, before.id, h).unwrap();
    let after = client.get_project(before.id).unwrap();
    assert_eq!(after.id, before.id);
    assert_eq!(after.creator, before.creator);
    assert_eq!(after.accepted_tokens, before.accepted_tokens);
    assert_eq!(after.goal, before.goal);
    assert_eq!(after.proof_hash, before.proof_hash);
    assert_eq!(after.deadline, before.deadline);
    assert_eq!(after.status, ProjectStatus::Completed);
}

#[test]
fn accepts_token_checks_membership() {
    let (mut client, _admin, creator, _) = setup_roles();
    let p = client
        .register_project(NOW, &creator, &vec![addr(10), addr(12)], 1000, [1u8; 32], NOW + 100)
        .unwrap();
    assert!(p.accepts_token(&addr(12)));
    assert!(!p.accepts_token(&addr(11)));
}
