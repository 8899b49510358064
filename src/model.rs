//! The protocol as a mathematical state machine: the abstract ledger state,
//! its invariant, and one transition per public operation. The executable
//! entry points are proved to follow these transitions exactly.
use vstd::prelude::*;
use crate::Error;
use crate::rbac::Role;
use crate::types::{all_distinct, ProjectStatus};

verus! {

/// Largest accepted funding goal: 10^30.
pub const MAX_GOAL: i128 = 1_000_000_000_000_000_000_000_000_000_000;

/// Largest distance from now to a deadline: five years of seconds.
pub const MAX_DEADLINE_HORIZON: u64 = 157_680_000;

/// Most tokens a project may accept.
pub const MAX_TOKENS: usize = 10;

/// One project: its immutable configuration and its mutable state.
pub struct ProjectEntry {
    pub id: u64,
    pub creator: Seq<u8>,
    pub tokens: Seq<Seq<u8>>,
    pub goal: i128,
    pub proof_hash: Seq<u8>,
    pub deadline: u64,
    pub status: ProjectStatus,
    pub donation_count: u32,
}

/// Everything the protocol keeps between invocations.
pub struct LedgerState {
    pub paused: bool,
    pub super_admin: Option<Seq<u8>>,
    pub roles: Map<Seq<u8>, Role>,
    /// The id the next registered project gets.
    pub project_count: u64,
    /// The projects, by id.
    pub projects: Map<u64, ProjectEntry>,
    /// The balance held for each (project id, token) pair written so far.
    pub balances: Map<(u64, Seq<u8>), i128>,
}

/// `r` and `after` are what the transition `expected` gives from `before`:
/// on success the state it gives, on failure its error and no change.
pub open spec fn follows<T>(
    r: Result<T, Error>,
    before: LedgerState,
    after: LedgerState,
    expected: Result<LedgerState, Error>,
) -> bool {
    match r {
        Ok(_) => expected is Ok && after == expected->Ok_0,
        Err(e) => expected == Err::<LedgerState, Error>(e) && after == before,
    }
}

/// The state before `init`.
pub open spec fn empty_ledger() -> LedgerState {
    LedgerState {
        paused: false,
        super_admin: None,
        roles: Map::empty(),
        project_count: 0,
        projects: Map::empty(),
        balances: Map::empty(),
    }
}

/// Whether two entries agree on every immutable field.
pub open spec fn same_config(a: ProjectEntry, b: ProjectEntry) -> bool {
    &&& a.id == b.id
    &&& a.creator == b.creator
    &&& a.tokens == b.tokens
    &&& a.goal == b.goal
    &&& a.proof_hash == b.proof_hash
    &&& a.deadline == b.deadline
}

/// Each stored project is filed under its own id, below the counter.
pub open spec fn well_formed(s: LedgerState) -> bool {
    forall|id: u64| #[trigger]
        s.projects.contains_key(id) ==> id < s.project_count && s.projects[id].id == id
}

/// Ids are dense: exactly the ids below the counter are taken.
pub open spec fn ids_dense(s: LedgerState) -> bool {
    forall|id: u64| #[trigger] s.projects.contains_key(id) <==> id < s.project_count
}

/// Every registered goal lies in (0, 10^30].
pub open spec fn goals_in_range(s: LedgerState) -> bool {
    forall|id: u64| #[trigger]
        s.projects.contains_key(id) ==> 0 < s.projects[id].goal <= MAX_GOAL
}

/// Every project accepts 1 to 10 distinct tokens.
pub open spec fn tokens_valid(s: LedgerState) -> bool {
    forall|id: u64| #[trigger]
        s.projects.contains_key(id) ==> {
            let p = s.projects[id];
            &&& 1 <= p.tokens.len() <= MAX_TOKENS
            &&& all_distinct(p.tokens)
        }
}

/// No balance is negative.
pub open spec fn balances_nonnegative(s: LedgerState) -> bool {
    forall|k: (u64, Seq<u8>)| #[trigger] s.balances.contains_key(k) ==> s.balances[k] >= 0
}

/// The super-admin pointer, once set, names an address holding SuperAdmin.
pub open spec fn super_admin_holds_role(s: LedgerState) -> bool {
    s.super_admin is Some ==> s.roles.contains_key(s.super_admin->0) && s.roles[s.super_admin->0]
        == Role::SuperAdmin
}

/// The invariant of every reachable state.
pub open spec fn inv(s: LedgerState) -> bool {
    &&& well_formed(s)
    &&& ids_dense(s)
    &&& goals_in_range(s)
    &&& tokens_valid(s)
    &&& balances_nonnegative(s)
    &&& super_admin_holds_role(s)
}

// ── Roles ────────────────────────────────────────────────────────────

pub open spec fn role_of(s: LedgerState, a: Seq<u8>) -> Option<Role> {
    if s.roles.contains_key(a) {
        Some(s.roles[a])
    } else {
        None
    }
}

pub open spec fn is_admin_or_above(s: LedgerState, a: Seq<u8>) -> bool {
    role_of(s, a) == Some(Role::SuperAdmin) || role_of(s, a) == Some(Role::Admin)
}

pub open spec fn can_register(s: LedgerState, a: Seq<u8>) -> bool {
    is_admin_or_above(s, a) || role_of(s, a) == Some(Role::ProjectManager)
}

pub open spec fn init_spec(s: LedgerState, admin: Seq<u8>) -> Result<LedgerState, Error> {
    if s.super_admin is Some {
        Err(Error::AlreadyInitialized)
    } else {
        Ok(LedgerState { super_admin: Some(admin), roles: s.roles.insert(admin, Role::SuperAdmin), ..s })
    }
}

/// The error `grant_role` fails with, if any.
pub open spec fn grant_error(s: LedgerState, caller: Seq<u8>, target: Seq<u8>, role: Role) -> Option<
    Error,
> {
    if role == Role::SuperAdmin && role_of(s, caller) != Some(Role::SuperAdmin) {
        Some(Error::NotAuthorized)
    } else if role != Role::SuperAdmin && !is_admin_or_above(s, caller) {
        Some(Error::NotAuthorized)
    } else if role_of(s, target) == Some(Role::SuperAdmin) && role != Role::SuperAdmin {
        Some(Error::NotAuthorized)
    } else {
        None
    }
}

pub open spec fn grant_spec(s: LedgerState, caller: Seq<u8>, target: Seq<u8>, role: Role) -> Result<
    LedgerState,
    Error,
> {
    match grant_error(s, caller, target, role) {
        Some(e) => Err(e),
        None => Ok(LedgerState { roles: s.roles.insert(target, role), ..s }),
    }
}

pub open spec fn revoke_spec(s: LedgerState, caller: Seq<u8>, target: Seq<u8>) -> Result<
    LedgerState,
    Error,
> {
    if !is_admin_or_above(s, caller) {
        Err(Error::NotAuthorized)
    } else if s.super_admin == Some(target) {
        Err(Error::NotAuthorized)
    } else {
        Ok(LedgerState { roles: s.roles.remove(target), ..s })
    }
}

pub open spec fn transfer_spec(s: LedgerState, current: Seq<u8>, new: Seq<u8>) -> Result<
    LedgerState,
    Error,
> {
    if role_of(s, current) != Some(Role::SuperAdmin) {
        Err(Error::NotAuthorized)
    } else {
        Ok(
            LedgerState {
                super_admin: Some(new),
                roles: s.roles.remove(current).insert(new, Role::SuperAdmin),
                ..s
            },
        )
    }
}

/// `pause` (with `paused` true) and `unpause` (with `paused` false).
pub open spec fn set_paused_spec(s: LedgerState, caller: Seq<u8>, paused: bool) -> Result<
    LedgerState,
    Error,
> {
    if !is_admin_or_above(s, caller) {
        Err(Error::NotAuthorized)
    } else {
        Ok(LedgerState { paused, ..s })
    }
}

pub open spec fn set_oracle_spec(s: LedgerState, caller: Seq<u8>, oracle: Seq<u8>) -> Result<
    LedgerState,
    Error,
> {
    if !is_admin_or_above(s, caller) {
        Err(Error::NotAuthorized)
    } else {
        grant_spec(s, caller, oracle, Role::Oracle)
    }
}

// ── Projects ─────────────────────────────────────────────────────────

/// The project that registration appends.
pub open spec fn new_entry(
    id: u64,
    creator: Seq<u8>,
    tokens: Seq<Seq<u8>>,
    goal: i128,
    proof_hash: Seq<u8>,
    deadline: u64,
) -> ProjectEntry {
    ProjectEntry {
        id,
        creator,
        tokens,
        goal,
        proof_hash,
        deadline,
        status: ProjectStatus::Funding,
        donation_count: 0,
    }
}

/// The error `register_project` fails with, if any.
pub open spec fn register_error(
    s: LedgerState,
    now: u64,
    creator: Seq<u8>,
    tokens: Seq<Seq<u8>>,
    goal: i128,
    deadline: u64,
) -> Option<Error> {
    if s.paused {
        Some(Error::ProtocolPaused)
    } else if !can_register(s, creator) {
        Some(Error::NotAuthorized)
    } else if tokens.len() == 0 {
        Some(Error::EmptyAcceptedTokens)
    } else if tokens.len() > MAX_TOKENS {
        Some(Error::TooManyTokens)
    } else if !all_distinct(tokens) {
        Some(Error::DuplicateToken)
    } else if goal <= 0 || goal > MAX_GOAL {
        Some(Error::InvalidGoal)
    } else if deadline <= now || deadline > now + MAX_DEADLINE_HORIZON {
        Some(Error::InvalidDeadline)
    } else if s.project_count == u64::MAX {
        Some(Error::Overflow)
    } else {
        None
    }
}

/// `balances` with a zero balance for each of `tokens` in project `id`.
pub open spec fn zero_balances(
    balances: Map<(u64, Seq<u8>), i128>,
    id: u64,
    tokens: Seq<Seq<u8>>,
) -> Map<(u64, Seq<u8>), i128> {
    Map::new(
        |k: (u64, Seq<u8>)| balances.contains_key(k) || (k.0 == id && tokens.contains(k.1)),
        |k: (u64, Seq<u8>)|
            if k.0 == id && tokens.contains(k.1) {
                0i128
            } else {
                balances[k]
            },
    )
}

pub open spec fn register_spec(
    s: LedgerState,
    now: u64,
    creator: Seq<u8>,
    tokens: Seq<Seq<u8>>,
    goal: i128,
    proof_hash: Seq<u8>,
    deadline: u64,
) -> Result<LedgerState, Error> {
    match register_error(s, now, creator, tokens, goal, deadline) {
        Some(e) => Err(e),
        None => Ok(
            LedgerState {
                project_count: (s.project_count + 1) as u64,
                projects: s.projects.insert(
                    s.project_count,
                    new_entry(s.project_count, creator, tokens, goal, proof_hash, deadline),
                ),
                balances: zero_balances(s.balances, s.project_count, tokens),
                ..s
            },
        ),
    }
}

/// The balance held for `token` in project `id`; 0 where none was written.
pub open spec fn balance_of(s: LedgerState, id: u64, token: Seq<u8>) -> i128 {
    if s.balances.contains_key((id, token)) {
        s.balances[(id, token)]
    } else {
        0
    }
}

/// `s` with the balance of `token` in project `id` set to `b`.
pub open spec fn with_balance(s: LedgerState, id: u64, token: Seq<u8>, b: i128) -> LedgerState {
    LedgerState { balances: s.balances.insert((id, token), b), ..s }
}

/// `s` with `amount` added to the balance of `token` in project `id`.
pub open spec fn credit(s: LedgerState, id: u64, token: Seq<u8>, amount: i128) -> LedgerState {
    with_balance(s, id, token, (balance_of(s, id, token) + amount) as i128)
}

/// The error a deposit fails with before any transfer is made, if any.
pub open spec fn deposit_error(
    s: LedgerState,
    now: u64,
    id: u64,
    token: Seq<u8>,
    amount: i128,
) -> Option<Error> {
    if s.paused {
        Some(Error::ProtocolPaused)
    } else if amount <= 0 {
        Some(Error::InvalidAmount)
    } else if !s.projects.contains_key(id) {
        Some(Error::ProjectNotFound)
    } else if now >= s.projects[id].deadline {
        Some(Error::ProjectExpired)
    } else if !s.projects[id].status.is_open() {
        Some(Error::ProjectNotActive)
    } else if !s.projects[id].tokens.contains(token) {
        Some(Error::NotAuthorized)
    } else if balance_of(s, id, token) + amount > i128::MAX {
        Some(Error::Overflow)
    } else {
        None
    }
}

/// A deposit, given whether the transfer into custody went through.
pub open spec fn deposit_spec(
    s: LedgerState,
    now: u64,
    id: u64,
    token: Seq<u8>,
    amount: i128,
    transferred: bool,
) -> Result<LedgerState, Error> {
    match deposit_error(s, now, id, token, amount) {
        Some(e) => Err(e),
        None => if transferred {
            Ok(credit(s, id, token, amount))
        } else {
            Err(Error::InsufficientBalance)
        },
    }
}

/// The error `verify_and_release` fails with, if any.
pub open spec fn verify_error(s: LedgerState, oracle: Seq<u8>, id: u64, hash: Seq<u8>) -> Option<
    Error,
> {
    if s.paused {
        Some(Error::ProtocolPaused)
    } else if role_of(s, oracle) != Some(Role::Oracle) {
        Some(Error::NotAuthorized)
    } else if !s.projects.contains_key(id) {
        Some(Error::ProjectNotFound)
    } else if s.projects[id].status == ProjectStatus::Completed {
        Some(Error::MilestoneAlreadyReleased)
    } else if s.projects[id].status == ProjectStatus::Expired {
        Some(Error::ProjectNotFound)
    } else if hash != s.projects[id].proof_hash {
        Some(Error::VerificationFailed)
    } else {
        None
    }
}

pub open spec fn verify_spec(s: LedgerState, oracle: Seq<u8>, id: u64, hash: Seq<u8>) -> Result<
    LedgerState,
    Error,
> {
    match verify_error(s, oracle, id, hash) {
        Some(e) => Err(e),
        None => Ok(
            LedgerState {
                projects: s.projects.insert(
                    id,
                    ProjectEntry { status: ProjectStatus::Completed, ..s.projects[id] },
                ),
                ..s
            },
        ),
    }
}

} // verus!
