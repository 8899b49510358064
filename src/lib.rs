//! Proof-of-impact funding protocol: role-based access control, a project
//! registry with a config/state split, a per-token balance ledger and the
//! lifecycle entry points, all as a verified state machine over an
//! in-memory image of the contract's storage.
use vstd::prelude::*;

pub mod types;
pub mod rbac;
pub mod model;
pub mod storage;
pub mod events;
pub mod laws;

pub use rbac::Role;
pub use types::{Address, Project, ProjectStatus, ProjectState, ProjectBalances, TokenBalance};
use events::{ProjectFunded, ProjectVerified};
use model::{
    LedgerState, follows, empty_ledger, init_spec, grant_spec, revoke_spec, transfer_spec,
    set_paused_spec, set_oracle_spec, register_spec, deposit_error, deposit_spec, verify_spec,
    role_of, balance_of, new_entry, well_formed, MAX_GOAL, MAX_DEADLINE_HORIZON, MAX_TOKENS,
};
use storage::{Storage, project_describes, saved_entry};
use types::{addresses, all_distinct, copy_addresses, find_token, hashes_equal};

verus! {

/// Every way in which an invocation of the protocol can fail.
#[derive(Clone, Copy, Debug, PartialEq, Eq, Structural)]
pub enum Error {
    ProjectNotFound,
    MilestoneNotFound,
    MilestoneAlreadyReleased,
    InsufficientBalance,
    InvalidMilestones,
    NotAuthorized,
    InvalidGoal,
    AlreadyInitialized,
    RoleNotFound,
    TooManyTokens,
    InvalidAmount,
    DuplicateToken,
    InvalidDeadline,
    ProjectExpired,
    ProjectNotActive,
    VerificationFailed,
    EmptyAcceptedTokens,
    Overflow,
    ProtocolPaused,
    GoalMismatch,
}

/// The contract's error table: each error's number, from 1 to 20.
pub open spec fn error_number(e: Error) -> u32 {
    match e {
        Error::ProjectNotFound => 1,
        Error::MilestoneNotFound => 2,
        Error::MilestoneAlreadyReleased => 3,
        Error::InsufficientBalance => 4,
        Error::InvalidMilestones => 5,
        Error::NotAuthorized => 6,
        Error::InvalidGoal => 7,
        Error::AlreadyInitialized => 8,
        Error::RoleNotFound => 9,
        Error::TooManyTokens => 10,
        Error::InvalidAmount => 11,
        Error::DuplicateToken => 12,
        Error::InvalidDeadline => 13,
        Error::ProjectExpired => 14,
        Error::ProjectNotActive => 15,
        Error::VerificationFailed => 16,
        Error::EmptyAcceptedTokens => 17,
        Error::Overflow => 18,
        Error::ProtocolPaused => 19,
        Error::GoalMismatch => 20,
    }
}

impl Error {
    /// The error's number in the contract's error table.
    pub fn code(&self) -> (r: u32)
        ensures
            r == error_number(*self),
    {
        match self {
            Error::ProjectNotFound => 1,
            Error::MilestoneNotFound => 2,
            Error::MilestoneAlreadyReleased => 3,
            Error::InsufficientBalance => 4,
            Error::InvalidMilestones => 5,
            Error::NotAuthorized => 6,
            Error::InvalidGoal => 7,
            Error::AlreadyInitialized => 8,
            Error::RoleNotFound => 9,
            Error::TooManyTokens => 10,
            Error::InvalidAmount => 11,
            Error::DuplicateToken => 12,
            Error::InvalidDeadline => 13,
            Error::ProjectExpired => 14,
            Error::ProjectNotActive => 15,
            Error::VerificationFailed => 16,
            Error::EmptyAcceptedTokens => 17,
            Error::Overflow => 18,
            Error::ProtocolPaused => 19,
            Error::GoalMismatch => 20,
        }
    }
}

/// Whether some address occurs twice in `tokens`.
pub fn has_duplicate(tokens: &Vec<Address>) -> (r: bool)
    ensures
        r == !all_distinct(addresses(tokens@)),
{
    let ghost ts = addresses(tokens@);
    let n = tokens.len();
    let mut i: usize = 0;
    while i < n
        invariant
            n == tokens@.len(),
            ts == addresses(tokens@),
            ts.len() == n,
            i <= n,
            forall|a: int, b: int| 0 <= a < i && a < b < n ==> ts[a] != ts[b],
        decreases n - i,
    {
        let mut j: usize = i + 1;
        while j < n
            invariant
                n == tokens@.len(),
                ts == addresses(tokens@),
                ts.len() == n,
                i < n,
                i + 1 <= j <= n,
                forall|a: int, b: int| 0 <= a < i && a < b < n ==> ts[a] != ts[b],
                forall|b: int| i < b < j ==> ts[i as int] != ts[b],
            decreases n - j,
        {
            if tokens[i].same(&tokens[j]) {
                assert(ts[i as int] == ts[j as int]);
                return true;
            }
            j = j + 1;
        }
        i = i + 1;
    }
    assert forall|a: int, b: int| 0 <= a < ts.len() && 0 <= b < ts.len() && a != b implies ts[a]
        != ts[b] by {
        if b < a {
            assert(ts[b] != ts[a]);
        }
    }
    false
}

/// The protocol contract: its storage and its public operations. Each
/// operation follows the matching transition of `model` exactly; on failure
/// nothing changes. The caller's signature is checked by the host before an
/// operation runs, and the host supplies the ledger time as `now`.
pub struct PifpProtocol {
    storage: Storage,
}

impl View for PifpProtocol {
    type V = LedgerState;

    closed spec fn view(&self) -> LedgerState {
        self.storage@
    }
}

impl PifpProtocol {
    /// The representation invariant, which every operation keeps.
    pub closed spec fn wf(&self) -> bool {
        self.storage.wf() && well_formed(self.storage@)
    }

    /// A freshly deployed contract.
    pub fn new() -> (r: PifpProtocol)
        ensures
            r.wf(),
            r@ == empty_ledger(),
    {
        PifpProtocol { storage: Storage::new() }
    }

    /// Set the first SuperAdmin; fails with `AlreadyInitialized` afterwards.
    pub fn init(&mut self, super_admin: &Address) -> (r: Result<(), Error>)
        requires
            old(self).wf(),
        ensures
            final(self).wf(),
            follows(r, old(self)@, final(self)@, init_spec(old(self)@, super_admin@)),
    {
        rbac::init_super_admin(&mut self.storage, super_admin)
    }
}

impl PifpProtocol {
    /// Give `role` to `target`, replacing any role it held.
    pub fn grant_role(&mut self, caller: &Address, target: &Address, role: Role) -> (r: Result<
        (),
        Error,
    >)
        requires
            old(self).wf(),
        ensures
            final(self).wf(),
            follows(r, old(self)@, final(self)@, grant_spec(old(self)@, caller@, target@, role)),
    {
        rbac::grant_role(&mut self.storage, caller, target, role)
    }

    /// Remove the role of `target`; returns whether it held one.
    pub fn revoke_role(&mut self, caller: &Address, target: &Address) -> (r: Result<bool, Error>)
        requires
            old(self).wf(),
        ensures
            final(self).wf(),
            follows(r, old(self)@, final(self)@, revoke_spec(old(self)@, caller@, target@)),
            r matches Ok(held) ==> held == old(self)@.roles.contains_key(target@),
    {
        rbac::revoke_role(&mut self.storage, caller, target)
    }

    /// Hand the SuperAdmin role from `current_super_admin` to `new_super_admin`.
    pub fn transfer_super_admin(
        &mut self,
        current_super_admin: &Address,
        new_super_admin: &Address,
    ) -> (r: Result<(), Error>)
        requires
            old(self).wf(),
        ensures
            final(self).wf(),
            follows(
                r,
                old(self)@,
                final(self)@,
                transfer_spec(old(self)@, current_super_admin@, new_super_admin@),
            ),
    {
        rbac::transfer_super_admin(&mut self.storage, current_super_admin, new_super_admin)
    }

    /// The role held by `address`, if any.
    pub fn role_of(&self, address: &Address) -> (r: Option<Role>)
        requires
            self.wf(),
        ensures
            r == role_of(self@, address@),
    {
        rbac::role_of(&self.storage, address)
    }

    /// Whether `address` holds `role`.
    pub fn has_role(&self, address: &Address, role: Role) -> (r: bool)
        requires
            self.wf(),
        ensures
            r == (role_of(self@, address@) == Some(role)),
    {
        rbac::has_role(&self.storage, address, role)
    }

    /// Halt registrations, deposits and releases. SuperAdmin or Admin only.
    pub fn pause(&mut self, caller: &Address) -> (r: Result<(), Error>)
        requires
            old(self).wf(),
        ensures
            final(self).wf(),
            follows(r, old(self)@, final(self)@, set_paused_spec(old(self)@, caller@, true)),
    {
        rbac::require_admin_or_above(&self.storage, caller)?;
        self.storage.set_paused(true);
        Ok(())
    }

    /// Resume operation. SuperAdmin or Admin only.
    pub fn unpause(&mut self, caller: &Address) -> (r: Result<(), Error>)
        requires
            old(self).wf(),
        ensures
            final(self).wf(),
            follows(r, old(self)@, final(self)@, set_paused_spec(old(self)@, caller@, false)),
    {
        rbac::require_admin_or_above(&self.storage, caller)?;
        self.storage.set_paused(false);
        Ok(())
    }

    /// Whether the protocol is paused.
    pub fn is_paused(&self) -> (r: bool)
        ensures
            r == self@.paused,
    {
        self.storage.is_paused()
    }

    fn require_not_paused(&self) -> (r: Result<(), Error>)
        ensures
            r is Ok <==> !self@.paused,
            r is Err ==> r == Err::<(), Error>(Error::ProtocolPaused),
    {
        if self.storage.is_paused() {
            Err(Error::ProtocolPaused)
        } else {
            Ok(())
        }
    }

    /// Register a project at ledger time `now`. The creator must be a
    /// SuperAdmin, Admin or ProjectManager; the tokens must be 1 to 10
    /// distinct addresses; the goal must lie in (0, 10^30]; the deadline in
    /// (now, now + 5 years]. The new project gets the next id, status
    /// Funding, and a zero balance per token.
    pub fn register_project(
        &mut self,
        now: u64,
        creator: &Address,
        accepted_tokens: &Vec<Address>,
        goal: i128,
        proof_hash: [u8; 32],
        deadline: u64,
    ) -> (r: Result<Project, Error>)
        requires
            old(self).wf(),
        ensures
            final(self).wf(),
            follows(
                r,
                old(self)@,
                final(self)@,
                register_spec(
                    old(self)@,
                    now,
                    creator@,
                    addresses(accepted_tokens@),
                    goal,
                    proof_hash@,
                    deadline,
                ),
            ),
            r matches Ok(p) ==> p.id == old(self)@.project_count && project_describes(
                p,
                final(self)@.projects[p.id],
            ),
    {
        self.require_not_paused()?;
        rbac::require_can_register(&self.storage, creator)?;
        let n = accepted_tokens.len();
        if n == 0 {
            return Err(Error::EmptyAcceptedTokens);
        }
        if n > MAX_TOKENS {
            return Err(Error::TooManyTokens);
        }
        if has_duplicate(accepted_tokens) {
            return Err(Error::DuplicateToken);
        }
        if goal <= 0 || goal > MAX_GOAL {
            return Err(Error::InvalidGoal);
        }
        if deadline <= now || deadline - now > MAX_DEADLINE_HORIZON {
            return Err(Error::InvalidDeadline);
        }
        let id = self.storage.get_and_increment_project_id()?;
        let project = Project {
            id,
            creator: *creator,
            accepted_tokens: copy_addresses(accepted_tokens),
            goal,
            proof_hash,
            deadline,
            status: ProjectStatus::Funding,
            donation_count: 0,
        };
        self.storage.save_project(&project);
        assert(saved_entry(project) =~= new_entry(
            id,
            creator@,
            addresses(accepted_tokens@),
            goal,
            proof_hash@,
            deadline,
        ));
        Ok(project)
    }

    /// Project `id`, or `ProjectNotFound`.
    pub fn get_project(&self, id: u64) -> (r: Result<Project, Error>)
        requires
            self.wf(),
        ensures
            match r {
                Ok(p) => self@.projects.contains_key(id) && project_describes(p, self@.projects[id]),
                Err(e) => !self@.projects.contains_key(id) && e == Error::ProjectNotFound,
            },
    {
        self.storage.load_project(id)
    }

    /// The balance of `token` held for project `project_id`; 0 where none.
    pub fn get_balance(&self, project_id: u64, token: &Address) -> (r: i128)
        requires
            self.wf(),
        ensures
            r == balance_of(self@, project_id, token@),
    {
        self.storage.get_token_balance(project_id, token)
    }

    /// The balance of each accepted token of project `project_id`, in order.
    pub fn get_balances(&self, project_id: u64) -> (r: Result<ProjectBalances, Error>)
        requires
            self.wf(),
        ensures
            match r {
                Ok(b) => {
                    let tokens = self@.projects[project_id].tokens;
                    &&& self@.projects.contains_key(project_id)
                    &&& b.project_id == project_id
                    &&& b.balances@.len() == tokens.len()
                    &&& forall|j: int|
                        0 <= j < tokens.len() ==> b.balances@[j].token@ == tokens[j]
                            && b.balances@[j].balance == balance_of(self@, project_id, tokens[j])
                },
                Err(e) => !self@.projects.contains_key(project_id) && e == Error::ProjectNotFound,
            },
    {
        let project = self.storage.load_project(project_id)?;
        let b = self.storage.get_all_balances(&project);
        assert(addresses(project.accepted_tokens@).len() == project.accepted_tokens@.len());
        Ok(b)
    }

    /// Check a deposit of `amount` of `token` into project `project_id` at
    /// ledger time `now`, before any transfer is made.
    pub fn check_deposit(&self, now: u64, project_id: u64, token: &Address, amount: i128) -> (r:
        Result<(), Error>)
        requires
            self.wf(),
        ensures
            match deposit_error(self@, now, project_id, token@, amount) {
                Some(e) => r == Err::<(), Error>(e),
                None => r is Ok,
            },
    {
        self.require_not_paused()?;
        if amount <= 0 {
            return Err(Error::InvalidAmount);
        }
        let (config, state) = self.storage.load_project_pair(project_id)?;
        if now >= config.deadline {
            return Err(Error::ProjectExpired);
        }
        match state.status {
            ProjectStatus::Funding | ProjectStatus::Active => {},
            _ => {
                return Err(Error::ProjectNotActive);
            },
        }
        if find_token(&config.accepted_tokens, token).is_none() {
            return Err(Error::NotAuthorized);
        }
        let current = self.storage.get_token_balance(project_id, token);
        if current.checked_add(amount).is_none() {
            return Err(Error::Overflow);
        }
        Ok(())
    }

    /// Credit a deposit once the transfer of `amount` of `token` from
    /// `donator` into custody has been made; `transferred` says whether it
    /// went through. Nothing is credited without it.
    pub fn deposit(
        &mut self,
        now: u64,
        project_id: u64,
        donator: &Address,
        token: &Address,
        amount: i128,
        transferred: bool,
    ) -> (r: Result<ProjectFunded, Error>)
        requires
            old(self).wf(),
        ensures
            final(self).wf(),
            follows(
                r,
                old(self)@,
                final(self)@,
                deposit_spec(old(self)@, now, project_id, token@, amount, transferred),
            ),
            r matches Ok(ev) ==> ev.project_id == project_id && ev.donator == *donator && ev.amount
                == amount,
    {
        self.check_deposit(now, project_id, token, amount)?;
        if !transferred {
            return Err(Error::InsufficientBalance);
        }
        match self.storage.add_to_token_balance(project_id, token, amount) {
            Ok(_) => Ok(ProjectFunded { project_id, donator: *donator, amount }),
            Err(e) => Err(e),
        }
    }

    /// Give `oracle` the Oracle role. SuperAdmin or Admin only.
    pub fn set_oracle(&mut self, caller: &Address, oracle: &Address) -> (r: Result<(), Error>)
        requires
            old(self).wf(),
        ensures
            final(self).wf(),
            follows(r, old(self)@, final(self)@, set_oracle_spec(old(self)@, caller@, oracle@)),
    {
        rbac::require_admin_or_above(&self.storage, caller)?;
        rbac::grant_role(&mut self.storage, caller, oracle, Role::Oracle)
    }

    /// An Oracle submits the proof hash of project `project_id`; if it
    /// matches the commitment, the project becomes Completed.
    pub fn verify_and_release(
        &mut self,
        oracle: &Address,
        project_id: u64,
        submitted_proof_hash: [u8; 32],
    ) -> (r: Result<ProjectVerified, Error>)
        requires
            old(self).wf(),
        ensures
            final(self).wf(),
            follows(
                r,
                old(self)@,
                final(self)@,
                verify_spec(old(self)@, oracle@, project_id, submitted_proof_hash@),
            ),
            r matches Ok(ev) ==> ev.project_id == project_id && ev.oracle == *oracle
                && ev.proof_hash == submitted_proof_hash,
    {
        self.require_not_paused()?;
        rbac::require_oracle(&self.storage, oracle)?;
        let (config, state) = self.storage.load_project_pair(project_id)?;
        match state.status {
            ProjectStatus::Funding | ProjectStatus::Active => {},
            ProjectStatus::Completed => {
                return Err(Error::MilestoneAlreadyReleased);
            },
            ProjectStatus::Expired => {
                return Err(Error::ProjectNotFound);
            },
        }
        if !hashes_equal(&submitted_proof_hash, &config.proof_hash) {
            return Err(Error::VerificationFailed);
        }
        let done = ProjectState { status: ProjectStatus::Completed, ..state };
        match self.storage.save_project_state(project_id, done) {
            Ok(()) => Ok(
                ProjectVerified { project_id, oracle: *oracle, proof_hash: submitted_proof_hash },
            ),
            Err(e) => Err(e),
        }
    }
}

} // verus!
