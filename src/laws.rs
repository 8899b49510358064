//! Properties of the protocol that hold over every operation or across
//! several calls, proved over the transitions of `model`.
use vstd::prelude::*;
use crate::Error;
use crate::rbac::Role;
use crate::model::{
    LedgerState, empty_ledger, same_config, well_formed, ids_dense, goals_in_range, inv, role_of,
    balance_of, zero_balances, init_spec, grant_spec, revoke_spec, transfer_spec, set_paused_spec,
    set_oracle_spec, register_spec, deposit_spec, verify_spec, MAX_GOAL, MAX_DEADLINE_HORIZON,
};
use crate::types::ProjectStatus;

verus! {

/// One invocation of a state-changing operation.
pub enum Action {
    Init { admin: Seq<u8> },
    Grant { caller: Seq<u8>, target: Seq<u8>, role: Role },
    Revoke { caller: Seq<u8>, target: Seq<u8> },
    Transfer { current: Seq<u8>, new: Seq<u8> },
    SetPaused { caller: Seq<u8>, paused: bool },
    SetOracle { caller: Seq<u8>, oracle: Seq<u8> },
    Register {
        now: u64,
        creator: Seq<u8>,
        tokens: Seq<Seq<u8>>,
        goal: i128,
        proof_hash: Seq<u8>,
        deadline: u64,
    },
    Deposit { now: u64, id: u64, token: Seq<u8>, amount: i128, transferred: bool },
    Verify { oracle: Seq<u8>, id: u64, hash: Seq<u8> },
}

/// The transition an action makes.
pub open spec fn step(s: LedgerState, a: Action) -> Result<LedgerState, Error> {
    match a {
        Action::Init { admin } => init_spec(s, admin),
        Action::Grant { caller, target, role } => grant_spec(s, caller, target, role),
        Action::Revoke { caller, target } => revoke_spec(s, caller, target),
        Action::Transfer { current, new } => transfer_spec(s, current, new),
        Action::SetPaused { caller, paused } => set_paused_spec(s, caller, paused),
        Action::SetOracle { caller, oracle } => set_oracle_spec(s, caller, oracle),
        Action::Register { now, creator, tokens, goal, proof_hash, deadline } => register_spec(
            s,
            now,
            creator,
            tokens,
            goal,
            proof_hash,
            deadline,
        ),
        Action::Deposit { now, id, token, amount, transferred } => deposit_spec(
            s,
            now,
            id,
            token,
            amount,
            transferred,
        ),
        Action::Verify { oracle, id, hash } => verify_spec(s, oracle, id, hash),
    }
}

/// The state after a sequence of invocations; a failed one changes nothing.
pub open spec fn run(s: LedgerState, actions: Seq<Action>) -> LedgerState
    decreases actions.len(),
{
    if actions.len() == 0 {
        s
    } else {
        let before = run(s, actions.drop_last());
        match step(before, actions.last()) {
            Ok(after) => after,
            Err(_) => before,
        }
    }
}

/// A registered project keeps its immutable fields through every operation,
/// deposits and verification included, and no project is ever removed.
pub proof fn config_immutable(s: LedgerState, a: Action)
    requires
        well_formed(s),
        step(s, a) is Ok,
    ensures
        forall|id: u64| #[trigger]
            s.projects.contains_key(id) ==> step(s, a)->Ok_0.projects.contains_key(id)
                && same_config(s.projects[id], step(s, a)->Ok_0.projects[id]),
{
}

/// Only registration adds a project, under the counter's value, which it
/// then advances by one: starting from a counter of 0, the k-th project
/// registered has id k, and the ids in use are exactly those below the
/// counter.
pub proof fn ids_sequential(s: LedgerState, a: Action)
    requires
        well_formed(s),
        ids_dense(s),
        step(s, a) is Ok,
    ensures
        well_formed(step(s, a)->Ok_0),
        ids_dense(step(s, a)->Ok_0),
        a is Register ==> step(s, a)->Ok_0.project_count == s.project_count + 1
            && step(s, a)->Ok_0.projects.contains_key(s.project_count) && step(
            s,
            a,
        )->Ok_0.projects[s.project_count].id == s.project_count,
        !(a is Register) ==> step(s, a)->Ok_0.project_count == s.project_count && step(
            s,
            a,
        )->Ok_0.projects.dom() == s.projects.dom(),
{
    let t = step(s, a)->Ok_0;
    if !(a is Register) {
        assert(t.projects.dom() =~= s.projects.dom());
    }
}

/// Every registered goal stays in (0, 10^30] whatever operation runs.
pub proof fn goal_bounds_kept(s: LedgerState, a: Action)
    requires
        goals_in_range(s),
        step(s, a) is Ok,
    ensures
        goals_in_range(step(s, a)->Ok_0),
{
}

/// A registration that succeeds at time `now` files, under the counter's
/// value, a Funding project whose deadline lies in (now, now + 5 years] and
/// whose goal lies in (0, 10^30], with a zero balance for each accepted token.
pub proof fn registered_deadline_in_window(
    s: LedgerState,
    now: u64,
    creator: Seq<u8>,
    tokens: Seq<Seq<u8>>,
    goal: i128,
    proof_hash: Seq<u8>,
    deadline: u64,
)
    requires
        register_spec(s, now, creator, tokens, goal, proof_hash, deadline) is Ok,
    ensures
        ({
            let t = register_spec(s, now, creator, tokens, goal, proof_hash, deadline)->Ok_0;
            let p = t.projects[s.project_count];
            &&& now < p.deadline <= now + MAX_DEADLINE_HORIZON
            &&& 0 < p.goal <= MAX_GOAL
            &&& p.status == ProjectStatus::Funding
            &&& forall|tok: Seq<u8>| tokens.contains(tok) ==> #[trigger] balance_of(t, s.project_count, tok) == 0
        }),
{
}

/// A deposit whose transfer went through adds exactly `amount` to the
/// balance of `token` and leaves every other balance as it was; one whose
/// transfer failed is refused.
pub proof fn deposit_additive(s: LedgerState, now: u64, id: u64, token: Seq<u8>, amount: i128)
    requires
        deposit_spec(s, now, id, token, amount, true) is Ok,
    ensures
        balance_of(deposit_spec(s, now, id, token, amount, true)->Ok_0, id, token) == balance_of(
            s,
            id,
            token,
        ) + amount,
        forall|id2: u64, t2: Seq<u8>|
            !(id2 == id && t2 == token) ==> #[trigger] balance_of(
                deposit_spec(s, now, id, token, amount, true)->Ok_0,
                id2,
                t2,
            ) == balance_of(s, id2, t2),
        deposit_spec(s, now, id, token, amount, false) == Err::<LedgerState, Error>(
            Error::InsufficientBalance,
        ),
{
}

/// Verification moves an open project to Completed, and only once: any later
/// `verify_and_release` of that project fails, whoever submits whatever hash.
pub proof fn verify_is_one_way(
    s: LedgerState,
    oracle: Seq<u8>,
    id: u64,
    hash: Seq<u8>,
    oracle2: Seq<u8>,
    hash2: Seq<u8>,
)
    requires
        verify_spec(s, oracle, id, hash) is Ok,
    ensures
        s.projects[id].status.is_open(),
        verify_spec(s, oracle, id, hash)->Ok_0.projects[id].status == ProjectStatus::Completed,
        verify_spec(verify_spec(s, oracle, id, hash)->Ok_0, oracle2, id, hash2) is Err,
{
}

/// No operation moves a project out of Completed or Expired, and the only
/// status change ever made is an open project becoming Completed by
/// verification.
pub proof fn status_monotone(s: LedgerState, a: Action)
    requires
        well_formed(s),
        step(s, a) is Ok,
    ensures
        forall|id: u64|
            s.projects.contains_key(id) && (#[trigger] s.projects[id]).status.is_terminal()
                ==> step(s, a)->Ok_0.projects[id].status == s.projects[id].status,
        forall|id: u64|
            s.projects.contains_key(id) && step(s, a)->Ok_0.projects[id].status != (
            #[trigger] s.projects[id]).status ==> a is Verify && s.projects[id].status.is_open()
                && step(s, a)->Ok_0.projects[id].status == ProjectStatus::Completed,
{
}

/// Roles map each address to at most one role (`role_of` is an `Option`); a
/// successful grant replaces the target's role by the granted one and
/// touches no other address.
pub proof fn grant_replaces_role(s: LedgerState, caller: Seq<u8>, target: Seq<u8>, role: Role)
    requires
        grant_spec(s, caller, target, role) is Ok,
    ensures
        role_of(grant_spec(s, caller, target, role)->Ok_0, target) == Some(role),
        forall|a: Seq<u8>|
            a != target ==> #[trigger] role_of(grant_spec(s, caller, target, role)->Ok_0, a)
                == role_of(s, a),
{
}

/// Every operation keeps the invariant.
pub proof fn step_keeps_inv(s: LedgerState, a: Action)
    requires
        inv(s),
        step(s, a) is Ok,
    ensures
        inv(step(s, a)->Ok_0),
{
    let t = step(s, a)->Ok_0;
    ids_sequential(s, a);
    goal_bounds_kept(s, a);
    assert forall|k: (u64, Seq<u8>)| #[trigger] t.balances.contains_key(k) implies t.balances[k]
        >= 0 by {
        if let Action::Register { now, creator, tokens, goal, proof_hash, deadline } = a {
            assert(t.balances == zero_balances(s.balances, s.project_count, tokens));
        }
        if let Action::Deposit { now, id, token, amount, transferred } = a {
            if k != (id, token) {
                assert(s.balances.contains_key(k));
            }
        }
    }
}

/// Every state reached from a fresh deployment satisfies the invariant: in
/// particular each project's goal lies in (0, 10^30] and project k has id k.
pub proof fn reachable_states_satisfy_inv(actions: Seq<Action>)
    ensures
        inv(run(empty_ledger(), actions)),
    decreases actions.len(),
{
    if actions.len() == 0 {
        assert(inv(empty_ledger()));
    } else {
        reachable_states_satisfy_inv(actions.drop_last());
        let before = run(empty_ledger(), actions.drop_last());
        if step(before, actions.last()) is Ok {
            step_keeps_inv(before, actions.last());
        }
    }
}

} // verus!
