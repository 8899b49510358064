//! The contract's persisted state, held in memory: the pause flag, the
//! super-admin pointer, the project counter, one role record per address,
//! one config and one state record per project id, and one balance record
//! per (project id, token) pair. Its view is the abstract `LedgerState`.
use vstd::prelude::*;
use crate::Error;
use crate::rbac::Role;
use crate::model::{LedgerState, ProjectEntry, role_of, balance_of, with_balance, zero_balances};
use crate::types::{
    Address, ProjectConfig, ProjectState, Project, TokenBalance, ProjectBalances, addresses,
    copy_addresses,
};

verus! {

/// The role record of one address.
#[derive(Clone, Copy, Debug, PartialEq, Eq)]
pub struct RoleEntry {
    pub address: Address,
    pub role: Role,
}

/// The two records of one project.
#[derive(Clone, Debug, PartialEq, Eq)]
pub struct ProjectRecord {
    pub config: ProjectConfig,
    pub state: ProjectState,
}

/// The balance record of one (project id, token) pair.
#[derive(Clone, Copy, Debug, PartialEq, Eq)]
pub struct BalanceEntry {
    pub project_id: u64,
    pub token: Address,
    pub balance: i128,
}

/// All state the protocol keeps between invocations.
pub struct Storage {
    paused: bool,
    super_admin: Option<Address>,
    project_count: u64,
    roles: Vec<RoleEntry>,
    projects: Vec<ProjectRecord>,
    balances: Vec<BalanceEntry>,
}

// ── Keyed tables ─────────────────────────────────────────────────────

/// The map a table of records gives: each record's key to its value.
pub closed spec fn keyed<E, K, V>(entries: Seq<E>, key: spec_fn(E) -> K, val: spec_fn(E) -> V) -> Map<
    K,
    V,
> {
    Map::new(
        |k: K| exists|i: int| 0 <= i < entries.len() && key(entries[i]) == k,
        |k: K| val(entries[choose|i: int| 0 <= i < entries.len() && key(entries[i]) == k]),
    )
}

/// No key has two records.
pub closed spec fn unique_keys<E, K>(entries: Seq<E>, key: spec_fn(E) -> K) -> bool {
    forall|i: int, j: int|
        0 <= i < entries.len() && 0 <= j < entries.len() && key(#[trigger] entries[i]) == key(
            #[trigger] entries[j],
        ) ==> i == j
}

proof fn lemma_lookup<E, K, V>(entries: Seq<E>, key: spec_fn(E) -> K, val: spec_fn(E) -> V, k: K)
    requires
        unique_keys(entries, key),
    ensures
        keyed(entries, key, val).contains_key(k) <==> exists|j: int|
            0 <= j < entries.len() && key(entries[j]) == k,
        forall|j: int|
            0 <= j < entries.len() && key(entries[j]) == k ==> keyed(entries, key, val)[k] == val(
                entries[j],
            ),
{
    if exists|j: int| 0 <= j < entries.len() && key(entries[j]) == k {
        let c = choose|j: int| 0 <= j < entries.len() && key(entries[j]) == k;
        assert forall|j: int| 0 <= j < entries.len() && key(entries[j]) == k implies keyed(
            entries,
            key,
            val,
        )[k] == val(entries[j]) by {
            assert(key(entries[j]) == key(entries[c]));
        }
    }
}

proof fn lemma_update<E, K, V>(
    entries: Seq<E>,
    key: spec_fn(E) -> K,
    val: spec_fn(E) -> V,
    i: int,
    e: E,
)
    requires
        unique_keys(entries, key),
        0 <= i < entries.len(),
        key(entries[i]) == key(e),
    ensures
        unique_keys(entries.update(i, e), key),
        keyed(entries.update(i, e), key, val) == keyed(entries, key, val).insert(key(e), val(e)),
{
    let n = entries.update(i, e);
    let m = keyed(entries, key, val).insert(key(e), val(e));
    assert forall|a: int, b: int|
        0 <= a < n.len() && 0 <= b < n.len() && key(#[trigger] n[a]) == key(#[trigger] n[b])
        implies a == b by {
        assert(key(entries[a]) == key(entries[b]));
    }
    assert forall|k: K| #[trigger] keyed(n, key, val).contains_key(k) == m.contains_key(k) by {
        lemma_lookup(entries, key, val, k);
        lemma_lookup(n, key, val, k);
        if exists|j: int| 0 <= j < entries.len() && key(entries[j]) == k {
            let j = choose|j: int| 0 <= j < entries.len() && key(entries[j]) == k;
            assert(key(n[j]) == k);
        }
        if exists|j: int| 0 <= j < n.len() && key(n[j]) == k {
            let j = choose|j: int| 0 <= j < n.len() && key(n[j]) == k;
            assert(key(entries[j]) == k);
        }
        assert(key(n[i]) == key(e));
    }
    assert forall|k: K| #[trigger] keyed(n, key, val).contains_key(k) implies keyed(n, key, val)[k]
        == m[k] by {
        lemma_lookup(entries, key, val, k);
        lemma_lookup(n, key, val, k);
        let j = choose|j: int| 0 <= j < n.len() && key(n[j]) == k;
        if k != key(e) {
            assert(j != i);
            assert(entries[j] == n[j]);
        } else {
            assert(key(n[i]) == k);
        }
    }
    assert(keyed(n, key, val) =~= m);
}

proof fn lemma_push<E, K, V>(entries: Seq<E>, key: spec_fn(E) -> K, val: spec_fn(E) -> V, e: E)
    requires
        unique_keys(entries, key),
        forall|j: int| 0 <= j < entries.len() ==> key(entries[j]) != key(e),
    ensures
        unique_keys(entries.push(e), key),
        keyed(entries.push(e), key, val) == keyed(entries, key, val).insert(key(e), val(e)),
{
    let n = entries.push(e);
    let l = entries.len() as int;
    let m = keyed(entries, key, val).insert(key(e), val(e));
    assert forall|a: int, b: int|
        0 <= a < n.len() && 0 <= b < n.len() && key(#[trigger] n[a]) == key(#[trigger] n[b])
        implies a == b by {
        if a < l && b < l {
            assert(key(entries[a]) == key(entries[b]));
        } else if a < l {
            assert(key(entries[a]) != key(e));
        } else if b < l {
            assert(key(entries[b]) != key(e));
        }
    }
    assert forall|k: K| #[trigger] keyed(n, key, val).contains_key(k) == m.contains_key(k) by {
        lemma_lookup(entries, key, val, k);
        lemma_lookup(n, key, val, k);
        if exists|j: int| 0 <= j < entries.len() && key(entries[j]) == k {
            let j = choose|j: int| 0 <= j < entries.len() && key(entries[j]) == k;
            assert(key(n[j]) == k);
        }
        if exists|j: int| 0 <= j < n.len() && key(n[j]) == k {
            let j = choose|j: int| 0 <= j < n.len() && key(n[j]) == k;
            if j < l {
                assert(key(entries[j]) == k);
            }
        }
        assert(key(n[l]) == key(e));
    }
    assert forall|k: K| #[trigger] keyed(n, key, val).contains_key(k) implies keyed(n, key, val)[k]
        == m[k] by {
        lemma_lookup(entries, key, val, k);
        lemma_lookup(n, key, val, k);
        let j = choose|j: int| 0 <= j < n.len() && key(n[j]) == k;
        if k != key(e) {
            assert(j != l);
            assert(entries[j] == n[j]);
        } else {
            assert(key(n[l]) == k);
        }
    }
    assert(keyed(n, key, val) =~= m);
}

proof fn lemma_remove<E, K, V>(entries: Seq<E>, key: spec_fn(E) -> K, val: spec_fn(E) -> V, i: int)
    requires
        unique_keys(entries, key),
        0 <= i < entries.len(),
    ensures
        unique_keys(entries.remove(i), key),
        keyed(entries.remove(i), key, val) == keyed(entries, key, val).remove(key(entries[i])),
{
    let n = entries.remove(i);
    let a0 = key(entries[i]);
    let m = keyed(entries, key, val).remove(a0);
    assert forall|a: int, b: int|
        0 <= a < n.len() && 0 <= b < n.len() && key(#[trigger] n[a]) == key(#[trigger] n[b])
        implies a == b by {
        let oa = if a < i {
            a
        } else {
            a + 1
        };
        let ob = if b < i {
            b
        } else {
            b + 1
        };
        assert(n[a] == entries[oa]);
        assert(n[b] == entries[ob]);
        assert(key(entries[oa]) == key(entries[ob]));
    }
    assert forall|k: K| #[trigger] keyed(n, key, val).contains_key(k) == m.contains_key(k) by {
        lemma_lookup(entries, key, val, k);
        lemma_lookup(n, key, val, k);
        if k != a0 && exists|j: int| 0 <= j < entries.len() && key(entries[j]) == k {
            let j = choose|j: int| 0 <= j < entries.len() && key(entries[j]) == k;
            if j < i {
                assert(key(n[j]) == k);
            } else {
                assert(j != i);
                assert(key(n[j - 1]) == k);
            }
        }
        if exists|j: int| 0 <= j < n.len() && key(n[j]) == k {
            let j = choose|j: int| 0 <= j < n.len() && key(n[j]) == k;
            let oj = if j < i {
                j
            } else {
                j + 1
            };
            assert(key(entries[oj]) == k);
            assert(oj != i);
            assert(k != a0);
        }
    }
    assert forall|k: K| #[trigger] keyed(n, key, val).contains_key(k) implies keyed(n, key, val)[k]
        == m[k] by {
        lemma_lookup(entries, key, val, k);
        lemma_lookup(n, key, val, k);
        let j = choose|j: int| 0 <= j < n.len() && key(n[j]) == k;
        let oj = if j < i {
            j
        } else {
            j + 1
        };
        assert(entries[oj] == n[j]);
    }
    assert(keyed(n, key, val) =~= m);
}

// ── The three tables ─────────────────────────────────────────────────

pub closed spec fn role_key() -> spec_fn(RoleEntry) -> Seq<u8> {
    |e: RoleEntry| e.address@
}

pub closed spec fn role_val() -> spec_fn(RoleEntry) -> Role {
    |e: RoleEntry| e.role
}

pub closed spec fn project_key() -> spec_fn(ProjectRecord) -> u64 {
    |r: ProjectRecord| r.config.id
}

pub closed spec fn project_val() -> spec_fn(ProjectRecord) -> ProjectEntry {
    |r: ProjectRecord| record_entry(r)
}

pub closed spec fn balance_key() -> spec_fn(BalanceEntry) -> (u64, Seq<u8>) {
    |e: BalanceEntry| (e.project_id, e.token@)
}

pub closed spec fn balance_val() -> spec_fn(BalanceEntry) -> i128 {
    |e: BalanceEntry| e.balance
}

pub closed spec fn record_entry(r: ProjectRecord) -> ProjectEntry {
    ProjectEntry {
        id: r.config.id,
        creator: r.config.creator@,
        tokens: addresses(r.config.accepted_tokens@),
        goal: r.config.goal,
        proof_hash: r.config.proof_hash@,
        deadline: r.config.deadline,
        status: r.state.status,
        donation_count: r.state.donation_count,
    }
}

/// Whether `c` holds the immutable fields of `e`.
pub open spec fn config_describes(c: ProjectConfig, e: ProjectEntry) -> bool {
    &&& c.id == e.id
    &&& c.creator@ == e.creator
    &&& addresses(c.accepted_tokens@) == e.tokens
    &&& c.goal == e.goal
    &&& c.proof_hash@ == e.proof_hash
    &&& c.deadline == e.deadline
}

/// Whether `p` is the caller-facing view of `e`.
pub open spec fn project_describes(p: Project, e: ProjectEntry) -> bool {
    &&& p.id == e.id
    &&& p.creator@ == e.creator
    &&& addresses(p.accepted_tokens@) == e.tokens
    &&& p.goal == e.goal
    &&& p.proof_hash@ == e.proof_hash
    &&& p.deadline == e.deadline
    &&& p.status == e.status
    &&& p.donation_count == e.donation_count
}

/// The entry that saving `p` files under `p.id`.
pub open spec fn saved_entry(p: Project) -> ProjectEntry {
    ProjectEntry {
        id: p.id,
        creator: p.creator@,
        tokens: addresses(p.accepted_tokens@),
        goal: p.goal,
        proof_hash: p.proof_hash@,
        deadline: p.deadline,
        status: p.status,
        donation_count: p.donation_count,
    }
}

/// Adding the next token of a list to the zero balances of the ones before it.
proof fn lemma_zero_step(b: Map<(u64, Seq<u8>), i128>, id: u64, ts: Seq<Seq<u8>>, j: int)
    requires
        0 <= j < ts.len(),
    ensures
        zero_balances(b, id, ts.take(j + 1)) == zero_balances(b, id, ts.take(j)).insert(
            (id, ts[j]),
            0,
        ),
{
    let a = ts.take(j);
    let c = ts.take(j + 1);
    assert forall|x: Seq<u8>| c.contains(x) <==> (a.contains(x) || x == ts[j]) by {
        if a.contains(x) {
            let w = choose|w: int| 0 <= w < a.len() && a[w] == x;
            assert(c[w] == x);
        }
        if x == ts[j] {
            assert(c[j] == x);
        }
        if c.contains(x) {
            let w = choose|w: int| 0 <= w < c.len() && c[w] == x;
            if w < j {
                assert(a[w] == x);
            }
        }
    }
    assert(zero_balances(b, id, c) =~= zero_balances(b, id, a).insert((id, ts[j]), 0));
}

impl View for Storage {
    type V = LedgerState;

    closed spec fn view(&self) -> LedgerState {
        LedgerState {
            paused: self.paused,
            super_admin: match self.super_admin {
                Some(a) => Some(a@),
                None => None,
            },
            roles: keyed(self.roles@, role_key(), role_val()),
            project_count: self.project_count,
            projects: keyed(self.projects@, project_key(), project_val()),
            balances: keyed(self.balances@, balance_key(), balance_val()),
        }
    }
}

impl Storage {
    /// The representation invariant: no key has two records.
    pub closed spec fn wf(&self) -> bool {
        &&& unique_keys(self.roles@, role_key())
        &&& unique_keys(self.projects@, project_key())
        &&& unique_keys(self.balances@, balance_key())
    }

    /// Storage of a freshly deployed contract.
    pub fn new() -> (r: Storage)
        ensures
            r.wf(),
            r@ == crate::model::empty_ledger(),
    {
        let r = Storage {
            paused: false,
            super_admin: None,
            project_count: 0,
            roles: Vec::new(),
            projects: Vec::new(),
            balances: Vec::new(),
        };
        assert(r@.roles =~= Map::empty());
        assert(r@.projects =~= Map::empty());
        assert(r@.balances =~= Map::empty());
        r
    }

    // ── Pause flag ───────────────────────────────────────────────────

    /// Whether the protocol is paused.
    pub fn is_paused(&self) -> (r: bool)
        ensures
            r == self@.paused,
    {
        self.paused
    }

    /// Set the pause flag.
    pub fn set_paused(&mut self, paused: bool)
        requires
            old(self).wf(),
        ensures
            final(self).wf(),
            final(self)@ == (LedgerState { paused, ..old(self)@ }),
    {
        self.paused = paused;
    }

    // ── Roles ────────────────────────────────────────────────────────

    fn find_role(&self, a: &Address) -> (r: Option<usize>)
        ensures
            match r {
                Some(i) => i < self.roles@.len() && self.roles@[i as int].address@ == a@,
                None => forall|i: int| 0 <= i < self.roles@.len() ==> self.roles@[i].address@ != a@,
            },
    {
        let mut i: usize = 0;
        while i < self.roles.len()
            invariant
                i <= self.roles@.len(),
                forall|j: int| 0 <= j < i ==> self.roles@[j].address@ != a@,
            decreases self.roles@.len() - i,
        {
            if self.roles[i].address.same(a) {
                return Some(i);
            }
            i = i + 1;
        }
        None
    }

    /// The role recorded for `a`, if any.
    pub fn get_role(&self, a: &Address) -> (r: Option<Role>)
        requires
            self.wf(),
        ensures
            r == role_of(self@, a@),
    {
        proof {
            lemma_lookup(self.roles@, role_key(), role_val(), a@);
        }
        match self.find_role(a) {
            Some(i) => Some(self.roles[i].role),
            None => None,
        }
    }

    /// Record `role` for `a`, replacing any role it held.
    pub fn store_role(&mut self, a: &Address, role: Role)
        requires
            old(self).wf(),
        ensures
            final(self).wf(),
            final(self)@ == (LedgerState { roles: old(self)@.roles.insert(a@, role), ..old(self)@ }),
    {
        let e = RoleEntry { address: *a, role };
        match self.find_role(a) {
            Some(i) => {
                proof {
                    lemma_update(self.roles@, role_key(), role_val(), i as int, e);
                }
                self.roles.set(i, e);
            },
            None => {
                proof {
                    lemma_push(self.roles@, role_key(), role_val(), e);
                }
                self.roles.push(e);
            },
        }
    }

    /// Remove any role recorded for `a`.
    pub fn clear_role(&mut self, a: &Address)
        requires
            old(self).wf(),
        ensures
            final(self).wf(),
            final(self)@ == (LedgerState { roles: old(self)@.roles.remove(a@), ..old(self)@ }),
    {
        match self.find_role(a) {
            Some(i) => {
                proof {
                    lemma_remove(self.roles@, role_key(), role_val(), i as int);
                }
                self.roles.remove(i);
            },
            None => {
                proof {
                    lemma_lookup(self.roles@, role_key(), role_val(), a@);
                    assert(self@.roles.remove(a@) =~= self@.roles);
                }
            },
        }
    }

    /// The super-admin pointer.
    pub fn get_super_admin(&self) -> (r: Option<Address>)
        ensures
            match r {
                Some(x) => self@.super_admin == Some(x@),
                None => self@.super_admin is None,
            },
    {
        self.super_admin
    }

    /// Point the super-admin pointer at `a`.
    pub fn set_super_admin(&mut self, a: &Address)
        requires
            old(self).wf(),
        ensures
            final(self).wf(),
            final(self)@ == (LedgerState { super_admin: Some(a@), ..old(self)@ }),
    {
        self.super_admin = Some(*a);
    }

    // ── Project counter ──────────────────────────────────────────────

    /// The id the next registered project gets.
    pub fn project_count(&self) -> (r: u64)
        ensures
            r == self@.project_count,
    {
        self.project_count
    }

    /// Take the next project id and advance the counter; fails rather than
    /// wrapping when the counter is exhausted.
    pub fn get_and_increment_project_id(&mut self) -> (r: Result<u64, Error>)
        requires
            old(self).wf(),
        ensures
            final(self).wf(),
            match r {
                Ok(id) => id == old(self)@.project_count && old(self)@.project_count < u64::MAX
                    && final(self)@ == (LedgerState {
                    project_count: (old(self)@.project_count + 1) as u64,
                    ..old(self)@
                }),
                Err(e) => e == Error::Overflow && old(self)@.project_count == u64::MAX
                    && final(self)@ == old(self)@,
            },
    {
        if self.project_count == u64::MAX {
            return Err(Error::Overflow);
        }
        let id = self.project_count;
        self.project_count = id + 1;
        Ok(id)
    }
}

} // verus!

verus! {

impl ProjectConfig {
    /// A copy of this configuration.
    pub fn duplicate(&self) -> (r: ProjectConfig)
        ensures
            r.id == self.id,
            r.creator == self.creator,
            r.accepted_tokens@ == self.accepted_tokens@,
            r.goal == self.goal,
            r.proof_hash == self.proof_hash,
            r.deadline == self.deadline,
    {
        ProjectConfig {
            id: self.id,
            creator: self.creator,
            accepted_tokens: copy_addresses(&self.accepted_tokens),
            goal: self.goal,
            proof_hash: self.proof_hash,
            deadline: self.deadline,
        }
    }
}

impl Storage {
    fn find_project(&self, id: u64) -> (r: Option<usize>)
        requires
            self.wf(),
        ensures
            match r {
                Some(i) => i < self.projects@.len() && self.projects@[i as int].config.id == id
                    && self@.projects.contains_key(id) && self@.projects[id] == record_entry(
                    self.projects@[i as int],
                ),
                None => !self@.projects.contains_key(id) && forall|i: int|
                    0 <= i < self.projects@.len() ==> self.projects@[i].config.id != id,
            },
    {
        proof {
            lemma_lookup(self.projects@, project_key(), project_val(), id);
        }
        let mut i: usize = 0;
        while i < self.projects.len()
            invariant
                self.wf(),
                i <= self.projects@.len(),
                forall|j: int| 0 <= j < i ==> self.projects@[j].config.id != id,
            decreases self.projects@.len() - i,
        {
            if self.projects[i].config.id == id {
                proof {
                    lemma_lookup(self.projects@, project_key(), project_val(), id);
                    assert(project_key()(self.projects@[i as int]) == id);
                }
                return Some(i);
            }
            i = i + 1;
        }
        None
    }

    fn find_balance(&self, id: u64, token: &Address) -> (r: Option<usize>)
        requires
            self.wf(),
        ensures
            match r {
                Some(i) => i < self.balances@.len() && self.balances@[i as int].project_id == id
                    && self.balances@[i as int].token@ == token@ && self@.balances.contains_key(
                    (id, token@),
                ) && self@.balances[(id, token@)] == self.balances@[i as int].balance,
                None => !self@.balances.contains_key((id, token@)) && forall|i: int|
                    0 <= i < self.balances@.len() ==> balance_key()(self.balances@[i]) != (
                    id,
                    token@,
                ),
            },
    {
        proof {
            lemma_lookup(self.balances@, balance_key(), balance_val(), (id, token@));
        }
        let mut i: usize = 0;
        while i < self.balances.len()
            invariant
                self.wf(),
                i <= self.balances@.len(),
                forall|j: int| 0 <= j < i ==> balance_key()(self.balances@[j]) != (id, token@),
            decreases self.balances@.len() - i,
        {
            if self.balances[i].project_id == id && self.balances[i].token.same(token) {
                proof {
                    lemma_lookup(self.balances@, balance_key(), balance_val(), (id, token@));
                    assert(balance_key()(self.balances@[i as int]) == (id, token@));
                }
                return Some(i);
            }
            i = i + 1;
        }
        None
    }

    /// Save the config, the initial state and a zero balance per accepted
    /// token of a project whose id is not stored yet.
    pub fn save_project(&mut self, project: &Project)
        requires
            old(self).wf(),
            !old(self)@.projects.contains_key(project.id),
        ensures
            final(self).wf(),
            final(self)@ == (LedgerState {
                projects: old(self)@.projects.insert(project.id, saved_entry(*project)),
                balances: zero_balances(
                    old(self)@.balances,
                    project.id,
                    addresses(project.accepted_tokens@),
                ),
                ..old(self)@
            }),
    {
        let rec = ProjectRecord {
            config: ProjectConfig {
                id: project.id,
                creator: project.creator,
                accepted_tokens: copy_addresses(&project.accepted_tokens),
                goal: project.goal,
                proof_hash: project.proof_hash,
                deadline: project.deadline,
            },
            state: ProjectState { status: project.status, donation_count: project.donation_count },
        };
        proof {
            lemma_lookup(self.projects@, project_key(), project_val(), project.id);
            lemma_push(self.projects@, project_key(), project_val(), rec);
            assert(record_entry(rec) =~= saved_entry(*project));
        }
        self.projects.push(rec);
        let ghost ts = addresses(project.accepted_tokens@);
        let ghost mid = self@;
        assert(zero_balances(mid.balances, project.id, ts.take(0)) =~= mid.balances);
        let mut j: usize = 0;
        while j < project.accepted_tokens.len()
            invariant
                self.wf(),
                j <= project.accepted_tokens@.len(),
                ts == addresses(project.accepted_tokens@),
                ts.len() == project.accepted_tokens@.len(),
                self@ == (LedgerState {
                    balances: zero_balances(mid.balances, project.id, ts.take(j as int)),
                    ..mid
                }),
            decreases project.accepted_tokens@.len() - j,
        {
            proof {
                lemma_zero_step(mid.balances, project.id, ts, j as int);
            }
            self.set_token_balance(project.id, &project.accepted_tokens[j], 0);
            j = j + 1;
        }
        assert(ts.take(j as int) =~= ts);
    }

    /// Whether project `id` exists.
    pub fn project_exists(&self, id: u64) -> (r: bool)
        requires
            self.wf(),
        ensures
            r == self@.projects.contains_key(id),
    {
        self.find_project(id).is_some()
    }

    /// The immutable configuration of project `id`, if it exists.
    pub fn maybe_load_project_config(&self, id: u64) -> (r: Option<ProjectConfig>)
        requires
            self.wf(),
        ensures
            match r {
                Some(c) => self@.projects.contains_key(id) && config_describes(c, self@.projects[id]),
                None => !self@.projects.contains_key(id),
            },
    {
        match self.find_project(id) {
            Some(i) => Some(self.projects[i].config.duplicate()),
            None => None,
        }
    }

    /// The immutable configuration of project `id`.
    pub fn load_project_config(&self, id: u64) -> (r: Result<ProjectConfig, Error>)
        requires
            self.wf(),
        ensures
            match r {
                Ok(c) => self@.projects.contains_key(id) && config_describes(c, self@.projects[id]),
                Err(e) => !self@.projects.contains_key(id) && e == Error::ProjectNotFound,
            },
    {
        match self.maybe_load_project_config(id) {
            Some(c) => Ok(c),
            None => Err(Error::ProjectNotFound),
        }
    }

    /// The mutable state of project `id`, if it exists.
    pub fn maybe_load_project_state(&self, id: u64) -> (r: Option<ProjectState>)
        requires
            self.wf(),
        ensures
            match r {
                Some(st) => self@.projects.contains_key(id) && st.status == self@.projects[id].status
                    && st.donation_count == self@.projects[id].donation_count,
                None => !self@.projects.contains_key(id),
            },
    {
        match self.find_project(id) {
            Some(i) => Some(self.projects[i].state),
            None => None,
        }
    }

    /// The mutable state of project `id`.
    pub fn load_project_state(&self, id: u64) -> (r: Result<ProjectState, Error>)
        requires
            self.wf(),
        ensures
            match r {
                Ok(st) => self@.projects.contains_key(id) && st.status == self@.projects[id].status
                    && st.donation_count == self@.projects[id].donation_count,
                Err(e) => !self@.projects.contains_key(id) && e == Error::ProjectNotFound,
            },
    {
        match self.maybe_load_project_state(id) {
            Some(st) => Ok(st),
            None => Err(Error::ProjectNotFound),
        }
    }

    /// Both records of project `id`.
    pub fn load_project_pair(&self, id: u64) -> (r: Result<(ProjectConfig, ProjectState), Error>)
        requires
            self.wf(),
        ensures
            match r {
                Ok((c, st)) => self@.projects.contains_key(id) && config_describes(
                    c,
                    self@.projects[id],
                ) && st.status == self@.projects[id].status && st.donation_count
                    == self@.projects[id].donation_count,
                Err(e) => !self@.projects.contains_key(id) && e == Error::ProjectNotFound,
            },
    {
        let c = self.load_project_config(id)?;
        let st = self.load_project_state(id)?;
        Ok((c, st))
    }

    /// Project `id`, its config joined with its state, if it exists.
    pub fn maybe_load_project(&self, id: u64) -> (r: Option<Project>)
        requires
            self.wf(),
        ensures
            match r {
                Some(p) => self@.projects.contains_key(id) && project_describes(p, self@.projects[id]),
                None => !self@.projects.contains_key(id),
            },
    {
        match self.find_project(id) {
            Some(i) => {
                let rec = &self.projects[i];
                Some(
                    Project {
                        id: rec.config.id,
                        creator: rec.config.creator,
                        accepted_tokens: copy_addresses(&rec.config.accepted_tokens),
                        goal: rec.config.goal,
                        proof_hash: rec.config.proof_hash,
                        deadline: rec.config.deadline,
                        status: rec.state.status,
                        donation_count: rec.state.donation_count,
                    },
                )
            },
            None => None,
        }
    }

    /// Project `id`, its config joined with its state.
    pub fn load_project(&self, id: u64) -> (r: Result<Project, Error>)
        requires
            self.wf(),
        ensures
            match r {
                Ok(p) => self@.projects.contains_key(id) && project_describes(p, self@.projects[id]),
                Err(e) => !self@.projects.contains_key(id) && e == Error::ProjectNotFound,
            },
    {
        match self.maybe_load_project(id) {
            Some(p) => Ok(p),
            None => Err(Error::ProjectNotFound),
        }
    }

    /// Overwrite the mutable state of project `id`; its config is left as it is.
    pub fn save_project_state(&mut self, id: u64, state: ProjectState) -> (r: Result<(), Error>)
        requires
            old(self).wf(),
        ensures
            final(self).wf(),
            match r {
                Ok(()) => old(self)@.projects.contains_key(id) && final(self)@ == (LedgerState {
                    projects: old(self)@.projects.insert(
                        id,
                        ProjectEntry {
                            status: state.status,
                            donation_count: state.donation_count,
                            ..old(self)@.projects[id]
                        },
                    ),
                    ..old(self)@
                }),
                Err(e) => !old(self)@.projects.contains_key(id) && e == Error::ProjectNotFound
                    && final(self)@ == old(self)@,
            },
    {
        match self.find_project(id) {
            Some(i) => {
                let config = self.projects[i].config.duplicate();
                let rec = ProjectRecord { config, state };
                proof {
                    lemma_update(self.projects@, project_key(), project_val(), i as int, rec);
                    assert(record_entry(rec) =~= ProjectEntry {
                        status: state.status,
                        donation_count: state.donation_count,
                        ..old(self)@.projects[id]
                    });
                }
                self.projects.set(i, rec);
                Ok(())
            },
            None => Err(Error::ProjectNotFound),
        }
    }

    // ── Balances ─────────────────────────────────────────────────────

    /// The balance of `token` held for project `id`; 0 where none was written.
    pub fn get_token_balance(&self, id: u64, token: &Address) -> (r: i128)
        requires
            self.wf(),
        ensures
            r == balance_of(self@, id, token@),
    {
        match self.find_balance(id, token) {
            Some(i) => self.balances[i].balance,
            None => 0,
        }
    }

    /// Set the balance of `token` for project `id`.
    pub fn set_token_balance(&mut self, id: u64, token: &Address, balance: i128)
        requires
            old(self).wf(),
        ensures
            final(self).wf(),
            final(self)@ == with_balance(old(self)@, id, token@, balance),
    {
        let e = BalanceEntry { project_id: id, token: *token, balance };
        match self.find_balance(id, token) {
            Some(i) => {
                proof {
                    lemma_update(self.balances@, balance_key(), balance_val(), i as int, e);
                }
                self.balances.set(i, e);
            },
            None => {
                proof {
                    lemma_push(self.balances@, balance_key(), balance_val(), e);
                }
                self.balances.push(e);
            },
        }
    }

    /// Add `amount` to the balance of `token` for project `id`, failing
    /// rather than overflowing; returns the new balance.
    pub fn add_to_token_balance(&mut self, id: u64, token: &Address, amount: i128) -> (r: Result<
        i128,
        Error,
    >)
        requires
            old(self).wf(),
        ensures
            final(self).wf(),
            ({
                let sum = balance_of(old(self)@, id, token@) + amount;
                if i128::MIN <= sum <= i128::MAX {
                    r == Ok::<i128, Error>(sum as i128) && final(self)@ == with_balance(
                        old(self)@,
                        id,
                        token@,
                        sum as i128,
                    )
                } else {
                    r == Err::<i128, Error>(Error::Overflow) && final(self)@ == old(self)@
                }
            }),
    {
        let current = self.get_token_balance(id, token);
        match current.checked_add(amount) {
            Some(b) => {
                self.set_token_balance(id, token, b);
                Ok(b)
            },
            None => Err(Error::Overflow),
        }
    }

    /// Zero the balance of `token` for project `id`; returns what it held.
    pub fn drain_token_balance(&mut self, id: u64, token: &Address) -> (r: i128)
        requires
            old(self).wf(),
        ensures
            final(self).wf(),
            r == balance_of(old(self)@, id, token@),
            final(self)@ == (if r > 0 {
                with_balance(old(self)@, id, token@, 0)
            } else {
                old(self)@
            }),
    {
        let balance = self.get_token_balance(id, token);
        if balance > 0 {
            self.set_token_balance(id, token, 0);
        }
        balance
    }

    /// The balance of each token `project` accepts, in its order.
    pub fn get_all_balances(&self, project: &Project) -> (r: ProjectBalances)
        requires
            self.wf(),
        ensures
            r.project_id == project.id,
            r.balances@.len() == project.accepted_tokens@.len(),
            forall|j: int|
                0 <= j < r.balances@.len() ==> r.balances@[j].token == project.accepted_tokens@[j]
                    && r.balances@[j].balance == balance_of(
                    self@,
                    project.id,
                    project.accepted_tokens@[j]@,
                ),
    {
        let mut balances: Vec<TokenBalance> = Vec::new();
        let mut j: usize = 0;
        while j < project.accepted_tokens.len()
            invariant
                self.wf(),
                j <= project.accepted_tokens@.len(),
                balances@.len() == j,
                forall|k: int|
                    0 <= k < j ==> balances@[k].token == project.accepted_tokens@[k]
                        && balances@[k].balance == balance_of(
                        self@,
                        project.id,
                        project.accepted_tokens@[k]@,
                    ),
            decreases project.accepted_tokens@.len() - j,
        {
            let token = project.accepted_tokens[j];
            let balance = self.get_token_balance(project.id, &token);
            balances.push(TokenBalance { token, balance });
            j = j + 1;
        }
        ProjectBalances { project_id: project.id, balances }
    }
}

} // verus!
