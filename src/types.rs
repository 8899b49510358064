//! Shared data: addresses, commitment hashes, the project lifecycle status,
//! and the immutable / mutable halves of a project.
use vstd::prelude::*;

verus! {

/// An account or contract address, held as the 56 bytes of its strkey text.
#[derive(Clone, Copy, Debug, PartialEq, Eq, Hash)]
pub struct Address {
    pub strkey: [u8; 56],
}

impl View for Address {
    type V = Seq<u8>;

    open spec fn view(&self) -> Seq<u8> {
        self.strkey@
    }
}

/// Byte-wise equality of two byte strings.
pub fn bytes_equal(a: &[u8], b: &[u8]) -> (r: bool)
    ensures
        r == (a@ == b@),
{
    if a.len() != b.len() {
        return false;
    }
    let mut i: usize = 0;
    while i < a.len()
        invariant
            a@.len() == b@.len(),
            i <= a@.len(),
            a@.subrange(0, i as int) == b@.subrange(0, i as int),
        decreases a@.len() - i,
    {
        if a[i] != b[i] {
            assert(a@[i as int] != b@[i as int]);
            return false;
        }
        assert(a@.subrange(0, i + 1) =~= a@.subrange(0, i as int).push(a@[i as int]));
        assert(b@.subrange(0, i + 1) =~= b@.subrange(0, i as int).push(b@[i as int]));
        i = i + 1;
    }
    assert(a@ =~= a@.subrange(0, i as int));
    assert(b@ =~= b@.subrange(0, i as int));
    true
}

impl Address {
    pub fn new(strkey: [u8; 56]) -> (r: Address)
        ensures
            r@ == strkey@,
    {
        Address { strkey }
    }

    /// Whether two addresses are the same.
    pub fn same(&self, other: &Address) -> (r: bool)
        ensures
            r == (self@ == other@),
    {
        bytes_equal(self.strkey.as_slice(), other.strkey.as_slice())
    }
}

/// Whether a submitted hash matches a stored commitment.
pub fn hashes_equal(a: &[u8; 32], b: &[u8; 32]) -> (r: bool)
    ensures
        r == (a@ == b@),
{
    bytes_equal(a.as_slice(), b.as_slice())
}

} // verus!

verus! {

/// Current lifecycle state of a funding project.
#[derive(Clone, Copy, Debug, PartialEq, Eq, Structural)]
pub enum ProjectStatus {
    /// Accepting donations, goal not yet reached.
    Funding,
    /// Goal reached; work in progress, not yet verified.
    Active,
    /// Proof verified; terminal.
    Completed,
    /// Deadline passed without verification; terminal.
    Expired,
}

impl ProjectStatus {
    /// Whether the project still takes deposits and may be verified.
    pub open spec fn is_open(self) -> bool {
        self == ProjectStatus::Funding || self == ProjectStatus::Active
    }

    pub open spec fn is_terminal(self) -> bool {
        self == ProjectStatus::Completed || self == ProjectStatus::Expired
    }
}

/// Immutable project configuration, written once at registration.
#[derive(Clone, Debug, PartialEq, Eq)]
pub struct ProjectConfig {
    pub id: u64,
    pub creator: Address,
    pub accepted_tokens: Vec<Address>,
    pub goal: i128,
    pub proof_hash: [u8; 32],
    pub deadline: u64,
}

/// Mutable project state, updated on deposits and verification.
#[derive(Clone, Copy, Debug, PartialEq, Eq)]
pub struct ProjectState {
    pub status: ProjectStatus,
    pub donation_count: u32,
}

/// A project as callers see it: its configuration joined with its state.
#[derive(Clone, Debug, PartialEq, Eq)]
pub struct Project {
    /// Sequential identifier, starting at 0.
    pub id: u64,
    /// Address that registered the project.
    pub creator: Address,
    /// Ordered list of the tokens this project accepts (1 to 10, distinct).
    pub accepted_tokens: Vec<Address>,
    /// Funding goal, in the first accepted token's units.
    pub goal: i128,
    /// Commitment hash of the proof artifacts.
    pub proof_hash: [u8; 32],
    /// Ledger timestamp by which the project must be completed.
    pub deadline: u64,
    /// Current lifecycle state.
    pub status: ProjectStatus,
    /// Informational donation counter.
    pub donation_count: u32,
}

/// The balance of one token held for a project.
#[derive(Clone, Copy, Debug, PartialEq, Eq)]
pub struct TokenBalance {
    pub token: Address,
    pub balance: i128,
}

/// Snapshot of all balances of a project, one per accepted token, in order.
#[derive(Clone, Debug, PartialEq, Eq)]
pub struct ProjectBalances {
    pub project_id: u64,
    pub balances: Vec<TokenBalance>,
}

/// The views of a sequence of addresses.
pub open spec fn addresses(v: Seq<Address>) -> Seq<Seq<u8>> {
    v.map_values(|a: Address| a@)
}

/// The first position at which `t` occurs in `tokens` (meaningful when it occurs).
pub open spec fn first_index(tokens: Seq<Seq<u8>>, t: Seq<u8>) -> int {
    choose|i: int|
        0 <= i < tokens.len() && tokens[i] == t && forall|j: int| 0 <= j < i ==> tokens[j] != t
}

/// Whether no address occurs twice in `tokens`.
pub open spec fn all_distinct(tokens: Seq<Seq<u8>>) -> bool {
    forall|i: int, j: int| 0 <= i < tokens.len() && 0 <= j < tokens.len() && i != j
        ==> tokens[i] != tokens[j]
}

/// Copies a list of addresses.
pub fn copy_addresses(v: &Vec<Address>) -> (r: Vec<Address>)
    ensures
        r@ == v@,
{
    let mut r: Vec<Address> = Vec::new();
    let mut i: usize = 0;
    while i < v.len()
        invariant
            i <= v@.len(),
            r@ == v@.subrange(0, i as int),
        decreases v@.len() - i,
    {
        r.push(v[i]);
        assert(v@.subrange(0, i + 1) =~= v@.subrange(0, i as int).push(v@[i as int]));
        i = i + 1;
    }
    assert(v@ =~= v@.subrange(0, i as int));
    r
}

/// The first position of `token` in `tokens`, if it occurs.
pub fn find_token(tokens: &Vec<Address>, token: &Address) -> (r: Option<usize>)
    ensures
        match r {
            Some(i) => addresses(tokens@).contains(token@) && i as int == first_index(
                addresses(tokens@),
                token@,
            ) && i < tokens@.len(),
            None => !addresses(tokens@).contains(token@),
        },
{
    let ghost ts = addresses(tokens@);
    let mut i: usize = 0;
    while i < tokens.len()
        invariant
            i <= tokens@.len(),
            ts == addresses(tokens@),
            ts.len() == tokens@.len(),
            forall|j: int| 0 <= j < i ==> ts[j] != token@,
        decreases tokens@.len() - i,
    {
        if tokens[i].same(token) {
            assert(ts[i as int] == token@);
            let ghost k = first_index(ts, token@);
            assert(exists|x: int|
                0 <= x < ts.len() && ts[x] == token@ && forall|j: int| 0 <= j < x ==> ts[j] != token@)
                by {
                assert(0 <= i < ts.len() && ts[i as int] == token@);
            }
            assert(k == i) by {
                if k < i {
                    assert(ts[k] != token@);
                } else if i < k {
                    assert(ts[i as int] != token@);
                }
            }
            return Some(i);
        }
        i = i + 1;
    }
    assert forall|x: int| 0 <= x < ts.len() implies ts[x] != token@ by {}
    None
}

impl Project {
    /// Whether `token` is in this project's accepted list.
    pub fn accepts_token(&self, token: &Address) -> (r: bool)
        ensures
            r == addresses(self.accepted_tokens@).contains(token@),
    {
        find_token(&self.accepted_tokens, token).is_some()
    }
}

} // verus!
