//! The per-DAO proposal report: which DAOs are reported, how their proposals
//! are tallied by state and by adapter, and the text of the report cells.

use vstd::prelude::*;
use itertools::Itertools;
use crate::boardroom::{Adapter, ProposalObject, ProposalResponse, ProposalState};
use crate::dates::{day_cell, day_cell_text, day_not_after, lemma_utc_date_monotone, utc_date};
use crate::sums::{lemma_reorder_contains, lemma_weight_sum_reorder, weight_sum};
use crate::text::{decimal_string, decimal_text};

verus! {

/// 2^128, the weight of one wrap of a vote sum.
pub open spec fn wrap_weight() -> nat {
    0x1_0000_0000_0000_0000_0000_0000_0000_0000nat
}

/// An exact sum of `u128` vote counts: `wraps` times 2^128 plus `low`.
#[derive(Clone, Copy, Debug, PartialEq, Eq, Structural)]
pub struct VoteSum {
    pub wraps: usize,
    pub low: u128,
}

impl VoteSum {
    /// The number that the sum stands for.
    pub open spec fn value(self) -> nat {
        (self.wraps as nat) * wrap_weight() + (self.low as nat)
    }

    /// The empty sum.
    pub fn zero() -> (r: VoteSum)
        ensures
            r.value() == 0,
            r.wraps == 0,
    {
        VoteSum { wraps: 0, low: 0 }
    }

    /// Adds `v` to the sum.
    pub fn add(&mut self, v: u128)
        requires
            old(self).wraps < usize::MAX,
        ensures
            final(self).value() == old(self).value() + v,
            final(self).wraps <= old(self).wraps + 1,
    {
        match self.low.checked_add(v) {
            Some(x) => {
                self.low = x;
            },
            None => {
                self.low = self.low.wrapping_add(v);
                self.wraps = self.wraps + 1;
            },
        }
    }
}

/// The number of proposals of `s` in state `st`.
pub open spec fn count_state(s: Seq<ProposalObject>, st: ProposalState) -> nat
    decreases s.len(),
{
    if s.len() == 0 {
        0
    } else {
        count_state(s.drop_last(), st) + if s.last().current_state == st {
            1nat
        } else {
            0nat
        }
    }
}

/// The number of proposals of `s` voted on with adapter `a`.
pub open spec fn count_adapter(s: Seq<ProposalObject>, a: Adapter) -> nat
    decreases s.len(),
{
    if s.len() == 0 {
        0
    } else {
        count_adapter(s.drop_last(), a) + if s.last().adapter == a {
            1nat
        } else {
            0nat
        }
    }
}

/// The proposal is voted on chain: neither on Snapshot nor archived.
pub open spec fn is_onchain(p: ProposalObject) -> bool {
    p.adapter != Adapter::Snapshot && p.adapter != Adapter::Archive
}

/// The sum of the votes of the proposals of `s` voted on chain.
pub open spec fn onchain_votes(s: Seq<ProposalObject>) -> nat
    decreases s.len(),
{
    if s.len() == 0 {
        0
    } else {
        onchain_votes(s.drop_last()) + if is_onchain(s.last()) {
            s.last().total_votes as nat
        } else {
            0nat
        }
    }
}

/// The sum of the votes of the proposals of `s` voted on Snapshot.
pub open spec fn snapshot_votes(s: Seq<ProposalObject>) -> nat
    decreases s.len(),
{
    if s.len() == 0 {
        0
    } else {
        snapshot_votes(s.drop_last()) + if s.last().adapter == Adapter::Snapshot {
            s.last().total_votes as nat
        } else {
            0nat
        }
    }
}

/// The on-chain entry count of the report: every on-chain proposal counts
/// once, and a proposal with the plain `Onchain` adapter counts once more.
pub open spec fn onchain_entries(s: Seq<ProposalObject>) -> nat {
    2 * count_adapter(s, Adapter::Onchain) + count_adapter(s, Adapter::OnchainUpgrade)
        + count_adapter(s, Adapter::OnchainSecondary) + count_adapter(s, Adapter::OnchainTertiary)
        + count_adapter(s, Adapter::OnchainOptimism) + count_adapter(s, Adapter::OnchainArbitrum)
}

/// `t` is the earliest start time among the proposals of `s`.
pub open spec fn is_earliest_start(s: Seq<ProposalObject>, t: u32) -> bool {
    &&& exists|i: int| 0 <= i < s.len() && s[i].start_timestamp == t
    &&& forall|i: int| 0 <= i < s.len() ==> t <= #[trigger] s[i].start_timestamp
}

/// `t` is the latest start time among the proposals of `s`.
pub open spec fn is_latest_start(s: Seq<ProposalObject>, t: u32) -> bool {
    &&& exists|i: int| 0 <= i < s.len() && s[i].start_timestamp == t
    &&& forall|i: int| 0 <= i < s.len() ==> #[trigger] s[i].start_timestamp <= t
}

/// The figures of the report for one DAO.
#[derive(Clone, Copy, Debug, PartialEq, Eq, Structural)]
pub struct ProposalTally {
    pub proposals: usize,
    pub pending: usize,
    pub active: usize,
    pub queued: usize,
    pub executed: usize,
    pub canceled: usize,
    pub closed: usize,
    pub onchain_entries: u128,
    pub onchain_upgrade: usize,
    pub onchain_secondary: usize,
    pub onchain_tertiary: usize,
    pub onchain_optimism: usize,
    pub onchain_arbitrum: usize,
    pub snapshot: usize,
    pub onchain_votes: VoteSum,
    pub snapshot_votes: VoteSum,
    pub earliest_start: Option<u32>,
    pub latest_start: Option<u32>,
}

/// `t` holds the figures of the proposals `s`.
pub open spec fn tally_of(t: ProposalTally, s: Seq<ProposalObject>) -> bool {
    &&& t.proposals == s.len()
    &&& t.pending == count_state(s, ProposalState::PENDING)
    &&& t.active == count_state(s, ProposalState::ACTIVE)
    &&& t.queued == count_state(s, ProposalState::QUEUED)
    &&& t.executed == count_state(s, ProposalState::EXECUTED)
    &&& t.canceled == count_state(s, ProposalState::CANCELED)
    &&& t.closed == count_state(s, ProposalState::CLOSED)
    &&& t.onchain_entries == onchain_entries(s)
    &&& t.onchain_upgrade == count_adapter(s, Adapter::OnchainUpgrade)
    &&& t.onchain_secondary == count_adapter(s, Adapter::OnchainSecondary)
    &&& t.onchain_tertiary == count_adapter(s, Adapter::OnchainTertiary)
    &&& t.onchain_optimism == count_adapter(s, Adapter::OnchainOptimism)
    &&& t.onchain_arbitrum == count_adapter(s, Adapter::OnchainArbitrum)
    &&& t.snapshot == count_adapter(s, Adapter::Snapshot)
    &&& t.onchain_votes.value() == onchain_votes(s)
    &&& t.snapshot_votes.value() == snapshot_votes(s)
    &&& (t.earliest_start is None <==> s.len() == 0)
    &&& (t.latest_start is None <==> s.len() == 0)
    &&& (t.earliest_start matches Some(e) ==> is_earliest_start(s, e))
    &&& (t.latest_start matches Some(l) ==> is_latest_start(s, l))
}

/// A DAO is reported when it has a list of at least five proposals.
pub open spec fn reported(r: ProposalResponse) -> bool {
    r.data matches Some(d) && d.len() >= 5
}

/// Whether a DAO's response is reported.
pub fn is_reported(r: &ProposalResponse) -> (b: bool)
    ensures
        b == reported(*r),
{
    match &r.data {
        Some(d) => d.len() >= 5,
        None => false,
    }
}

/// The positions of the reported DAOs among `responses`, in order.
pub fn reported_positions(responses: &Vec<ProposalResponse>) -> (r: Vec<usize>)
    ensures
        forall|k: int| 0 <= k < r.len() ==> r[k] < responses.len() && reported(
            responses[r[k] as int],
        ),
        forall|k: int, m: int| 0 <= k < m < r.len() ==> r[k] < r[m],
        forall|i: int|
            0 <= i < responses.len() && reported(#[trigger] responses[i]) ==> r@.contains(
                i as usize,
            ),
{
    let mut r: Vec<usize> = Vec::new();
    let mut i: usize = 0;
    while i < responses.len()
        invariant
            0 <= i <= responses.len(),
            forall|k: int| 0 <= k < r.len() ==> r[k] < i && reported(responses[r[k] as int]),
            forall|k: int, m: int| 0 <= k < m < r.len() ==> r[k] < r[m],
            forall|j: int|
                0 <= j < i && reported(#[trigger] responses[j]) ==> r@.contains(j as usize),
        decreases responses.len() - i,
    {
        let ghost before = r@;
        if is_reported(&responses[i]) {
            r.push(i);
            assert(r@[r.len() - 1] == i);
            assert forall|j: int|
                0 <= j < i + 1 && reported(#[trigger] responses[j]) implies r@.contains(
                j as usize,
            ) by {
                if j < i {
                    let k = choose|k: int| 0 <= k < before.len() && before[k] == j as usize;
                    assert(r@[k] == j as usize);
                }
            }
        }
        i = i + 1;
    }
    r
}

proof fn lemma_prefix_step(s: Seq<ProposalObject>, i: int)
    requires
        0 <= i < s.len(),
    ensures
        s.take(i + 1).drop_last() == s.take(i),
        s.take(i + 1).last() == s[i],
{
    assert(s.take(i + 1).drop_last() =~= s.take(i));
}

/// One when `st` is `target`, zero otherwise.
fn state_flag(st: ProposalState, target: ProposalState) -> (d: usize)
    ensures
        d == if st == target { 1usize } else { 0usize },
{
    if st == target {
        1
    } else {
        0
    }
}

/// One when `a` is `target`, zero otherwise.
fn adapter_flag(a: Adapter, target: Adapter) -> (d: usize)
    ensures
        d == if a == target { 1usize } else { 0usize },
{
    if a == target {
        1
    } else {
        0
    }
}

/// How many on-chain entries a proposal with adapter `a` makes.
fn onchain_weight(a: Adapter) -> (d: u128)
    ensures
        d == (if a == Adapter::Onchain { 1u128 } else { 0u128 }) + (if a != Adapter::Snapshot && a
            != Adapter::Archive { 1u128 } else { 0u128 }),
{
    match a {
        Adapter::Onchain => 2,
        Adapter::Snapshot => 0,
        Adapter::Archive => 0,
        _ => 1,
    }
}

/// The smaller of the current earliest value and `t`.
fn earlier(cur: Option<u32>, t: u32) -> (r: u32)
    ensures
        r == (match cur {
            Some(e) => if t < e { t } else { e },
            None => t,
        }),
{
    match cur {
        Some(e) => if t < e {
            t
        } else {
            e
        },
        None => t,
    }
}

/// The larger of the current latest value and `t`.
fn later(cur: Option<u32>, t: u32) -> (r: u32)
    ensures
        r == (match cur {
            Some(l) => if t > l { t } else { l },
            None => t,
        }),
{
    match cur {
        Some(l) => if t > l {
            t
        } else {
            l
        },
        None => t,
    }
}

proof fn lemma_extremes_step(
    s0: Seq<ProposalObject>,
    s1: Seq<ProposalObject>,
    i: int,
    e0: Option<u32>,
    l0: Option<u32>,
    e1: u32,
    l1: u32,
)
    requires
        s0.len() == i,
        s1.len() == i + 1,
        forall|k: int| 0 <= k < i ==> s1[k] == s0[k],
        e0 is None <==> i == 0,
        l0 is None <==> i == 0,
        e0 matches Some(e) ==> is_earliest_start(s0, e),
        l0 matches Some(l) ==> is_latest_start(s0, l),
        e1 == (match e0 {
            Some(e) => if s1[i].start_timestamp < e { s1[i].start_timestamp } else { e },
            None => s1[i].start_timestamp,
        }),
        l1 == (match l0 {
            Some(l) => if s1[i].start_timestamp > l { s1[i].start_timestamp } else { l },
            None => s1[i].start_timestamp,
        }),
    ensures
        is_earliest_start(s1, e1),
        is_latest_start(s1, l1),
{
    if e1 == s1[i].start_timestamp {
    } else {
        let w = choose|k: int| 0 <= k < s0.len() && s0[k].start_timestamp == e1;
        assert(s1[w].start_timestamp == e1);
    }
    assert forall|k: int| 0 <= k < s1.len() implies e1 <= #[trigger] s1[k].start_timestamp by {
        if k < i {
            assert(s1[k] == s0[k]);
        }
    }
    if l1 == s1[i].start_timestamp {
    } else {
        let w = choose|k: int| 0 <= k < s0.len() && s0[k].start_timestamp == l1;
        assert(s1[w].start_timestamp == l1);
    }
    assert forall|k: int| 0 <= k < s1.len() implies #[trigger] s1[k].start_timestamp <= l1 by {
        if k < i {
            assert(s1[k] == s0[k]);
        }
    }
}

/// How many report lines stand under one header.
pub const REPORT_BLOCK_ROWS: usize = 70;

/// The number of blocks of `size` rows that `n` rows make.
pub open spec fn block_count(n: nat, size: nat) -> nat {
    ((n + size - 1) / size as int) as nat
}

/// The `k`-th block of `rows` cut into consecutive blocks of `size` rows, the
/// last of which may be shorter.
pub open spec fn block_of(rows: Seq<usize>, size: nat, k: int) -> Seq<usize> {
    rows.subrange(
        size * k,
        if size * (k + 1) <= rows.len() {
            size * (k + 1)
        } else {
            rows.len() as int
        },
    )
}

/// `Itertools::chunks`: the rows cut, in order, into consecutive chunks of
/// `size`, the last one shorter when the rows run out (`size` must not be 0).
#[verifier::external_body]
fn chunk_rows(rows: &Vec<usize>, size: usize) -> (b: Vec<Vec<usize>>)
    requires
        size > 0,
    ensures
        b.len() == block_count(rows.len() as nat, size as nat),
        forall|k: int| 0 <= k < b.len() ==> #[trigger] b[k]@ == block_of(rows@, size as nat, k),
{
    let chunks = rows.iter().copied().chunks(size);
    let blocks: Vec<Vec<usize>> = (&chunks).into_iter().map(|c| c.collect()).collect();
    blocks
}

/// The report lines (given as positions) grouped under headers: consecutive
/// blocks of `REPORT_BLOCK_ROWS` in order, the last one possibly shorter.
pub fn report_blocks(rows: &Vec<usize>) -> (b: Vec<Vec<usize>>)
    ensures
        b.len() == block_count(rows.len() as nat, REPORT_BLOCK_ROWS as nat),
        forall|k: int|
            0 <= k < b.len() ==> #[trigger] b[k]@ == block_of(rows@, REPORT_BLOCK_ROWS as nat, k),
{
    chunk_rows(rows, REPORT_BLOCK_ROWS)
}

/// The blocks of a report: there are none for no rows; each holds between one
/// and `size` rows, all but the last exactly `size`; and together, in order,
/// they are the rows.
pub proof fn lemma_blocks(rows: Seq<usize>, size: nat, k: int)
    requires
        size > 0,
    ensures
        rows.len() == 0 ==> block_count(rows.len(), size) == 0,
        0 <= k < block_count(rows.len(), size) ==> {
            &&& 0 < block_of(rows, size, k).len() <= size
            &&& k + 1 < block_count(rows.len(), size) ==> block_of(rows, size, k).len() == size
            &&& block_of(rows, size, k) == rows.subrange(
                size * k,
                size * k + block_of(rows, size, k).len(),
            )
        },
        block_count(rows.len(), size) * size >= rows.len(),
        rows.len() > 0 ==> (block_count(rows.len(), size) - 1) * size < rows.len(),
{
    let n = rows.len();
    let c = block_count(n, size);
    assert(c * size >= n && (n > 0 ==> (c - 1) * size < n) && (n == 0 ==> c == 0)) by (
    nonlinear_arith)
        requires
            c == (n + size - 1) / size as int,
            size > 0,
    ;
    if 0 <= k < c {
        assert(size * k < n && size * k + size == size * (k + 1) && (k + 1 < c ==> size * (k + 1)
            <= n)) by (nonlinear_arith)
            requires
                0 <= k < c,
                c * size >= n,
                n > 0 ==> (c - 1) * size < n,
                n > 0 || c == 0,
                size > 0,
        ;
        let b = block_of(rows, size, k);
        assert(b =~= rows.subrange(size * k, size * k + b.len()));
    }
}

/// Tallies the proposals of one DAO by state and by adapter, sums their votes
/// and finds the earliest and latest start.
pub fn tally_proposals(data: &Vec<ProposalObject>) -> (t: ProposalTally)
    ensures
        tally_of(t, data@),
{
    let n = data.len();
    let mut t = ProposalTally {
        proposals: n,
        pending: 0,
        active: 0,
        queued: 0,
        executed: 0,
        canceled: 0,
        closed: 0,
        onchain_entries: 0,
        onchain_upgrade: 0,
        onchain_secondary: 0,
        onchain_tertiary: 0,
        onchain_optimism: 0,
        onchain_arbitrum: 0,
        snapshot: 0,
        onchain_votes: VoteSum::zero(),
        snapshot_votes: VoteSum::zero(),
        earliest_start: None,
        latest_start: None,
    };
    let mut i: usize = 0;
    assert(data@.take(0) =~= Seq::<ProposalObject>::empty());
    while i < n
        invariant
            n == data.len(),
            0 <= i <= n,
            t.proposals == n,
            t.pending + t.active + t.queued + t.executed + t.canceled + t.closed == i,
            t.onchain_upgrade + t.onchain_secondary + t.onchain_tertiary + t.onchain_optimism
                + t.onchain_arbitrum + t.snapshot <= i,
            t.onchain_entries <= 2 * i,
            t.onchain_votes.wraps <= i,
            t.snapshot_votes.wraps <= i,
            ({
                let s = data@.take(i as int);
                &&& t.pending == count_state(s, ProposalState::PENDING)
                &&& t.active == count_state(s, ProposalState::ACTIVE)
                &&& t.queued == count_state(s, ProposalState::QUEUED)
                &&& t.executed == count_state(s, ProposalState::EXECUTED)
                &&& t.canceled == count_state(s, ProposalState::CANCELED)
                &&& t.closed == count_state(s, ProposalState::CLOSED)
                &&& t.onchain_entries == onchain_entries(s)
                &&& t.onchain_upgrade == count_adapter(s, Adapter::OnchainUpgrade)
                &&& t.onchain_secondary == count_adapter(s, Adapter::OnchainSecondary)
                &&& t.onchain_tertiary == count_adapter(s, Adapter::OnchainTertiary)
                &&& t.onchain_optimism == count_adapter(s, Adapter::OnchainOptimism)
                &&& t.onchain_arbitrum == count_adapter(s, Adapter::OnchainArbitrum)
                &&& t.snapshot == count_adapter(s, Adapter::Snapshot)
                &&& t.onchain_votes.value() == onchain_votes(s)
                &&& t.snapshot_votes.value() == snapshot_votes(s)
                &&& (t.earliest_start is None <==> i == 0)
                &&& (t.latest_start is None <==> i == 0)
                &&& (t.earliest_start matches Some(e) ==> is_earliest_start(s, e))
                &&& (t.latest_start matches Some(l) ==> is_latest_start(s, l))
            }),
        decreases n - i,
    {
        let p = &data[i];
        proof {
            lemma_prefix_step(data@, i as int);
        }
        let ghost s0 = data@.take(i as int);
        let ghost s1 = data@.take(i + 1);
        let ghost e0 = t.earliest_start;
        let ghost l0 = t.latest_start;
        let st = p.current_state;
        let ad = p.adapter;
        t.pending = t.pending + state_flag(st, ProposalState::PENDING);
        t.active = t.active + state_flag(st, ProposalState::ACTIVE);
        t.queued = t.queued + state_flag(st, ProposalState::QUEUED);
        t.executed = t.executed + state_flag(st, ProposalState::EXECUTED);
        t.canceled = t.canceled + state_flag(st, ProposalState::CANCELED);
        t.closed = t.closed + state_flag(st, ProposalState::CLOSED);
        t.onchain_entries = t.onchain_entries + onchain_weight(ad);
        t.onchain_upgrade = t.onchain_upgrade + adapter_flag(ad, Adapter::OnchainUpgrade);
        t.onchain_secondary = t.onchain_secondary + adapter_flag(ad, Adapter::OnchainSecondary);
        t.onchain_tertiary = t.onchain_tertiary + adapter_flag(ad, Adapter::OnchainTertiary);
        t.onchain_optimism = t.onchain_optimism + adapter_flag(ad, Adapter::OnchainOptimism);
        t.onchain_arbitrum = t.onchain_arbitrum + adapter_flag(ad, Adapter::OnchainArbitrum);
        t.snapshot = t.snapshot + adapter_flag(ad, Adapter::Snapshot);
        t.snapshot_votes.add(if adapter_flag(ad, Adapter::Snapshot) == 1 {
            p.total_votes
        } else {
            0
        });
        t.onchain_votes.add(if onchain_weight(ad) > 0 {
            p.total_votes
        } else {
            0
        });
        let ts = p.start_timestamp;
        t.earliest_start = Some(earlier(t.earliest_start, ts));
        t.latest_start = Some(later(t.latest_start, ts));
        proof {
            lemma_extremes_step(s0, s1, i as int, e0, l0, t.earliest_start->0, t.latest_start->0);
        }
        i = i + 1;
    }
    assert(data@.take(n as int) =~= data@);
    t
}

/// The report cell of a count: the number, or `-` for none.
pub open spec fn count_cell_text(n: nat) -> Seq<char> {
    if n == 0 {
        "-"@
    } else {
        decimal_text(n)
    }
}

/// Writes the report cell of a count.
pub fn count_cell(n: u128) -> (r: String)
    ensures
        r@ == count_cell_text(n as nat),
{
    if n == 0 {
        String::from_str("-")
    } else {
        decimal_string(n)
    }
}

/// Six counts written as `(a/b/c/d/e/f)`, each as its report cell.
pub open spec fn breakdown_text(c: Seq<nat>) -> Seq<char> {
    "("@ + count_cell_text(c[0]) + "/"@ + count_cell_text(c[1]) + "/"@ + count_cell_text(c[2])
        + "/"@ + count_cell_text(c[3]) + "/"@ + count_cell_text(c[4]) + "/"@ + count_cell_text(
        c[5],
    ) + ")"@
}

/// Writes six counts as `(a/b/c/d/e/f)`.
pub fn breakdown(a: u128, b: u128, c: u128, d: u128, e: u128, f: u128) -> (r: String)
    ensures
        r@ == breakdown_text(seq![a as nat, b as nat, c as nat, d as nat, e as nat, f as nat]),
{
    let mut r = String::from_str("(");
    r.append(count_cell(a).as_str());
    r.append("/");
    r.append(count_cell(b).as_str());
    r.append("/");
    r.append(count_cell(c).as_str());
    r.append("/");
    r.append(count_cell(d).as_str());
    r.append("/");
    r.append(count_cell(e).as_str());
    r.append("/");
    r.append(count_cell(f).as_str());
    r.append(")");
    r
}

/// The text cells of a DAO's report line (the averages, which are fractional,
/// are not among them).
#[derive(Clone, Debug)]
pub struct DaoCells {
    pub proposals: String,
    pub states: String,
    pub adapters: String,
    pub snapshot: String,
    pub oldest: String,
    pub newest: String,
}

/// Writes the cells of a DAO's report line: the number of proposals, the
/// counts by state (pending/active/queued/executed/canceled/closed), the
/// counts by adapter (on-chain entries/upgrade/secondary/tertiary/optimism/
/// arbitrum), the Snapshot count, and the days of the oldest and newest start.
pub fn dao_cells(t: &ProposalTally) -> (r: DaoCells)
    ensures
        r.proposals@ == decimal_text(t.proposals as nat),
        r.states@ == breakdown_text(
            seq![
                t.pending as nat,
                t.active as nat,
                t.queued as nat,
                t.executed as nat,
                t.canceled as nat,
                t.closed as nat,
            ],
        ),
        r.adapters@ == breakdown_text(
            seq![
                t.onchain_entries as nat,
                t.onchain_upgrade as nat,
                t.onchain_secondary as nat,
                t.onchain_tertiary as nat,
                t.onchain_optimism as nat,
                t.onchain_arbitrum as nat,
            ],
        ),
        r.snapshot@ == count_cell_text(t.snapshot as nat),
        r.oldest@ == day_cell_text(t.earliest_start),
        r.newest@ == day_cell_text(t.latest_start),
{
    DaoCells {
        proposals: decimal_string(t.proposals as u128),
        states: breakdown(
            t.pending as u128,
            t.active as u128,
            t.queued as u128,
            t.executed as u128,
            t.canceled as u128,
            t.closed as u128,
        ),
        adapters: breakdown(
            t.onchain_entries,
            t.onchain_upgrade as u128,
            t.onchain_secondary as u128,
            t.onchain_tertiary as u128,
            t.onchain_optimism as u128,
            t.onchain_arbitrum as u128,
        ),
        snapshot: count_cell(t.snapshot as u128),
        oldest: day_cell(t.earliest_start),
        newest: day_cell(t.latest_start),
    }
}


/// Every proposal has exactly one state: the counts by state add up to the
/// number of proposals.
pub proof fn lemma_states_partition(s: Seq<ProposalObject>)
    ensures
        count_state(s, ProposalState::PENDING) + count_state(s, ProposalState::ACTIVE)
            + count_state(s, ProposalState::QUEUED) + count_state(s, ProposalState::EXECUTED)
            + count_state(s, ProposalState::CANCELED) + count_state(s, ProposalState::CLOSED)
            == s.len(),
    decreases s.len(),
{
    if s.len() > 0 {
        lemma_states_partition(s.drop_last());
    }
}

/// Every proposal has exactly one adapter: the counts by adapter add up to
/// the number of proposals.
pub proof fn lemma_adapters_partition(s: Seq<ProposalObject>)
    ensures
        count_adapter(s, Adapter::Onchain) + count_adapter(s, Adapter::OnchainUpgrade)
            + count_adapter(s, Adapter::OnchainSecondary) + count_adapter(
            s,
            Adapter::OnchainTertiary,
        ) + count_adapter(s, Adapter::OnchainOptimism) + count_adapter(
            s,
            Adapter::OnchainArbitrum,
        ) + count_adapter(s, Adapter::Snapshot) + count_adapter(s, Adapter::Archive) == s.len(),
    decreases s.len(),
{
    if s.len() > 0 {
        lemma_adapters_partition(s.drop_last());
    }
}

/// Of a DAO's tally: the counts by state add up to the number of proposals;
/// the on-chain entries are the proposals that are neither on Snapshot nor
/// archived, plus once more those with the plain `Onchain` adapter; and the
/// oldest start is not after the newest, nor is its calendar day.
pub proof fn lemma_tally_consistent(t: ProposalTally, s: Seq<ProposalObject>)
    requires
        tally_of(t, s),
    ensures
        t.pending + t.active + t.queued + t.executed + t.canceled + t.closed == t.proposals,
        t.onchain_entries == s.len() - t.snapshot - count_adapter(s, Adapter::Archive)
            + count_adapter(s, Adapter::Onchain),
        t.earliest_start matches Some(e) ==> t.latest_start matches Some(l) && e <= l
            && day_not_after(utc_date(e), utc_date(l)),
{
    lemma_states_partition(s);
    lemma_adapters_partition(s);
    if let Some(e) = t.earliest_start {
        let l = t.latest_start->0;
        let w = choose|k: int| 0 <= k < s.len() && s[k].start_timestamp == e;
        assert(s[w].start_timestamp <= l);
        lemma_utc_date_monotone(e, l);
    }
}


/// The sum of the quorums of the proposals of `s` that are (`snapshot`) or
/// are not (`!snapshot`) voted on Snapshot.
pub open spec fn sum_quorum(s: Seq<ProposalObject>, snapshot: bool) -> nat
    decreases s.len(),
{
    if s.len() == 0 {
        0
    } else {
        sum_quorum(s.drop_last(), snapshot) + if (s.last().adapter == Adapter::Snapshot)
            == snapshot {
            s.last().quorum as nat
        } else {
            0nat
        }
    }
}

/// The sum of the votes of the proposals of `s` that are (`snapshot`) or
/// are not (`!snapshot`) voted on Snapshot.
pub open spec fn sum_votes(s: Seq<ProposalObject>, snapshot: bool) -> nat
    decreases s.len(),
{
    if s.len() == 0 {
        0
    } else {
        sum_votes(s.drop_last(), snapshot) + if (s.last().adapter == Adapter::Snapshot)
            == snapshot {
            s.last().total_votes as nat
        } else {
            0nat
        }
    }
}

/// A sum per item, rounded down; zero when there are no items.
pub open spec fn average(sum: nat, count: nat) -> nat {
    if count == 0 {
        0
    } else {
        sum / count
    }
}

/// The whole-number quorum and voter averages of a DAO, apart for Snapshot
/// proposals and for all others.
#[derive(Clone, Copy, Debug, PartialEq, Eq, Structural)]
pub struct QuorumRow {
    pub snapshot_count: u128,
    pub other_count: u128,
    pub snapshot_quorum: u128,
    pub snapshot_voters: u128,
    pub other_quorum: u128,
    pub other_voters: u128,
}

/// The sums behind a quorum row fit in a `u128`.
pub open spec fn quorum_defined(s: Seq<ProposalObject>) -> bool {
    &&& sum_quorum(s, true) <= u128::MAX
    &&& sum_quorum(s, false) <= u128::MAX
    &&& sum_votes(s, true) <= u128::MAX
    &&& sum_votes(s, false) <= u128::MAX
}

/// `row` is the quorum row of the proposals `s`.
pub open spec fn quorum_of(row: QuorumRow, s: Seq<ProposalObject>) -> bool {
    let snap = count_adapter(s, Adapter::Snapshot);
    let other = s.len() - snap;
    &&& row.snapshot_count == snap
    &&& row.other_count == other
    &&& row.snapshot_quorum == average(sum_quorum(s, true), snap)
    &&& row.snapshot_voters == average(sum_votes(s, true), snap)
    &&& row.other_quorum == average(sum_quorum(s, false), other as nat)
    &&& row.other_voters == average(sum_votes(s, false), other as nat)
}

proof fn lemma_quorum_sums_monotone(s: Seq<ProposalObject>, k: int, m: int)
    requires
        0 <= k <= m <= s.len(),
    ensures
        sum_quorum(s.take(k), true) <= sum_quorum(s.take(m), true),
        sum_quorum(s.take(k), false) <= sum_quorum(s.take(m), false),
        sum_votes(s.take(k), true) <= sum_votes(s.take(m), true),
        sum_votes(s.take(k), false) <= sum_votes(s.take(m), false),
    decreases m - k,
{
    if k < m {
        lemma_prefix_step(s, m - 1);
        lemma_quorum_sums_monotone(s, k, m - 1);
    }
}

/// Adds `v` to a running sum that is known exactly while `fits` holds.
fn add_checked(sum: u128, fits: bool, v: u128) -> (r: (u128, bool))
    ensures
        r.1 == (fits && sum + v <= u128::MAX),
        r.1 ==> r.0 == sum + v,
{
    if !fits {
        return (sum, false);
    }
    match sum.checked_add(v) {
        Some(x) => (x, true),
        None => (sum, false),
    }
}

/// `a / b`, and zero where `b` is zero.
fn average_of(a: u128, b: u128) -> (r: u128)
    ensures
        r == average(a as nat, b as nat),
{
    if b == 0 {
        0
    } else {
        a / b
    }
}

/// The quorum row of the proposals `data`, or `None` where one of its sums
/// exceeds a `u128`.
pub fn checked_quorum_row(data: &Vec<ProposalObject>) -> (row: Option<QuorumRow>)
    ensures
        row is Some <==> quorum_defined(data@),
        row matches Some(x) ==> quorum_of(x, data@),
{
    let ghost s = data@;
    let n = data.len();
    let mut snap: u128 = 0;
    let (mut sq, mut sq_ok): (u128, bool) = (0, true);
    let (mut sv, mut sv_ok): (u128, bool) = (0, true);
    let (mut oq, mut oq_ok): (u128, bool) = (0, true);
    let (mut ov, mut ov_ok): (u128, bool) = (0, true);
    let mut i: usize = 0;
    assert(s.take(0) =~= Seq::<ProposalObject>::empty());
    while i < n
        invariant
            s == data@,
            n == s.len(),
            0 <= i <= n,
            snap == count_adapter(s.take(i as int), Adapter::Snapshot),
            snap <= i,
            sq_ok == (sum_quorum(s.take(i as int), true) <= u128::MAX),
            sq_ok ==> sq == sum_quorum(s.take(i as int), true),
            sv_ok == (sum_votes(s.take(i as int), true) <= u128::MAX),
            sv_ok ==> sv == sum_votes(s.take(i as int), true),
            oq_ok == (sum_quorum(s.take(i as int), false) <= u128::MAX),
            oq_ok ==> oq == sum_quorum(s.take(i as int), false),
            ov_ok == (sum_votes(s.take(i as int), false) <= u128::MAX),
            ov_ok ==> ov == sum_votes(s.take(i as int), false),
        decreases n - i,
    {
        let p = &data[i];
        proof {
            lemma_prefix_step(s, i as int);
            lemma_quorum_sums_monotone(s, i as int, i + 1);
        }
        if adapter_flag(p.adapter, Adapter::Snapshot) == 1 {
            snap = snap + 1;
            let r = add_checked(sq, sq_ok, p.quorum);
            sq = r.0;
            sq_ok = r.1;
            let r = add_checked(sv, sv_ok, p.total_votes);
            sv = r.0;
            sv_ok = r.1;
        } else {
            let r = add_checked(oq, oq_ok, p.quorum);
            oq = r.0;
            oq_ok = r.1;
            let r = add_checked(ov, ov_ok, p.total_votes);
            ov = r.0;
            ov_ok = r.1;
        }
        i = i + 1;
    }
    assert(s.take(n as int) =~= s);
    if !(sq_ok && sv_ok && oq_ok && ov_ok) {
        return None;
    }
    let other = n as u128 - snap;
    Some(
        QuorumRow {
            snapshot_count: snap,
            other_count: other,
            snapshot_quorum: average_of(sq, snap),
            snapshot_voters: average_of(sv, snap),
            other_quorum: average_of(oq, other),
            other_voters: average_of(ov, other),
        },
    )
}

/// The quorum row of the proposals `data`.
pub fn quorum_row(data: &Vec<ProposalObject>) -> (row: QuorumRow)
    requires
        quorum_defined(data@),
    ensures
        quorum_of(row, data@),
{
    match checked_quorum_row(data) {
        Some(x) => x,
        None => {
            proof {
                assert(false);
            }
            QuorumRow {
                snapshot_count: 0,
                other_count: 0,
                snapshot_quorum: 0,
                snapshot_voters: 0,
                other_quorum: 0,
                other_voters: 0,
            }
        },
    }
}

/// The count of a state as a sum of per-proposal weights.
proof fn lemma_count_state_sum(s: Seq<ProposalObject>, st: ProposalState)
    ensures
        count_state(s, st) == weight_sum(
            s,
            |p: ProposalObject| if p.current_state == st { 1nat } else { 0nat },
        ),
    decreases s.len(),
{
    if s.len() > 0 {
        lemma_count_state_sum(s.drop_last(), st);
    }
}

/// The count of an adapter as a sum of per-proposal weights.
proof fn lemma_count_adapter_sum(s: Seq<ProposalObject>, a: Adapter)
    ensures
        count_adapter(s, a) == weight_sum(
            s,
            |p: ProposalObject| if p.adapter == a { 1nat } else { 0nat },
        ),
    decreases s.len(),
{
    if s.len() > 0 {
        lemma_count_adapter_sum(s.drop_last(), a);
    }
}

/// The vote sums as sums of per-proposal weights.
proof fn lemma_vote_sums(s: Seq<ProposalObject>)
    ensures
        onchain_votes(s) == weight_sum(
            s,
            |p: ProposalObject| if is_onchain(p) { p.total_votes as nat } else { 0nat },
        ),
        snapshot_votes(s) == weight_sum(
            s,
            |p: ProposalObject|
                if p.adapter == Adapter::Snapshot { p.total_votes as nat } else { 0nat },
        ),
    decreases s.len(),
{
    if s.len() > 0 {
        lemma_vote_sums(s.drop_last());
    }
}

/// The counts and vote sums do not depend on the order of the proposals.
pub proof fn lemma_figures_reorder(s1: Seq<ProposalObject>, s2: Seq<ProposalObject>)
    requires
        s1.to_multiset() == s2.to_multiset(),
    ensures
        forall|st: ProposalState| #[trigger] count_state(s1, st) == count_state(s2, st),
        forall|a: Adapter| #[trigger] count_adapter(s1, a) == count_adapter(s2, a),
        onchain_votes(s1) == onchain_votes(s2),
        snapshot_votes(s1) == snapshot_votes(s2),
        onchain_entries(s1) == onchain_entries(s2),
        s1.len() == s2.len(),
{
    broadcast use vstd::seq_lib::group_to_multiset_ensures;

    assert forall|st: ProposalState| #[trigger] count_state(s1, st) == count_state(s2, st) by {
        lemma_count_state_sum(s1, st);
        lemma_count_state_sum(s2, st);
        lemma_weight_sum_reorder(
            s1,
            s2,
            |p: ProposalObject| if p.current_state == st { 1nat } else { 0nat },
        );
    }
    assert forall|a: Adapter| #[trigger] count_adapter(s1, a) == count_adapter(s2, a) by {
        lemma_count_adapter_sum(s1, a);
        lemma_count_adapter_sum(s2, a);
        lemma_weight_sum_reorder(
            s1,
            s2,
            |p: ProposalObject| if p.adapter == a { 1nat } else { 0nat },
        );
    }
    lemma_vote_sums(s1);
    lemma_vote_sums(s2);
    lemma_weight_sum_reorder(
        s1,
        s2,
        |p: ProposalObject| if is_onchain(p) { p.total_votes as nat } else { 0nat },
    );
    lemma_weight_sum_reorder(
        s1,
        s2,
        |p: ProposalObject|
            if p.adapter == Adapter::Snapshot { p.total_votes as nat } else { 0nat },
    );
    assert(s1.len() == s1.to_multiset().len());
    assert(s2.len() == s2.to_multiset().len());
    assert(count_adapter(s1, Adapter::Onchain) == count_adapter(s2, Adapter::Onchain));
    assert(count_adapter(s1, Adapter::OnchainUpgrade) == count_adapter(s2, Adapter::OnchainUpgrade));
    assert(count_adapter(s1, Adapter::OnchainSecondary) == count_adapter(
        s2,
        Adapter::OnchainSecondary,
    ));
    assert(count_adapter(s1, Adapter::OnchainTertiary) == count_adapter(
        s2,
        Adapter::OnchainTertiary,
    ));
    assert(count_adapter(s1, Adapter::OnchainOptimism) == count_adapter(
        s2,
        Adapter::OnchainOptimism,
    ));
    assert(count_adapter(s1, Adapter::OnchainArbitrum) == count_adapter(
        s2,
        Adapter::OnchainArbitrum,
    ));
}

/// The earliest and latest start do not depend on the order of the proposals.
pub proof fn lemma_extremes_reorder(s1: Seq<ProposalObject>, s2: Seq<ProposalObject>, t: u32)
    requires
        s1.to_multiset() == s2.to_multiset(),
    ensures
        is_earliest_start(s1, t) ==> is_earliest_start(s2, t),
        is_latest_start(s1, t) ==> is_latest_start(s2, t),
{
    if is_earliest_start(s1, t) || is_latest_start(s1, t) {
        let i = choose|i: int| 0 <= i < s1.len() && s1[i].start_timestamp == t;
        lemma_reorder_contains(s1, s2, s1[i]);
        assert(s1.contains(s1[i]));
        let j = choose|j: int| 0 <= j < s2.len() && s2[j] == s1[i];
        assert(s2[j].start_timestamp == t);
    }
    assert forall|j: int| 0 <= j < s2.len() implies exists|i: int|
        0 <= i < s1.len() && s1[i] == #[trigger] s2[j] by {
        lemma_reorder_contains(s1, s2, s2[j]);
        assert(s2.contains(s2[j]));
    }
}

/// Two numbers written as wraps and a remainder below 2^128 are equal only
/// when both parts are.
proof fn lemma_vote_sum_unique(a: VoteSum, b: VoteSum)
    requires
        a.value() == b.value(),
    ensures
        a == b,
{
    let w = wrap_weight();
    let (x, y, u, v) = (a.wraps as int, a.low as int, b.wraps as int, b.low as int);
    assert(x == u && y == v) by (nonlinear_arith)
        requires
            x * w + y == u * w + v,
            0 <= y < w,
            0 <= v < w,
            x >= 0,
            u >= 0,
            w > 0,
    {
        if x < u {
            assert(x * w + w <= u * w);
        } else if x > u {
            assert(u * w + w <= x * w);
        }
    }
}

/// Reordering a DAO's proposals leaves its tally unchanged: every count, both
/// vote sums, and the earliest and latest start are the same for any order of
/// the same proposals, and so are the report cells written from the tally.
pub proof fn lemma_tally_order_independent(
    t1: ProposalTally,
    s1: Seq<ProposalObject>,
    t2: ProposalTally,
    s2: Seq<ProposalObject>,
)
    requires
        s1.to_multiset() == s2.to_multiset(),
        tally_of(t1, s1),
        tally_of(t2, s2),
    ensures
        t1 == t2,
{
    lemma_figures_reorder(s1, s2);
    assert(t1.pending == t2.pending);
    assert(t1.active == t2.active);
    assert(t1.queued == t2.queued);
    assert(t1.executed == t2.executed);
    assert(t1.canceled == t2.canceled);
    assert(t1.closed == t2.closed);
    assert(t1.onchain_upgrade == t2.onchain_upgrade);
    assert(t1.onchain_secondary == t2.onchain_secondary);
    assert(t1.onchain_tertiary == t2.onchain_tertiary);
    assert(t1.onchain_optimism == t2.onchain_optimism);
    assert(t1.onchain_arbitrum == t2.onchain_arbitrum);
    assert(t1.snapshot == t2.snapshot);
    lemma_vote_sum_unique(t1.onchain_votes, t2.onchain_votes);
    lemma_vote_sum_unique(t1.snapshot_votes, t2.snapshot_votes);
    if let Some(e1) = t1.earliest_start {
        let e2 = t2.earliest_start->0;
        lemma_extremes_reorder(s1, s2, e1);
        let i = choose|i: int| 0 <= i < s2.len() && s2[i].start_timestamp == e1;
        let j = choose|j: int| 0 <= j < s2.len() && s2[j].start_timestamp == e2;
        assert(e2 <= s2[i].start_timestamp);
        assert(e1 <= s2[j].start_timestamp);
    }
    if let Some(l1) = t1.latest_start {
        let l2 = t2.latest_start->0;
        lemma_extremes_reorder(s1, s2, l1);
        let i = choose|i: int| 0 <= i < s2.len() && s2[i].start_timestamp == l1;
        let j = choose|j: int| 0 <= j < s2.len() && s2[j].start_timestamp == l2;
        assert(s2[i].start_timestamp <= l2);
        assert(s2[j].start_timestamp <= l1);
    }
}

/// No proposals give no figures.
pub proof fn lemma_figures_empty()
    ensures
        forall|st: ProposalState| count_state(Seq::<ProposalObject>::empty(), st) == 0,
        forall|a: Adapter| count_adapter(Seq::<ProposalObject>::empty(), a) == 0,
        onchain_votes(Seq::<ProposalObject>::empty()) == 0,
        snapshot_votes(Seq::<ProposalObject>::empty()) == 0,
        onchain_entries(Seq::<ProposalObject>::empty()) == 0,
        sum_quorum(Seq::<ProposalObject>::empty(), true) == 0,
        sum_quorum(Seq::<ProposalObject>::empty(), false) == 0,
        sum_votes(Seq::<ProposalObject>::empty(), true) == 0,
        sum_votes(Seq::<ProposalObject>::empty(), false) == 0,
{
}

/// One more proposal `p` changes each figure by what `p` itself brings:
/// one to the count of its own state and of its own adapter and nothing to
/// the others; its votes to the on-chain sum when its adapter is `Onchain` or
/// one of the `Onchain*` variants, to the Snapshot sum when it is `Snapshot`,
/// and to neither when it is `Archive`; two on-chain entries for the plain
/// `Onchain` adapter, one for each variant, none for `Snapshot` or `Archive`;
/// and its quorum and votes to the Snapshot or to the other quorum sums.
pub proof fn lemma_figures_push(s: Seq<ProposalObject>, p: ProposalObject)
    ensures
        forall|st: ProposalState|
            #[trigger] count_state(s.push(p), st) == count_state(s, st) + if p.current_state
                == st {
                1nat
            } else {
                0nat
            },
        forall|a: Adapter|
            #[trigger] count_adapter(s.push(p), a) == count_adapter(s, a) + if p.adapter == a {
                1nat
            } else {
                0nat
            },
        (p.adapter == Adapter::Onchain || p.adapter == Adapter::OnchainUpgrade || p.adapter
            == Adapter::OnchainSecondary || p.adapter == Adapter::OnchainTertiary || p.adapter
            == Adapter::OnchainOptimism || p.adapter == Adapter::OnchainArbitrum) ==> onchain_votes(
            s.push(p),
        ) == onchain_votes(s) + p.total_votes,
        (p.adapter == Adapter::Snapshot || p.adapter == Adapter::Archive) ==> onchain_votes(
            s.push(p),
        ) == onchain_votes(s),
        p.adapter == Adapter::Snapshot ==> snapshot_votes(s.push(p)) == snapshot_votes(s)
            + p.total_votes,
        p.adapter != Adapter::Snapshot ==> snapshot_votes(s.push(p)) == snapshot_votes(s),
        p.adapter == Adapter::Onchain ==> onchain_entries(s.push(p)) == onchain_entries(s) + 2,
        (p.adapter == Adapter::OnchainUpgrade || p.adapter == Adapter::OnchainSecondary
            || p.adapter == Adapter::OnchainTertiary || p.adapter == Adapter::OnchainOptimism
            || p.adapter == Adapter::OnchainArbitrum) ==> onchain_entries(s.push(p))
            == onchain_entries(s) + 1,
        (p.adapter == Adapter::Snapshot || p.adapter == Adapter::Archive) ==> onchain_entries(
            s.push(p),
        ) == onchain_entries(s),
        p.adapter == Adapter::Snapshot ==> sum_quorum(s.push(p), true) == sum_quorum(s, true)
            + p.quorum && sum_quorum(s.push(p), false) == sum_quorum(s, false) && sum_votes(
            s.push(p),
            true,
        ) == sum_votes(s, true) + p.total_votes && sum_votes(s.push(p), false) == sum_votes(
            s,
            false,
        ),
        p.adapter != Adapter::Snapshot ==> sum_quorum(s.push(p), false) == sum_quorum(s, false)
            + p.quorum && sum_quorum(s.push(p), true) == sum_quorum(s, true) && sum_votes(
            s.push(p),
            false,
        ) == sum_votes(s, false) + p.total_votes && sum_votes(s.push(p), true) == sum_votes(
            s,
            true,
        ),
{
    assert(s.push(p).drop_last() =~= s);
    assert forall|a: Adapter|
        #[trigger] count_adapter(s.push(p), a) == count_adapter(s, a) + if p.adapter == a {
            1nat
        } else {
            0nat
        } by {
        assert(s.push(p).drop_last() =~= s);
    }
}

/// Every proposal is voted on chain, on Snapshot, or archived: the on-chain
/// vote sum, the Snapshot vote sum and the votes of archived proposals add up
/// to all the votes.
pub proof fn lemma_vote_sums_cover(s: Seq<ProposalObject>)
    ensures
        onchain_votes(s) + snapshot_votes(s) + weight_sum(
            s,
            |p: ProposalObject| if p.adapter == Adapter::Archive { p.total_votes as nat } else { 0nat },
        ) == weight_sum(s, |p: ProposalObject| p.total_votes as nat),
    decreases s.len(),
{
    if s.len() > 0 {
        lemma_vote_sums_cover(s.drop_last());
    }
}

/// A DAO is reported exactly when it has a proposal list of at least five,
/// and a DAO with more proposals than a reported one is reported too.
pub proof fn lemma_reported_exactly(r: ProposalResponse, q: ProposalResponse)
    ensures
        reported(r) <==> (r.data is Some && r.data->0.len() >= 5),
        reported(r) && q.data is Some && q.data->0.len() >= r.data->0.len() ==> reported(q),
{
}

/// An average is the largest number that, times the count, stays within the
/// sum; with no items it is zero.
pub proof fn lemma_average(sum: nat, count: nat)
    ensures
        count == 0 ==> average(sum, count) == 0,
        count > 0 ==> average(sum, count) * count <= sum < (average(sum, count) + 1) * count,
{
    if count > 0 {
        let q = average(sum, count);
        assert(q * count <= sum < (q + 1) * count) by (nonlinear_arith)
            requires
                q as int == (sum as int) / (count as int),
                count > 0,
        ;
    }
}

/// A vote sum is worth 2^128 per wrap.
pub proof fn lemma_wrap_weight()
    ensures
        wrap_weight() == 0x1_0000_0000_0000_0000_0000_0000_0000_0000nat,
        forall|v: VoteSum| #[trigger] v.value() == v.wraps * 0x1_0000_0000_0000_0000_0000_0000_0000_0000nat
            + v.low,
{
}

/// The tally of no proposals: every count and both vote sums are zero, and
/// there is neither an oldest nor a newest start.
pub proof fn lemma_tally_empty(t: ProposalTally)
    requires
        tally_of(t, Seq::<ProposalObject>::empty()),
    ensures
        t.proposals == 0 && t.pending == 0 && t.active == 0 && t.queued == 0 && t.executed == 0
            && t.canceled == 0 && t.closed == 0,
        t.onchain_entries == 0 && t.onchain_upgrade == 0 && t.onchain_secondary == 0
            && t.onchain_tertiary == 0 && t.onchain_optimism == 0 && t.onchain_arbitrum == 0
            && t.snapshot == 0,
        t.onchain_votes.value() == 0 && t.snapshot_votes.value() == 0,
        t.earliest_start is None && t.latest_start is None,
{
}

/// A DAO's tally grows with each proposal by what that proposal brings: one
/// more proposal; one more in the column of its state; one more in the
/// column of its adapter (`Onchain` making two on-chain entries, each
/// `Onchain*` variant one, `Snapshot` and `Archive` none); its votes to the
/// on-chain sum unless it is on Snapshot or archived, and to the Snapshot sum
/// when it is on Snapshot; and its start to the oldest and newest start.
pub proof fn lemma_tally_push(
    t1: ProposalTally,
    s: Seq<ProposalObject>,
    t2: ProposalTally,
    p: ProposalObject,
)
    requires
        tally_of(t1, s),
        tally_of(t2, s.push(p)),
    ensures
        t2.proposals == t1.proposals + 1,
        t2.pending == t1.pending + if p.current_state == ProposalState::PENDING {
            1int
        } else {
            0int
        },
        t2.active == t1.active + if p.current_state == ProposalState::ACTIVE {
            1int
        } else {
            0int
        },
        t2.queued == t1.queued + if p.current_state == ProposalState::QUEUED {
            1int
        } else {
            0int
        },
        t2.executed == t1.executed + if p.current_state == ProposalState::EXECUTED {
            1int
        } else {
            0int
        },
        t2.canceled == t1.canceled + if p.current_state == ProposalState::CANCELED {
            1int
        } else {
            0int
        },
        t2.closed == t1.closed + if p.current_state == ProposalState::CLOSED {
            1int
        } else {
            0int
        },
        t2.onchain_entries == t1.onchain_entries + if p.adapter == Adapter::Onchain {
            2int
        } else if p.adapter == Adapter::Snapshot || p.adapter == Adapter::Archive {
            0int
        } else {
            1int
        },
        t2.onchain_upgrade == t1.onchain_upgrade + if p.adapter == Adapter::OnchainUpgrade {
            1int
        } else {
            0int
        },
        t2.onchain_secondary == t1.onchain_secondary + if p.adapter == Adapter::OnchainSecondary {
            1int
        } else {
            0int
        },
        t2.onchain_tertiary == t1.onchain_tertiary + if p.adapter == Adapter::OnchainTertiary {
            1int
        } else {
            0int
        },
        t2.onchain_optimism == t1.onchain_optimism + if p.adapter == Adapter::OnchainOptimism {
            1int
        } else {
            0int
        },
        t2.onchain_arbitrum == t1.onchain_arbitrum + if p.adapter == Adapter::OnchainArbitrum {
            1int
        } else {
            0int
        },
        t2.snapshot == t1.snapshot + if p.adapter == Adapter::Snapshot {
            1int
        } else {
            0int
        },
        t2.onchain_votes.value() == t1.onchain_votes.value() + if p.adapter == Adapter::Snapshot
            || p.adapter == Adapter::Archive {
            0int
        } else {
            p.total_votes as int
        },
        t2.snapshot_votes.value() == t1.snapshot_votes.value() + if p.adapter
            == Adapter::Snapshot {
            p.total_votes as int
        } else {
            0int
        },
        t2.earliest_start == Some(
            match t1.earliest_start {
                Some(e) => if p.start_timestamp < e {
                    p.start_timestamp
                } else {
                    e
                },
                None => p.start_timestamp,
            },
        ),
        t2.latest_start == Some(
            match t1.latest_start {
                Some(l) => if p.start_timestamp > l {
                    p.start_timestamp
                } else {
                    l
                },
                None => p.start_timestamp,
            },
        ),
{
    lemma_figures_push(s, p);
    let s2 = s.push(p);
    let n = s.len() as int;
    assert(s2[n] == p);
    let e2 = t2.earliest_start->0;
    let l2 = t2.latest_start->0;
    assert(e2 <= s2[n].start_timestamp);
    assert(s2[n].start_timestamp <= l2);
    let ke = choose|k: int| 0 <= k < s2.len() && s2[k].start_timestamp == e2;
    let kl = choose|k: int| 0 <= k < s2.len() && s2[k].start_timestamp == l2;
    if let Some(e1) = t1.earliest_start {
        let w = choose|k: int| 0 <= k < s.len() && s[k].start_timestamp == e1;
        assert(s2[w] == s[w]);
        assert(e2 <= s2[w].start_timestamp);
        if ke < n {
            assert(s2[ke] == s[ke]);
            assert(e1 <= s[ke].start_timestamp);
        }
    } else {
        assert(ke == n);
    }
    if let Some(l1) = t1.latest_start {
        let w = choose|k: int| 0 <= k < s.len() && s[k].start_timestamp == l1;
        assert(s2[w] == s[w]);
        assert(s2[w].start_timestamp <= l2);
        if kl < n {
            assert(s2[kl] == s[kl]);
            assert(s[kl].start_timestamp <= l1);
        }
    } else {
        assert(kl == n);
    }
}

/// The quorum row of a single proposal: a Snapshot proposal fills the
/// Snapshot half with its own quorum and votes and leaves the other half at
/// zero; any other proposal does the reverse.
pub proof fn lemma_quorum_single(row: QuorumRow, p: ProposalObject)
    requires
        quorum_of(row, seq![p]),
    ensures
        p.adapter == Adapter::Snapshot ==> row.snapshot_count == 1 && row.other_count == 0
            && row.snapshot_quorum == p.quorum && row.snapshot_voters == p.total_votes
            && row.other_quorum == 0 && row.other_voters == 0,
        p.adapter != Adapter::Snapshot ==> row.snapshot_count == 0 && row.other_count == 1
            && row.snapshot_quorum == 0 && row.snapshot_voters == 0 && row.other_quorum
            == p.quorum && row.other_voters == p.total_votes,
{
    let e = Seq::<ProposalObject>::empty();
    lemma_figures_push(e, p);
    assert(e.push(p) =~= seq![p]);
    let (q, v) = (p.quorum as nat, p.total_votes as nat);
    assert(q / 1 == q && v / 1 == v) by (nonlinear_arith);
}

} // verus!
