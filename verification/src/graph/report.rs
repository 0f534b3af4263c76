//! The two per-DAO subgraph tables: activity (proposal counts by state, the
//! oldest and newest proposal, delegates per proposal) and outcomes (voting
//! power and voters on the winning side of finished proposals).

use vstd::prelude::*;
use crate::dates::{day_not_after, lemma_utc_date_monotone, utc_date, utc_day, utc_day_text};
use crate::graph::{ProposalData, ProposalQueryResponse, ProposalState};

verus! {

/// The number of proposals of `s` in state `st`.
pub open spec fn count_state(s: Seq<ProposalData>, st: ProposalState) -> nat
    decreases s.len(),
{
    if s.len() == 0 {
        0
    } else {
        count_state(s.drop_last(), st) + if s.last().state == st {
            1nat
        } else {
            0nat
        }
    }
}

/// The sum over the proposals of `s` of their delegates at start divided by
/// `n` (each quotient rounded down).
pub open spec fn delegate_shares(s: Seq<ProposalData>, n: nat) -> nat
    decreases s.len(),
{
    if s.len() == 0 {
        0
    } else {
        delegate_shares(s.drop_last(), n) + (s.last().delegates_at_start as nat) / n
    }
}

/// `t` is the earliest creation time among the proposals of `s`.
pub open spec fn is_earliest_creation(s: Seq<ProposalData>, t: u32) -> bool {
    &&& exists|i: int| 0 <= i < s.len() && s[i].creation_time == t
    &&& forall|i: int| 0 <= i < s.len() ==> t <= #[trigger] s[i].creation_time
}

/// `t` is the latest creation time among the proposals of `s`.
pub open spec fn is_latest_creation(s: Seq<ProposalData>, t: u32) -> bool {
    &&& exists|i: int| 0 <= i < s.len() && s[i].creation_time == t
    &&& forall|i: int| 0 <= i < s.len() ==> #[trigger] s[i].creation_time <= t
}

/// The activity figures of one DAO.
#[derive(Clone, Debug)]
pub struct ActivityRow {
    /// The number of proposals that the governance contract reports.
    pub proposals: u128,
    pub pending: usize,
    pub active: usize,
    pub queued: usize,
    pub executed: usize,
    pub canceled: usize,
    /// The day of the earliest creation time.
    pub oldest: String,
    /// The day of the latest creation time.
    pub newest: String,
    /// The sum over the proposals of delegates at start per reported proposal.
    pub avg_delegates: u128,
}

/// The activity table has a row for `r`: there is a governance contract
/// reporting some proposals, the answer lists proposals, and the delegate
/// shares add up within a `u128`.
pub open spec fn activity_defined(r: ProposalQueryResponse) -> bool {
    &&& r.governances.len() > 0
    &&& r.proposals.len() > 0
    &&& r.governances[0].proposals > 0
    &&& delegate_shares(r.proposals@, r.governances[0].proposals as nat) <= u128::MAX
}

/// `row` is the activity row of `r`.
pub open spec fn activity_of(row: ActivityRow, r: ProposalQueryResponse) -> bool {
    let s = r.proposals@;
    let n = r.governances[0].proposals;
    &&& row.proposals == n as u128
    &&& row.pending == count_state(s, ProposalState::PENDING)
    &&& row.active == count_state(s, ProposalState::ACTIVE)
    &&& row.queued == count_state(s, ProposalState::QUEUED)
    &&& row.executed == count_state(s, ProposalState::EXECUTED)
    &&& row.canceled == count_state(s, ProposalState::CANCELED)
    &&& exists|e: u32| is_earliest_creation(s, e) && row.oldest@ == utc_day_text(e)
    &&& exists|l: u32| is_latest_creation(s, l) && row.newest@ == utc_day_text(l)
    &&& row.avg_delegates == delegate_shares(s, n as nat)
}

proof fn lemma_prefix_step(s: Seq<ProposalData>, i: int)
    requires
        0 <= i < s.len(),
    ensures
        s.take(i + 1).drop_last() == s.take(i),
        s.take(i + 1).last() == s[i],
{
    assert(s.take(i + 1).drop_last() =~= s.take(i));
}

/// Over longer prefixes the delegate shares never decrease.
proof fn lemma_delegate_shares_monotone(s: Seq<ProposalData>, n: nat, k: int, m: int)
    requires
        0 <= k <= m <= s.len(),
        n > 0,
    ensures
        delegate_shares(s.take(k), n) <= delegate_shares(s.take(m), n),
    decreases m - k,
{
    if k < m {
        lemma_prefix_step(s, m - 1);
        lemma_delegate_shares_monotone(s, n, k, m - 1);
    }
}

fn flag(st: ProposalState, target: ProposalState) -> (d: usize)
    ensures
        d == if st == target { 1usize } else { 0usize },
{
    if st == target {
        1
    } else {
        0
    }
}

/// The activity row of `r`, or `None` where the table has no row for it.
pub fn checked_activity_row(r: &ProposalQueryResponse) -> (row: Option<ActivityRow>)
    ensures
        row is Some <==> activity_defined(*r),
        row matches Some(x) ==> activity_of(x, *r),
{
    if r.governances.len() == 0 || r.proposals.len() == 0 {
        return None;
    }
    let n32 = r.governances[0].proposals;
    if n32 == 0 {
        return None;
    }
    let n = n32 as u128;
    let ghost s = r.proposals@;
    let len = r.proposals.len();
    let mut pending: usize = 0;
    let mut active: usize = 0;
    let mut queued: usize = 0;
    let mut executed: usize = 0;
    let mut canceled: usize = 0;
    let mut earliest: u32 = r.proposals[0].creation_time;
    let mut latest: u32 = r.proposals[0].creation_time;
    let mut shares: u128 = 0;
    let mut i: usize = 0;
    assert(s.take(0) =~= Seq::<ProposalData>::empty());
    while i < len
        invariant
            s == r.proposals@,
            len == s.len(),
            len > 0,
            n == r.governances[0].proposals as u128,
            n > 0,
            0 <= i <= len,
            pending + active + queued + executed + canceled == i,
            pending == count_state(s.take(i as int), ProposalState::PENDING),
            active == count_state(s.take(i as int), ProposalState::ACTIVE),
            queued == count_state(s.take(i as int), ProposalState::QUEUED),
            executed == count_state(s.take(i as int), ProposalState::EXECUTED),
            canceled == count_state(s.take(i as int), ProposalState::CANCELED),
            shares == delegate_shares(s.take(i as int), n as nat),
            exists|k: int| 0 <= k < len && s[k].creation_time == earliest,
            exists|k: int| 0 <= k < len && s[k].creation_time == latest,
            forall|k: int| 0 <= k < i ==> earliest <= #[trigger] s[k].creation_time,
            forall|k: int| 0 <= k < i ==> #[trigger] s[k].creation_time <= latest,
            i == 0 ==> earliest == s[0].creation_time && latest == s[0].creation_time,
        decreases len - i,
    {
        let p = &r.proposals[i];
        proof {
            lemma_prefix_step(s, i as int);
        }
        let st = p.state;
        pending = pending + flag(st, ProposalState::PENDING);
        active = active + flag(st, ProposalState::ACTIVE);
        queued = queued + flag(st, ProposalState::QUEUED);
        executed = executed + flag(st, ProposalState::EXECUTED);
        canceled = canceled + flag(st, ProposalState::CANCELED);
        let share = p.delegates_at_start / n;
        match shares.checked_add(share) {
            Some(x) => {
                shares = x;
            },
            None => {
                proof {
                    lemma_delegate_shares_monotone(s, n as nat, i + 1, len as int);
                    assert(s.take(len as int) =~= s);
                }
                return None;
            },
        }
        let c = p.creation_time;
        if c < earliest {
            earliest = c;
        }
        if c > latest {
            latest = c;
        }
        i = i + 1;
    }
    assert(s.take(len as int) =~= s);
    let row = ActivityRow {
        proposals: n,
        pending,
        active,
        queued,
        executed,
        canceled,
        oldest: utc_day(earliest),
        newest: utc_day(latest),
        avg_delegates: shares,
    };
    assert(is_earliest_creation(s, earliest));
    assert(is_latest_creation(s, latest));
    Some(row)
}

/// The activity row of `r`.
pub fn activity_row(r: &ProposalQueryResponse) -> (row: ActivityRow)
    requires
        activity_defined(*r),
    ensures
        activity_of(row, *r),
{
    match checked_activity_row(r) {
        Some(x) => x,
        None => {
            proof {
                assert(false);
            }
            ActivityRow {
                proposals: 0,
                pending: 0,
                active: 0,
                queued: 0,
                executed: 0,
                canceled: 0,
                oldest: String::new(),
                newest: String::new(),
                avg_delegates: 0,
            }
        },
    }
}

/// The proposal has been decided: queued, executed or canceled.
pub open spec fn is_finished(p: ProposalData) -> bool {
    p.state == ProposalState::QUEUED || p.state == ProposalState::EXECUTED || p.state
        == ProposalState::CANCELED
}

/// The voting power on the winning side of a decided proposal: the votes for
/// it when it passed (queued or executed), the votes against it when it was
/// canceled.
pub open spec fn winning_power(p: ProposalData) -> nat {
    if p.state == ProposalState::QUEUED || p.state == ProposalState::EXECUTED {
        p.for_weighted_votes as nat
    } else if p.state == ProposalState::CANCELED {
        p.against_weighted_votes as nat
    } else {
        0
    }
}

/// The number of delegates on the winning side of a decided proposal.
pub open spec fn winning_voters(p: ProposalData) -> nat {
    if p.state == ProposalState::QUEUED || p.state == ProposalState::EXECUTED {
        p.for_delegate_votes as nat
    } else if p.state == ProposalState::CANCELED {
        p.against_delegate_votes as nat
    } else {
        0
    }
}

/// The number of decided proposals of `s`.
pub open spec fn count_finished(s: Seq<ProposalData>) -> nat
    decreases s.len(),
{
    if s.len() == 0 {
        0
    } else {
        count_finished(s.drop_last()) + if is_finished(s.last()) {
            1nat
        } else {
            0nat
        }
    }
}

/// The winning voting power summed over `s`.
pub open spec fn sum_winning_power(s: Seq<ProposalData>) -> nat
    decreases s.len(),
{
    if s.len() == 0 {
        0
    } else {
        sum_winning_power(s.drop_last()) + winning_power(s.last())
    }
}

/// The winning voters summed over `s`.
pub open spec fn sum_winning_voters(s: Seq<ProposalData>) -> nat
    decreases s.len(),
{
    if s.len() == 0 {
        0
    } else {
        sum_winning_voters(s.drop_last()) + winning_voters(s.last())
    }
}

/// One whole token in the smallest unit: 10^18.
pub open spec fn token_unit() -> nat {
    1_000_000_000_000_000_000nat
}

/// The outcome figures of one DAO.
#[derive(Clone, Copy, Debug, PartialEq, Eq, Structural)]
pub struct OutcomeRow {
    /// The number of decided proposals.
    pub finished: u128,
    /// The winning voting power per decided proposal, in whole tokens.
    pub avg_winning_power: u128,
    /// The winning delegates per decided proposal.
    pub avg_winning_voters: u128,
}

/// The outcome table has a row for the proposals `s`: some are decided and
/// the winning sums fit in a `u128`.
pub open spec fn outcome_defined(s: Seq<ProposalData>) -> bool {
    &&& count_finished(s) > 0
    &&& sum_winning_power(s) <= u128::MAX
    &&& sum_winning_voters(s) <= u128::MAX
}

/// `row` is the outcome row of the proposals `s`.
pub open spec fn outcome_of(row: OutcomeRow, s: Seq<ProposalData>) -> bool {
    &&& row.finished == count_finished(s)
    &&& row.avg_winning_power == sum_winning_power(s) / count_finished(s) / token_unit()
    &&& row.avg_winning_voters == sum_winning_voters(s) / count_finished(s)
}

proof fn lemma_sums_monotone(s: Seq<ProposalData>, k: int, m: int)
    requires
        0 <= k <= m <= s.len(),
    ensures
        sum_winning_power(s.take(k)) <= sum_winning_power(s.take(m)),
        sum_winning_voters(s.take(k)) <= sum_winning_voters(s.take(m)),
    decreases m - k,
{
    if k < m {
        lemma_prefix_step(s, m - 1);
        lemma_sums_monotone(s, k, m - 1);
    }
}

/// The winning side of one proposal: (decided, power, voters).
fn winning_side(p: &ProposalData) -> (r: (u128, u128, u128))
    ensures
        r.0 == if is_finished(*p) { 1u128 } else { 0u128 },
        r.1 == winning_power(*p),
        r.2 == winning_voters(*p),
{
    match p.state {
        ProposalState::QUEUED => (1, p.for_weighted_votes, p.for_delegate_votes),
        ProposalState::EXECUTED => (1, p.for_weighted_votes, p.for_delegate_votes),
        ProposalState::CANCELED => (1, p.against_weighted_votes, p.against_delegate_votes),
        _ => (0, 0, 0),
    }
}

/// The outcome row of the proposals of `r`, or `None` where the table has no
/// row for them.
pub fn checked_outcome_row(r: &ProposalQueryResponse) -> (row: Option<OutcomeRow>)
    ensures
        row is Some <==> outcome_defined(r.proposals@),
        row matches Some(x) ==> outcome_of(x, r.proposals@),
{
    let ghost s = r.proposals@;
    let len = r.proposals.len();
    let mut finished: u128 = 0;
    let mut power: u128 = 0;
    let mut voters: u128 = 0;
    let mut power_fits = true;
    let mut voters_fit = true;
    let mut i: usize = 0;
    assert(s.take(0) =~= Seq::<ProposalData>::empty());
    while i < len
        invariant
            s == r.proposals@,
            len == s.len(),
            0 <= i <= len,
            finished == count_finished(s.take(i as int)),
            finished <= i,
            power_fits ==> power == sum_winning_power(s.take(i as int)),
            !power_fits ==> sum_winning_power(s.take(i as int)) > u128::MAX,
            voters_fit ==> voters == sum_winning_voters(s.take(i as int)),
            !voters_fit ==> sum_winning_voters(s.take(i as int)) > u128::MAX,
        decreases len - i,
    {
        let p = &r.proposals[i];
        proof {
            lemma_prefix_step(s, i as int);
            lemma_sums_monotone(s, i as int, i + 1);
        }
        let (f, w, v) = winning_side(p);
        finished = finished + f;
        if power_fits {
            match power.checked_add(w) {
                Some(x) => {
                    power = x;
                },
                None => {
                    power_fits = false;
                },
            }
        }
        if voters_fit {
            match voters.checked_add(v) {
                Some(x) => {
                    voters = x;
                },
                None => {
                    voters_fit = false;
                },
            }
        }
        i = i + 1;
    }
    assert(s.take(len as int) =~= s);
    if finished == 0 || !power_fits || !voters_fit {
        return None;
    }
    Some(
        OutcomeRow {
            finished,
            avg_winning_power: power / finished / 1_000_000_000_000_000_000u128,
            avg_winning_voters: voters / finished,
        },
    )
}

/// The outcome row of the proposals of `r`.
pub fn outcome_row(r: &ProposalQueryResponse) -> (row: OutcomeRow)
    requires
        outcome_defined(r.proposals@),
    ensures
        outcome_of(row, r.proposals@),
{
    match checked_outcome_row(r) {
        Some(x) => x,
        None => {
            proof {
                assert(false);
            }
            OutcomeRow { finished: 0, avg_winning_power: 0, avg_winning_voters: 0 }
        },
    }
}


/// Every proposal has exactly one state: the counts by state add up to the
/// number of proposals.
pub proof fn lemma_states_partition(s: Seq<ProposalData>)
    ensures
        count_state(s, ProposalState::PENDING) + count_state(s, ProposalState::ACTIVE)
            + count_state(s, ProposalState::QUEUED) + count_state(s, ProposalState::EXECUTED)
            + count_state(s, ProposalState::CANCELED) == s.len(),
    decreases s.len(),
{
    if s.len() > 0 {
        lemma_states_partition(s.drop_last());
    }
}

/// The decided proposals are exactly the queued, executed and canceled ones.
pub proof fn lemma_finished_states(s: Seq<ProposalData>)
    ensures
        count_finished(s) == count_state(s, ProposalState::QUEUED) + count_state(
            s,
            ProposalState::EXECUTED,
        ) + count_state(s, ProposalState::CANCELED),
    decreases s.len(),
{
    if s.len() > 0 {
        lemma_finished_states(s.drop_last());
    }
}

/// Of an activity row: the counts by state add up to the number of listed
/// proposals, and the oldest proposal is not newer than the newest, nor is
/// the calendar day written for it after the newest one's.
pub proof fn lemma_activity_consistent(row: ActivityRow, r: ProposalQueryResponse)
    requires
        activity_defined(r),
        activity_of(row, r),
    ensures
        row.pending + row.active + row.queued + row.executed + row.canceled == r.proposals.len(),
        exists|e: u32, l: u32|
            is_earliest_creation(r.proposals@, e) && is_latest_creation(r.proposals@, l) && e
                <= l && day_not_after(utc_date(e), utc_date(l)) && row.oldest@ == utc_day_text(e)
                && row.newest@ == utc_day_text(l),
{
    let s = r.proposals@;
    lemma_states_partition(s);
    let e = choose|e: u32| is_earliest_creation(s, e) && row.oldest@ == utc_day_text(e);
    let l = choose|l: u32| is_latest_creation(s, l) && row.newest@ == utc_day_text(l);
    let w = choose|k: int| 0 <= k < s.len() && s[k].creation_time == e;
    assert(s[w].creation_time <= l);
    lemma_utc_date_monotone(e, l);
}

/// Of an outcome row: every decided proposal is queued, executed or canceled,
/// so the decided count is the sum of those three state counts.
pub proof fn lemma_outcome_finished(row: OutcomeRow, s: Seq<ProposalData>)
    requires
        outcome_of(row, s),
    ensures
        row.finished == count_state(s, ProposalState::QUEUED) + count_state(
            s,
            ProposalState::EXECUTED,
        ) + count_state(s, ProposalState::CANCELED),
{
    lemma_finished_states(s);
}

/// The decided proposals of `s`, in their order.
pub open spec fn decided(s: Seq<ProposalData>) -> Seq<ProposalData>
    decreases s.len(),
{
    if s.len() == 0 {
        Seq::empty()
    } else if is_finished(s.last()) {
        decided(s.drop_last()).push(s.last())
    } else {
        decided(s.drop_last())
    }
}

/// The outcome figures read only the decided proposals.
proof fn lemma_outcome_sums_decided(s: Seq<ProposalData>)
    ensures
        count_finished(s) == count_finished(decided(s)),
        sum_winning_power(s) == sum_winning_power(decided(s)),
        sum_winning_voters(s) == sum_winning_voters(decided(s)),
    decreases s.len(),
{
    if s.len() > 0 {
        lemma_outcome_sums_decided(s.drop_last());
        let d = decided(s.drop_last());
        if is_finished(s.last()) {
            assert(d.push(s.last()).drop_last() =~= d);
        }
    }
}

/// Proposals with the same decided proposals in the same order have the same
/// outcome figures, the same outcome row, and an outcome row alike defined:
/// pending and active proposals, wherever they stand, change nothing.
pub proof fn lemma_outcome_ignores_undecided(s1: Seq<ProposalData>, s2: Seq<ProposalData>)
    requires
        decided(s1) == decided(s2),
    ensures
        count_finished(s1) == count_finished(s2),
        sum_winning_power(s1) == sum_winning_power(s2),
        sum_winning_voters(s1) == sum_winning_voters(s2),
        outcome_defined(s1) <==> outcome_defined(s2),
        forall|row: OutcomeRow| outcome_of(row, s1) <==> outcome_of(row, s2),
{
    lemma_outcome_sums_decided(s1);
    lemma_outcome_sums_decided(s2);
}

/// Inserting a pending or active proposal anywhere leaves the decided
/// proposals as they were.
pub proof fn lemma_decided_insert_undecided(s: Seq<ProposalData>, k: int, p: ProposalData)
    requires
        0 <= k <= s.len(),
        !is_finished(p),
    ensures
        decided(s.insert(k, p)) == decided(s),
    decreases s.len(),
{
    let t = s.insert(k, p);
    if k == s.len() {
        assert(t.drop_last() =~= s);
    } else {
        assert(t.drop_last() =~= s.drop_last().insert(k, p));
        assert(t.last() == s.last());
        lemma_decided_insert_undecided(s.drop_last(), k, p);
    }
}

/// Adding a pending or active proposal to a DAO's proposals, or removing one,
/// leaves the decided count, both winning sums and the outcome row unchanged.
pub proof fn lemma_outcome_insert_undecided(s: Seq<ProposalData>, k: int, p: ProposalData)
    requires
        0 <= k <= s.len(),
        p.state == ProposalState::PENDING || p.state == ProposalState::ACTIVE,
    ensures
        count_finished(s.insert(k, p)) == count_finished(s),
        sum_winning_power(s.insert(k, p)) == sum_winning_power(s),
        sum_winning_voters(s.insert(k, p)) == sum_winning_voters(s),
        outcome_defined(s.insert(k, p)) <==> outcome_defined(s),
        forall|row: OutcomeRow| outcome_of(row, s.insert(k, p)) <==> outcome_of(row, s),
{
    lemma_decided_insert_undecided(s, k, p);
    lemma_outcome_ignores_undecided(s.insert(k, p), s);
}

/// No proposals give no figures.
pub proof fn lemma_figures_empty(n: nat)
    ensures
        forall|st: ProposalState| count_state(Seq::<ProposalData>::empty(), st) == 0,
        delegate_shares(Seq::<ProposalData>::empty(), n) == 0,
        count_finished(Seq::<ProposalData>::empty()) == 0,
        sum_winning_power(Seq::<ProposalData>::empty()) == 0,
        sum_winning_voters(Seq::<ProposalData>::empty()) == 0,
{
}

/// One more proposal `p` changes each figure by what `p` itself brings: one
/// to the count of its own state and nothing to the others; its delegates at
/// start divided by `n` to the delegate shares; one to the decided count when
/// it is queued, executed or canceled and nothing when it is pending or
/// active; and its own winning power and voters to the winning sums.
pub proof fn lemma_figures_push(s: Seq<ProposalData>, p: ProposalData, n: nat)
    ensures
        forall|st: ProposalState|
            #[trigger] count_state(s.push(p), st) == count_state(s, st) + if p.state == st {
                1nat
            } else {
                0nat
            },
        delegate_shares(s.push(p), n) == delegate_shares(s, n) + (p.delegates_at_start as nat)
            / n,
        (p.state == ProposalState::QUEUED || p.state == ProposalState::EXECUTED || p.state
            == ProposalState::CANCELED) ==> count_finished(s.push(p)) == count_finished(s) + 1,
        (p.state == ProposalState::PENDING || p.state == ProposalState::ACTIVE) ==> count_finished(
            s.push(p),
        ) == count_finished(s),
        sum_winning_power(s.push(p)) == sum_winning_power(s) + winning_power(p),
        sum_winning_voters(s.push(p)) == sum_winning_voters(s) + winning_voters(p),
{
    assert(s.push(p).drop_last() =~= s);
}

/// The winning side of a proposal, read off its fields: the votes and
/// delegates for it when it is queued or executed, against it when it is
/// canceled, and none while it is pending or active; a whole token is 10^18
/// of the smallest unit.
pub proof fn lemma_winning_side(p: ProposalData)
    ensures
        (p.state == ProposalState::QUEUED || p.state == ProposalState::EXECUTED) ==> winning_power(
            p,
        ) == p.for_weighted_votes && winning_voters(p) == p.for_delegate_votes,
        p.state == ProposalState::CANCELED ==> winning_power(p) == p.against_weighted_votes
            && winning_voters(p) == p.against_delegate_votes,
        (p.state == ProposalState::PENDING || p.state == ProposalState::ACTIVE) ==> winning_power(
            p,
        ) == 0 && winning_voters(p) == 0,
        token_unit() == 1_000_000_000_000_000_000nat,
{
}

/// The outcome row of a single decided proposal: one decided proposal, its
/// winning power in whole tokens (rounded down) and its winning delegates,
/// which are the votes for it when it passed and against it when it was
/// canceled.
pub proof fn lemma_outcome_single(row: OutcomeRow, p: ProposalData)
    requires
        outcome_of(row, seq![p]),
        is_finished(p),
    ensures
        row.finished == 1,
        p.state == ProposalState::CANCELED ==> row.avg_winning_power == p.against_weighted_votes
            / 1_000_000_000_000_000_000u128 && row.avg_winning_voters == p.against_delegate_votes,
        p.state != ProposalState::CANCELED ==> row.avg_winning_power == p.for_weighted_votes
            / 1_000_000_000_000_000_000u128 && row.avg_winning_voters == p.for_delegate_votes,
{
    let s = seq![p];
    lemma_figures_push(Seq::<ProposalData>::empty(), p, 1);
    assert(Seq::<ProposalData>::empty().push(p) =~= s);
    lemma_winning_side(p);
    let w = sum_winning_power(s);
    let v = sum_winning_voters(s);
    assert(count_finished(s) == 1);
    assert(w == winning_power(p));
    assert(v == winning_voters(p));
    assert(w / 1 == w && v / 1 == v) by (nonlinear_arith);
}

/// The activity row grows with each proposal by what that proposal brings:
/// one more in the column of its state and nothing in the others, and its
/// delegates at start per reported proposal (rounded down) to the delegate
/// figure; the number of proposals that the contract reports stays.
pub proof fn lemma_activity_push(
    row1: ActivityRow,
    r1: ProposalQueryResponse,
    row2: ActivityRow,
    r2: ProposalQueryResponse,
    p: ProposalData,
)
    requires
        r1.governances.len() > 0,
        r2.governances.len() > 0,
        r2.governances[0].proposals == r1.governances[0].proposals,
        r2.proposals@ == r1.proposals@.push(p),
        activity_of(row1, r1),
        activity_of(row2, r2),
    ensures
        row2.proposals == row1.proposals,
        row2.pending == row1.pending + if p.state == ProposalState::PENDING {
            1int
        } else {
            0int
        },
        row2.active == row1.active + if p.state == ProposalState::ACTIVE {
            1int
        } else {
            0int
        },
        row2.queued == row1.queued + if p.state == ProposalState::QUEUED {
            1int
        } else {
            0int
        },
        row2.executed == row1.executed + if p.state == ProposalState::EXECUTED {
            1int
        } else {
            0int
        },
        row2.canceled == row1.canceled + if p.state == ProposalState::CANCELED {
            1int
        } else {
            0int
        },
        row2.avg_delegates == row1.avg_delegates + (p.delegates_at_start as nat) / (
        r1.governances[0].proposals as nat),
{
    let n = r1.governances[0].proposals as nat;
    lemma_figures_push(r1.proposals@, p, n);
    let a = delegate_shares(r1.proposals@, n);
    let b = (p.delegates_at_start as nat) / n;
    let c = delegate_shares(r2.proposals@, n);
    let (u, v) = (row1.avg_delegates as int, row2.avg_delegates as int);
    assert(v == u + b) by (nonlinear_arith)
        requires
            u == a,
            v == c,
            c == a + b,
    ;
}

/// The activity row of a single proposal: one in the column of its state,
/// its creation day as both the oldest and the newest, and its delegates at
/// start per reported proposal (rounded down).
pub proof fn lemma_activity_single(row: ActivityRow, r: ProposalQueryResponse, p: ProposalData)
    requires
        r.governances.len() > 0,
        r.proposals@ == seq![p],
        activity_of(row, r),
    ensures
        row.pending == if p.state == ProposalState::PENDING { 1int } else { 0int },
        row.active == if p.state == ProposalState::ACTIVE { 1int } else { 0int },
        row.queued == if p.state == ProposalState::QUEUED { 1int } else { 0int },
        row.executed == if p.state == ProposalState::EXECUTED { 1int } else { 0int },
        row.canceled == if p.state == ProposalState::CANCELED { 1int } else { 0int },
        row.oldest@ == utc_day_text(p.creation_time),
        row.newest@ == utc_day_text(p.creation_time),
        row.avg_delegates == (p.delegates_at_start as nat) / (r.governances[0].proposals as nat),
{
    let e = Seq::<ProposalData>::empty();
    let n = r.governances[0].proposals as nat;
    lemma_figures_push(e, p, n);
    assert(e.push(p) =~= seq![p]);
    let s = r.proposals@;
    let a = delegate_shares(e, n);
    let b = (p.delegates_at_start as nat) / n;
    assert(delegate_shares(s, n) == a + b);
    assert(a + b == b) by (nonlinear_arith)
        requires
            a == 0,
    ;
    let x = choose|x: u32| is_earliest_creation(s, x) && row.oldest@ == utc_day_text(x);
    let y = choose|y: u32| is_latest_creation(s, y) && row.newest@ == utc_day_text(y);
    assert(s[0] == p);
}

} // verus!
