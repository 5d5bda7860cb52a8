//! Batch scheduling: which block ranges one cycle fetches for a contract, and
//! how far its cursor may move once those ranges have been applied.

use vstd::prelude::*;

verus! {

/// Largest number of blocks one log query covers.
pub const BLOCK_BATCH_SIZE: u64 = 100;

/// Largest number of ranges one cycle runs for one contract.
pub const PARALLEL_BATCHES: u64 = 10;

/// Seconds the loop waits between cycles once every chain is caught up.
pub const POLL_INTERVAL_SECS: u64 = 2;

/// An inclusive range of block numbers.
#[derive(Clone, Copy, Debug, PartialEq, Eq, Structural)]
pub struct BlockRange {
    pub from: u64,
    pub to: u64,
}

/// The end of a range that starts at `from`: `size` blocks, cut at the tip.
pub open spec fn range_end(from: int, tip: int, size: int) -> int {
    if tip - from < size {
        tip
    } else {
        from + size - 1
    }
}

/// The ranges a cycle plans from block `from` on: contiguous, at most `size`
/// blocks each, none past `tip`, at most `count` of them.
pub open spec fn ranges_from(from: int, tip: int, size: int, count: nat) -> Seq<(int, int)>
    decreases count,
{
    if count == 0 || from > tip {
        Seq::empty()
    } else {
        let to = range_end(from, tip, size);
        seq![(from, to)] + ranges_from(to + 1, tip, size, (count - 1) as nat)
    }
}

/// The ranges as pairs of integers.
pub open spec fn spans(v: Seq<BlockRange>) -> Seq<(int, int)> {
    v.map_values(|r: BlockRange| (r.from as int, r.to as int))
}

/// The plan of a cycle for a contract whose cursor stands at `last_indexed`.
pub open spec fn plan(last_indexed: int, tip: int, size: int, count: nat) -> Seq<(int, int)> {
    ranges_from(last_indexed + 1, tip, size, count)
}

/// Number of ranges, from the first on, that were all applied.
pub open spec fn leading_successes(outcomes: Seq<bool>) -> nat
    decreases outcomes.len(),
{
    if outcomes.len() == 0 || !outcomes[0] {
        0
    } else {
        1 + leading_successes(outcomes.drop_first())
    }
}

/// The cursor after a cycle: the end of the last range of the unbroken run of
/// applied ranges at the start of the plan, or the old cursor if the first failed.
pub open spec fn advanced_cursor(last_indexed: int, ranges: Seq<(int, int)>, outcomes: Seq<bool>) -> int {
    let k = leading_successes(outcomes);
    if k == 0 || ranges.len() == 0 {
        last_indexed
    } else if k <= ranges.len() {
        ranges[k - 1].1
    } else {
        ranges[ranges.len() - 1].1
    }
}

/// What makes a sequence of ranges a valid plan from `from` up to `tip`.
pub open spec fn plan_shape(s: Seq<(int, int)>, from: int, tip: int, size: int, count: nat) -> bool {
    &&& s.len() <= count
    &&& (s.len() == 0 <==> (count == 0 || from > tip))
    &&& s.len() > 0 ==> s[0].0 == from
    &&& forall|i: int| 0 <= i < s.len() ==> #[trigger] s[i].0 <= s[i].1 <= tip && s[i].1 - s[i].0 < size
    &&& forall|i: int| 0 <= i < s.len() - 1 ==> #[trigger] s[i + 1].0 == s[i].1 + 1
    &&& s.len() > 0 ==> s[s.len() - 1].1 == if tip < from + size * count - 1 {
        tip
    } else {
        from + size * count - 1
    }
}

/// Every plan has the shape that `plan_shape` describes.
pub proof fn lemma_plan_shape(from: int, tip: int, size: int, count: nat)
    requires
        size >= 1,
    ensures
        plan_shape(ranges_from(from, tip, size, count), from, tip, size, count),
    decreases count,
{
    let s = ranges_from(from, tip, size, count);
    if count == 0 || from > tip {
    } else {
        let to = range_end(from, tip, size);
        let rest = ranges_from(to + 1, tip, size, (count - 1) as nat);
        lemma_plan_shape(to + 1, tip, size, (count - 1) as nat);
        assert(s == seq![(from, to)] + rest);
        assert forall|i: int| 0 <= i < s.len() implies #[trigger] s[i].0 <= s[i].1 <= tip && s[i].1
            - s[i].0 < size by {
            if i > 0 {
                assert(s[i] == rest[i - 1]);
            }
        }
        assert forall|i: int| 0 <= i < s.len() - 1 implies #[trigger] s[i + 1].0 == s[i].1 + 1 by {
            if i > 0 {
                assert(s[i] == rest[i - 1]);
                assert(s[i + 1] == rest[i]);
                let j = i - 1;
                assert(rest[j + 1].0 == rest[j].1 + 1);
            } else {
                assert(s[1] == rest[0]);
            }
        }
        assert(size * count == size + size * (count - 1)) by (nonlinear_arith);
        if rest.len() > 0 {
            assert(s[s.len() - 1] == rest[rest.len() - 1]);
        } else {
            assert((count - 1) as nat == 0 || to + 1 > tip);
            if to + 1 > tip {
                assert(to == tip);
            } else {
                assert(count == 1);
            }
        }
    }
}

/// The ranges a cycle fetches for one contract, in order: contiguous and
/// gapless from `last_indexed + 1`, each at most `batch_size` blocks, none past
/// `chain_tip`, at most `max_batches` of them. Empty when the cursor has
/// reached the tip.
pub fn plan_batches(last_indexed: i64, chain_tip: u64, batch_size: u64, max_batches: u64) -> (r: Vec<BlockRange>)
    requires
        -1 <= last_indexed,
        chain_tip <= i64::MAX,
        batch_size >= 1,
    ensures
        spans(r@) == plan(last_indexed as int, chain_tip as int, batch_size as int, max_batches as nat),
        plan_shape(spans(r@), last_indexed + 1, chain_tip as int, batch_size as int, max_batches as nat),
{
    let ghost target = plan(last_indexed as int, chain_tip as int, batch_size as int, max_batches as nat);
    let mut v: Vec<BlockRange> = Vec::new();
    if last_indexed >= chain_tip as i64 {
        proof {
            assert(spans(v@) =~= Seq::<(int, int)>::empty());
            lemma_plan_shape(last_indexed + 1, chain_tip as int, batch_size as int, max_batches as nat);
        }
        return v;
    }
    let mut cursor: u64 = (last_indexed + 1) as u64;
    let mut n: u64 = 0;
    while n < max_batches && cursor <= chain_tip
        invariant
            n <= max_batches,
            cursor <= chain_tip + 1,
            chain_tip <= i64::MAX,
            batch_size >= 1,
            spans(v@) + ranges_from(cursor as int, chain_tip as int, batch_size as int, (max_batches - n) as nat) == target,
        decreases max_batches - n,
    {
        let to: u64 = if chain_tip - cursor < batch_size {
            chain_tip
        } else {
            cursor + batch_size - 1
        };
        let ghost before = spans(v@);
        let ghost rest = ranges_from(to as int + 1, chain_tip as int, batch_size as int, (max_batches - n - 1) as nat);
        v.push(BlockRange { from: cursor, to });
        proof {
            assert(spans(v@) =~= before.push((cursor as int, to as int)));
            assert(ranges_from(cursor as int, chain_tip as int, batch_size as int, (max_batches - n) as nat)
                == seq![(cursor as int, to as int)] + rest);
            assert(before + (seq![(cursor as int, to as int)] + rest) =~= before.push((cursor as int, to as int)) + rest);
        }
        cursor = to + 1;
        n = n + 1;
    }
    proof {
        assert(ranges_from(cursor as int, chain_tip as int, batch_size as int, (max_batches - n) as nat) =~= Seq::<(int, int)>::empty());
        assert(spans(v@) =~= target);
        lemma_plan_shape(last_indexed + 1, chain_tip as int, batch_size as int, max_batches as nat);
    }
    v
}

/// A prefix of the outcomes that holds only successes is counted in full.
proof fn lemma_leading_successes(outcomes: Seq<bool>)
    ensures
        leading_successes(outcomes) <= outcomes.len(),
        forall|i: int| 0 <= i < leading_successes(outcomes) ==> #[trigger] outcomes[i],
        leading_successes(outcomes) < outcomes.len() ==> !outcomes[leading_successes(outcomes) as int],
    decreases outcomes.len(),
{
    if outcomes.len() == 0 || !outcomes[0] {
    } else {
        let rest = outcomes.drop_first();
        lemma_leading_successes(rest);
        assert forall|i: int| 0 <= i < leading_successes(outcomes) implies #[trigger] outcomes[i] by {
            if i > 0 {
                assert(outcomes[i] == rest[i - 1]);
            }
        }
    }
}

/// The new cursor value after a cycle whose ranges had the given outcomes
/// (`true`: fetched, decoded and applied). `None` when not even the first range
/// was applied, so the cursor stays where it was. Ranges after the first failure
/// never count, even when they succeeded, so that no block is skipped.
pub fn advance_cursor(ranges: &Vec<BlockRange>, outcomes: &Vec<bool>) -> (r: Option<u64>)
    requires
        outcomes.len() == ranges.len(),
    ensures
        leading_successes(outcomes@) <= outcomes.len(),
        r is None <==> leading_successes(outcomes@) == 0,
        r matches Some(c) ==> c == ranges@[leading_successes(outcomes@) - 1].to,
{
    proof {
        lemma_leading_successes(outcomes@);
    }
    let mut i: usize = 0;
    let mut last: Option<u64> = None;
    while i < outcomes.len() && outcomes[i]
        invariant
            i <= outcomes.len(),
            outcomes.len() == ranges.len(),
            leading_successes(outcomes@) <= outcomes.len(),
            forall|j: int| 0 <= j < leading_successes(outcomes@) ==> #[trigger] outcomes@[j],
            leading_successes(outcomes@) < outcomes.len() ==> !outcomes@[leading_successes(outcomes@) as int],
            forall|j: int| 0 <= j < i ==> #[trigger] outcomes@[j],
            i == 0 ==> last is None,
            i > 0 ==> last == Some(ranges@[i - 1].to),
        decreases outcomes.len() - i,
    {
        last = Some(ranges[i].to);
        i = i + 1;
    }
    proof {
        assert(i == leading_successes(outcomes@)) by {
            if i < leading_successes(outcomes@) {
                assert(outcomes@[i as int]);
            }
            if i > leading_successes(outcomes@) {
                assert(outcomes@[leading_successes(outcomes@) as int]);
            }
        }
    }
    last
}

/// Whether block `b` lies in the `i`-th range.
pub open spec fn covers(s: Seq<(int, int)>, i: int, b: int) -> bool {
    s[i].0 <= b <= s[i].1
}

/// Whether block `b` lies in one of the first `n` ranges.
pub open spec fn covered_by(s: Seq<(int, int)>, n: int, b: int) -> bool {
    exists|i: int| 0 <= i < n && #[trigger] covers(s, i, b)
}

/// Ranges of a plan come in increasing order and do not overlap.
proof fn lemma_ordered(s: Seq<(int, int)>, from: int, tip: int, size: int, count: nat)
    requires
        plan_shape(s, from, tip, size, count),
    ensures
        forall|i: int, j: int| 0 <= i < j < s.len() ==> #[trigger] s[i].1 < #[trigger] s[j].0,
{
    assert forall|i: int, j: int| 0 <= i < j < s.len() implies #[trigger] s[i].1 < #[trigger] s[j].0 by {
        lemma_ordered_pair(s, from, tip, size, count, i, j);
    }
}

proof fn lemma_ordered_pair(s: Seq<(int, int)>, from: int, tip: int, size: int, count: nat, i: int, j: int)
    requires
        plan_shape(s, from, tip, size, count),
        0 <= i < j < s.len(),
    ensures
        s[i].1 < s[j].0,
    decreases j - i,
{
    let k = j - 1;
    assert(s[k + 1].0 == s[k].1 + 1);
    if i < k {
        lemma_ordered_pair(s, from, tip, size, count, i, k);
    }
}

/// Every block from the start of a plan up to the end of its `j`-th range lies
/// in one of the ranges `0..=j`.
proof fn lemma_covered(s: Seq<(int, int)>, from: int, tip: int, size: int, count: nat, j: int, b: int)
    requires
        plan_shape(s, from, tip, size, count),
        0 <= j < s.len(),
        from <= b <= s[j].1,
    ensures
        exists|i: int| 0 <= i <= j && #[trigger] covers(s, i, b),
    decreases j,
{
    if s[j].0 <= b {
        assert(covers(s, j, b));
    } else {
        let k = j - 1;
        assert(s[k + 1].0 == s[k].1 + 1);
        lemma_covered(s, from, tip, size, count, k, b);
        let i = choose|i: int| 0 <= i <= k && #[trigger] covers(s, i, b);
        assert(covers(s, i, b));
    }
}

/// Cursor monotonicity, one cycle: the cursor never moves back, never moves past
/// the tip, and every block it moves over lies in a range that was applied.
pub proof fn lemma_cycle_cursor_monotone(last_indexed: int, tip: int, size: int, count: nat, outcomes: Seq<bool>)
    requires
        size >= 1,
        outcomes.len() == plan(last_indexed, tip, size, count).len(),
    ensures
        ({
            let s = plan(last_indexed, tip, size, count);
            let c = advanced_cursor(last_indexed, s, outcomes);
            &&& last_indexed <= c
            &&& c == last_indexed || c <= tip
            &&& forall|i: int| 0 <= i < leading_successes(outcomes) ==> #[trigger] outcomes[i]
            &&& forall|b: int| last_indexed < b <= c ==> #[trigger] covered_by(s, leading_successes(outcomes) as int, b)
        }),
{
    let s = plan(last_indexed, tip, size, count);
    let k = leading_successes(outcomes);
    lemma_plan_shape(last_indexed + 1, tip, size, count);
    lemma_leading_successes(outcomes);
    if k > 0 {
        assert(s[k - 1].0 <= s[k - 1].1);
        assert(s[0].0 == last_indexed + 1);
        if k - 1 > 0 {
            lemma_ordered(s, last_indexed + 1, tip, size, count);
            assert(s[0].1 < s[k - 1].0);
        }
        assert forall|b: int| last_indexed < b <= advanced_cursor(last_indexed, s, outcomes) implies #[trigger] covered_by(
            s,
            k as int,
            b,
        ) by {
            lemma_covered(s, last_indexed + 1, tip, size, count, k - 1, b);
        }
    }
}

/// The cursor after a sequence of cycles, each given by the chain tip it saw
/// and the outcomes of the ranges it planned.
pub open spec fn cursor_after_cycles(last_indexed: int, cycles: Seq<(int, Seq<bool>)>, size: int, count: nat) -> int
    decreases cycles.len(),
{
    if cycles.len() == 0 {
        last_indexed
    } else {
        let before = cursor_after_cycles(last_indexed, cycles.drop_last(), size, count);
        let (tip, outcomes) = cycles.last();
        advanced_cursor(before, plan(before, tip, size, count), outcomes)
    }
}

/// Whether every cycle reported one outcome per planned range.
pub open spec fn cycles_complete(last_indexed: int, cycles: Seq<(int, Seq<bool>)>, size: int, count: nat) -> bool {
    forall|n: int| 0 <= n < cycles.len() ==> {
        let before = #[trigger] cursor_after_cycles(last_indexed, cycles.take(n), size, count);
        cycles[n].1.len() == plan(before, cycles[n].0, size, count).len()
    }
}

/// Cursor monotonicity over any sequence of cycles: the cursor after a longer
/// run of cycles is never below the cursor after a shorter one.
pub proof fn lemma_cursor_monotone(last_indexed: int, cycles: Seq<(int, Seq<bool>)>, size: int, count: nat, m: int, n: int)
    requires
        size >= 1,
        cycles_complete(last_indexed, cycles, size, count),
        0 <= m <= n <= cycles.len(),
    ensures
        cursor_after_cycles(last_indexed, cycles.take(m), size, count)
            <= cursor_after_cycles(last_indexed, cycles.take(n), size, count),
    decreases n - m,
{
    if m < n {
        let pre = cycles.take(n - 1);
        lemma_cursor_monotone(last_indexed, cycles, size, count, m, n - 1);
        assert(cycles.take(n).drop_last() =~= pre);
        assert(cycles.take(n).last() == cycles[n - 1]);
        let before = cursor_after_cycles(last_indexed, pre, size, count);
        assert(cycles[n - 1].1.len() == plan(before, cycles[n - 1].0, size, count).len());
        lemma_cycle_cursor_monotone(before, cycles[n - 1].0, size, count, cycles[n - 1].1);
    }
}

/// No gaps: a cycle in which every range succeeds moves the cursor to the tip,
/// or by the full `size * count` blocks when the tip is further away, and each
/// block it moves over lies in exactly one range.
pub proof fn lemma_successful_cycle(last_indexed: int, tip: int, size: int, count: nat, outcomes: Seq<bool>)
    requires
        size >= 1,
        count >= 1,
        last_indexed < tip,
        outcomes.len() == plan(last_indexed, tip, size, count).len(),
        forall|i: int| 0 <= i < outcomes.len() ==> #[trigger] outcomes[i],
    ensures
        ({
            let s = plan(last_indexed, tip, size, count);
            let c = advanced_cursor(last_indexed, s, outcomes);
            &&& c == if tip < last_indexed + size * count { tip } else { last_indexed + size * count }
            &&& tip - last_indexed <= size * count ==> c == tip
            &&& forall|b: int| last_indexed < b <= c ==> #[trigger] covered_by(s, s.len() as int, b)
            &&& forall|b: int, i: int, j: int|
                0 <= i < s.len() && 0 <= j < s.len() && #[trigger] covers(s, i, b) && #[trigger] covers(s, j, b) ==> i == j
        }),
{
    let s = plan(last_indexed, tip, size, count);
    lemma_plan_shape(last_indexed + 1, tip, size, count);
    lemma_leading_successes(outcomes);
    assert(leading_successes(outcomes) == outcomes.len()) by {
        if leading_successes(outcomes) < outcomes.len() {
            assert(outcomes[leading_successes(outcomes) as int]);
        }
    }
    lemma_cycle_cursor_monotone(last_indexed, tip, size, count, outcomes);
    lemma_ordered(s, last_indexed + 1, tip, size, count);
    assert forall|b: int, i: int, j: int|
        0 <= i < s.len() && 0 <= j < s.len() && #[trigger] covers(s, i, b) && #[trigger] covers(s, j, b) implies i == j by {
        if i < j {
            assert(s[i].1 < s[j].0);
        } else if j < i {
            assert(s[j].1 < s[i].0);
        }
    }
}

/// Partial-failure safety: when the range at position `failed` fails and every
/// range before it succeeded, the cursor stops at the end of the range before
/// it, and the next cycle's first range starts where the failed range started.
pub proof fn lemma_partial_failure(last_indexed: int, tip: int, size: int, count: nat, outcomes: Seq<bool>, failed: int)
    requires
        size >= 1,
        outcomes.len() == plan(last_indexed, tip, size, count).len(),
        0 <= failed < outcomes.len(),
        !outcomes[failed],
        forall|i: int| 0 <= i < failed ==> #[trigger] outcomes[i],
    ensures
        ({
            let s = plan(last_indexed, tip, size, count);
            let c = advanced_cursor(last_indexed, s, outcomes);
            let next = plan(c, tip, size, count);
            &&& c == if failed == 0 { last_indexed } else { s[failed - 1].1 }
            &&& c < s[failed].0
            &&& next.len() > 0
            &&& next[0].0 == s[failed].0
        }),
{
    let s = plan(last_indexed, tip, size, count);
    lemma_plan_shape(last_indexed + 1, tip, size, count);
    lemma_leading_successes(outcomes);
    let k = leading_successes(outcomes);
    assert(k == failed) by {
        if k < failed {
            assert(outcomes[k as int]);
        }
        if k > failed {
            assert(outcomes[failed]);
        }
    }
    let c = advanced_cursor(last_indexed, s, outcomes);
    if failed > 0 {
        let j = failed - 1;
        assert(s[j + 1].0 == s[j].1 + 1);
    }
    assert(s[failed].0 <= tip);
    lemma_plan_shape(c + 1, tip, size, count);
}

/// Consecutive cycles do not overlap: every range a cycle applied ends at or
/// before the cursor it leaves, and the next cycle's plan starts right after that
/// cursor, so across cycles each block is applied by exactly one range.
pub proof fn lemma_next_cycle_continues(last_indexed: int, tip: int, size: int, count: nat, outcomes: Seq<bool>)
    requires
        size >= 1,
        outcomes.len() == plan(last_indexed, tip, size, count).len(),
    ensures
        ({
            let s = plan(last_indexed, tip, size, count);
            let c = advanced_cursor(last_indexed, s, outcomes);
            let next = plan(c, tip, size, count);
            &&& forall|i: int| 0 <= i < leading_successes(outcomes) ==> #[trigger] s[i].1 <= c
            &&& next.len() > 0 ==> next[0].0 == c + 1
            &&& forall|j: int| 0 <= j < next.len() ==> #[trigger] next[j].0 > c
        }),
{
    let s = plan(last_indexed, tip, size, count);
    let k = leading_successes(outcomes);
    lemma_plan_shape(last_indexed + 1, tip, size, count);
    lemma_leading_successes(outcomes);
    lemma_ordered(s, last_indexed + 1, tip, size, count);
    let c = advanced_cursor(last_indexed, s, outcomes);
    assert forall|i: int| 0 <= i < k implies #[trigger] s[i].1 <= c by {
        if i < k - 1 {
            assert(s[i].1 < s[k - 1].0);
        }
    }
    let next = plan(c, tip, size, count);
    lemma_plan_shape(c + 1, tip, size, count);
    lemma_ordered(next, c + 1, tip, size, count);
    assert forall|j: int| 0 <= j < next.len() implies #[trigger] next[j].0 > c by {
        if j > 0 {
            assert(next[0].1 < next[j].0);
        }
    }
}

/// Outcomes of a cycle in which every one of `n` ranges succeeded.
pub open spec fn all_succeeded(n: nat) -> Seq<bool> {
    Seq::new(n, |i: int| true)
}

/// The cursor after `n` cycles against a fixed tip in which every range succeeded.
pub open spec fn cursor_after_successes(last_indexed: int, tip: int, size: int, count: nat, n: nat) -> int
    decreases n,
{
    if n == 0 {
        last_indexed
    } else {
        let c = cursor_after_successes(last_indexed, tip, size, count, (n - 1) as nat);
        let s = plan(c, tip, size, count);
        advanced_cursor(c, s, all_succeeded(s.len()))
    }
}

/// No gaps over several cycles: with every range succeeding, each cycle moves
/// the cursor by `size * count` blocks until it reaches the tip, so after
/// enough cycles the cursor is exactly the tip.
pub proof fn lemma_successful_cycles(last_indexed: int, tip: int, size: int, count: nat, n: nat)
    requires
        size >= 1,
        count >= 1,
        last_indexed <= tip,
    ensures
        cursor_after_successes(last_indexed, tip, size, count, n) == if tip < last_indexed + n * (size * count) {
            tip
        } else {
            last_indexed + n * (size * count)
        },
        n * (size * count) >= tip - last_indexed ==> cursor_after_successes(last_indexed, tip, size, count, n) == tip,
    decreases n,
{
    assert(size * count >= 1) by (nonlinear_arith)
        requires
            size >= 1,
            count >= 1,
    ;
    if n > 0 {
        lemma_successful_cycles(last_indexed, tip, size, count, (n - 1) as nat);
        let c = cursor_after_successes(last_indexed, tip, size, count, (n - 1) as nat);
        let s = plan(c, tip, size, count);
        assert((n - 1) * (size * count) + size * count == n * (size * count)) by (nonlinear_arith);
        assert(0 <= (n - 1) * (size * count)) by (nonlinear_arith)
            requires
                n >= 1,
                size * count >= 1,
        ;
        if c < tip {
            let outcomes = all_succeeded(s.len());
            lemma_successful_cycle(c, tip, size, count, outcomes);
        } else {
            lemma_plan_shape(c + 1, tip, size, count);
            assert(s.len() == 0);
        }
    }
}

/// Which ranges produced their output (`Some`) and which failed (`None`).
pub open spec fn fetched<T>(outputs: Seq<Option<T>>) -> Seq<bool> {
    outputs.map_values(|o: Option<T>| o is Some)
}

proof fn lemma_fetched_prefix<T>(outputs: Seq<Option<T>>)
    ensures
        leading_successes(fetched(outputs)) <= outputs.len(),
        forall|i: int| 0 <= i < leading_successes(fetched(outputs)) ==> #[trigger] outputs[i] is Some,
        leading_successes(fetched(outputs)) < outputs.len() ==> outputs[leading_successes(fetched(outputs)) as int] is None,
{
    lemma_leading_successes(fetched(outputs));
    assert forall|i: int| 0 <= i < leading_successes(fetched(outputs)) implies #[trigger] outputs[i] is Some by {
        assert(fetched(outputs)[i]);
    }
    if leading_successes(fetched(outputs)) < outputs.len() {
        assert(!fetched(outputs)[leading_successes(fetched(outputs)) as int]);
    }
}

/// The outputs to apply after the ranges of a cycle were fetched in order: those
/// of the unbroken run of ranges at the start that all succeeded. Nothing of a
/// range after the first failure is kept, even when that range succeeded, so no
/// block past the cursor's next position is applied ahead of a gap.
pub fn applicable_outputs<T>(outputs: Vec<Option<T>>) -> (r: Vec<T>)
    ensures
        r@.len() == leading_successes(fetched(outputs@)),
        forall|i: int| 0 <= i < r@.len() ==> outputs@[i] == Some(#[trigger] r@[i]),
{
    proof {
        lemma_fetched_prefix(outputs@);
    }
    let ghost all = outputs@;
    let ghost k = leading_successes(fetched(all));
    let mut rest = outputs;
    let mut kept: Vec<T> = Vec::new();
    while rest.len() > 0
        invariant
            kept@.len() <= k,
            k <= all.len(),
            all == outputs@,
            k == leading_successes(fetched(all)),
            rest@ == all.skip(kept@.len() as int),
            forall|i: int| 0 <= i < k ==> #[trigger] all[i] is Some,
            k < all.len() ==> all[k as int] is None,
            forall|i: int| 0 <= i < kept@.len() ==> all[i] == Some(#[trigger] kept@[i]),
        decreases rest.len(),
    {
        let ghost n = kept@.len();
        assert(rest@[0] == all[n as int]);
        match rest.remove(0) {
            Some(out) => {
                assert(n < k) by {
                    if n >= k {
                        assert(n == k);
                    }
                }
                kept.push(out);
                assert(rest@ =~= all.skip(kept@.len() as int));
            },
            None => {
                assert(n == k) by {
                    if n < k {
                        assert(all[n as int] is Some);
                    }
                }
                return kept;
            },
        }
    }
    assert(kept@.len() == k) by {
        if kept@.len() < k {
            assert(all.skip(kept@.len() as int).len() > 0);
        }
    }
    kept
}

} // verus!
