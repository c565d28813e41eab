//! Per-strategy evaluation results: merging the per-worker result lists into
//! one set, and deriving the "affined" subset of results with enough closed
//! trades to be statistically meaningful.

use vstd::prelude::*;
use crate::partition::{chunk_slices, is_chunk_plan, lemma_chunks_concat, WorkChunk};
use crate::sweep::StrategyDescriptor;

verus! {

/// Results with more closed trades than this are kept in the affined set.
pub const AFFINED_TOTAL_CLOSED_THRESHOLD: u32 = 100;

/// The outcome of evaluating one strategy descriptor over the candle series:
/// how many trades closed, and the simulated capital over time (in cents).
/// The descriptor is carried along so the result can always be traced back.
#[derive(Clone, Debug)]
pub struct StrategyResult {
    pub descriptor: StrategyDescriptor,
    pub total_closed: u32,
    pub money_evolution: Vec<i64>,
}

/// The mathematical value of a `StrategyResult`.
pub struct StrategyResultView {
    pub descriptor: StrategyDescriptor,
    pub total_closed: u32,
    pub money_evolution: Seq<i64>,
}

impl View for StrategyResult {
    type V = StrategyResultView;

    open spec fn view(&self) -> StrategyResultView {
        StrategyResultView {
            descriptor: self.descriptor,
            total_closed: self.total_closed,
            money_evolution: self.money_evolution@,
        }
    }
}

/// The views of a sequence of results.
pub open spec fn views_of(rs: Seq<StrategyResult>) -> Seq<StrategyResultView> {
    rs.map_values(|r: StrategyResult| r@)
}

/// The descriptors of a sequence of result views, in order.
pub open spec fn descriptors_of(rs: Seq<StrategyResultView>) -> Seq<StrategyDescriptor> {
    rs.map_values(|r: StrategyResultView| r.descriptor)
}

/// An exact copy of one result.
pub fn clone_result(r: &StrategyResult) -> (c: StrategyResult)
    ensures
        c@ == r@,
{
    let evolution: Vec<i64> = r.money_evolution.clone();
    proof {
        assert(evolution@ =~= r.money_evolution@);
    }
    StrategyResult { descriptor: r.descriptor, total_closed: r.total_closed, money_evolution: evolution }
}

/// Concatenate the per-worker result lists, in worker order, into one merged
/// result set.  The workers' lists are drained into the merged set.
pub fn merge_results(parts: &mut Vec<Vec<StrategyResult>>) -> (merged: Vec<StrategyResult>)
    ensures
        merged@ == old(parts)@.map_values(|p: Vec<StrategyResult>| p@).flatten(),
{
    let ghost parts0 = old(parts)@;
    let ghost pviews = parts0.map_values(|p: Vec<StrategyResult>| p@);
    let mut merged: Vec<StrategyResult> = Vec::new();
    let n: usize = parts.len();
    let mut i: usize = 0;
    while i < n
        invariant
            n == parts@.len(),
            parts0.len() == n,
            pviews == parts0.map_values(|p: Vec<StrategyResult>| p@),
            i <= n,
            forall|j: int| i <= j < n ==> parts@[j] == parts0[j],
            merged@ == pviews.take(i as int).flatten(),
        decreases n - i,
    {
        let ghost prefix = pviews.take(i as int);
        merged.append(&mut parts[i]);
        proof {
            prefix.lemma_flatten_push(pviews[i as int]);
            assert(pviews.take(i + 1) =~= prefix.push(pviews[i as int]));
        }
        i = i + 1;
    }
    proof {
        assert(pviews.take(n as int) =~= pviews);
    }
    merged
}

/// Does a result view pass the minimum-activity filter?
pub open spec fn spec_passes_filter(r: StrategyResultView, threshold: u32) -> bool {
    r.total_closed > threshold
}

/// The affined subset of a result set: exactly those results with more than
/// `threshold` closed trades, in their original order.
pub open spec fn spec_affined(rs: Seq<StrategyResultView>, threshold: u32) -> Seq<
    StrategyResultView,
> {
    rs.filter(|r: StrategyResultView| spec_passes_filter(r, threshold))
}

/// Select the affined subset of `results`: exactly those with
/// `total_closed > threshold`, in order.  The full result set is read, never
/// changed.
pub fn affine_filter(results: &Vec<StrategyResult>, threshold: u32) -> (affined: Vec<
    StrategyResult,
>)
    ensures
        views_of(affined@) == spec_affined(views_of(results@), threshold),
{
    let ghost vs = views_of(results@);
    let ghost pred = |r: StrategyResultView| spec_passes_filter(r, threshold);
    let mut affined: Vec<StrategyResult> = Vec::new();
    let n: usize = results.len();
    let mut i: usize = 0;
    proof {
        assert(vs.take(0) =~= Seq::<StrategyResultView>::empty());
        assert(views_of(affined@) =~= Seq::<StrategyResultView>::empty());
        reveal_with_fuel(Seq::filter, 1);
    }
    while i < n
        invariant
            n == results@.len(),
            vs == views_of(results@),
            pred == (|r: StrategyResultView| spec_passes_filter(r, threshold)),
            i <= n,
            views_of(affined@) == vs.take(i as int).filter(pred),
        decreases n - i,
    {
        let ghost prefix = vs.take(i as int);
        let ghost before = views_of(affined@);
        if results[i].total_closed > threshold {
            let c = clone_result(&results[i]);
            affined.push(c);
            proof {
                assert(views_of(affined@) =~= before.push(c@));
            }
        }
        proof {
            prefix.lemma_filter_push(vs[i as int], pred);
            assert(vs.take(i + 1) =~= prefix.push(vs[i as int]));
        }
        i = i + 1;
    }
    proof {
        assert(vs.take(n as int) =~= vs);
    }
    affined
}

/// The affined set with the default threshold of the result reports.
pub fn affined_results(results: &Vec<StrategyResult>) -> (affined: Vec<StrategyResult>)
    ensures
        views_of(affined@) == spec_affined(views_of(results@), AFFINED_TOTAL_CLOSED_THRESHOLD),
{
    affine_filter(results, AFFINED_TOTAL_CLOSED_THRESHOLD)
}

/// The affined set never adds entries: each of its members is a member of the
/// full result set.
pub proof fn lemma_affined_subset(rs: Seq<StrategyResultView>, threshold: u32, i: int)
    requires
        0 <= i < spec_affined(rs, threshold).len(),
    ensures
        rs.contains(spec_affined(rs, threshold)[i]),
        spec_passes_filter(spec_affined(rs, threshold)[i], threshold),
{
    let pred = |r: StrategyResultView| spec_passes_filter(r, threshold);
    rs.lemma_filter_pred(pred, i);
    let affined = spec_affined(rs, threshold);
    assert(affined.contains(affined[i]));
    rs.lemma_filter_contains_rev(pred, affined[i]);
}

/// A sequence every element of which passes `pred` is unchanged by filtering.
proof fn lemma_filter_all_pass<A>(s: Seq<A>, pred: spec_fn(A) -> bool)
    requires
        forall|i: int| 0 <= i < s.len() ==> pred(#[trigger] s[i]),
    ensures
        s.filter(pred) == s,
    decreases s.len(),
{
    reveal_with_fuel(Seq::filter, 1);
    if s.len() == 0 {
        assert(s =~= Seq::<A>::empty());
    } else {
        let head = s.drop_last();
        lemma_filter_all_pass(head, pred);
        head.lemma_filter_push(s.last(), pred);
        assert(head.push(s.last()) =~= s);
    }
}

/// Affining is idempotent: applying the filter to the affined set returns it
/// unchanged.
pub proof fn lemma_affined_idempotent(rs: Seq<StrategyResultView>, threshold: u32)
    ensures
        spec_affined(spec_affined(rs, threshold), threshold) == spec_affined(rs, threshold),
{
    let pred = |r: StrategyResultView| spec_passes_filter(r, threshold);
    let once = spec_affined(rs, threshold);
    assert forall|i: int| 0 <= i < once.len() implies pred(#[trigger] once[i]) by {
        rs.lemma_filter_pred(pred, i);
    }
    lemma_filter_all_pass(once, pred);
}

/// Mapping a function over a flattened sequence of sequences is the same as
/// mapping it inside each piece and then flattening.
proof fn lemma_map_flatten<A, B>(ss: Seq<Seq<A>>, f: spec_fn(A) -> B)
    ensures
        ss.flatten().map_values(f) == ss.map_values(|s: Seq<A>| s.map_values(f)).flatten(),
    decreases ss.len(),
{
    let mapped = ss.map_values(|s: Seq<A>| s.map_values(f));
    if ss.len() == 0 {
        assert(ss =~= Seq::<Seq<A>>::empty());
        assert(mapped =~= Seq::<Seq<B>>::empty());
        assert(ss.flatten().map_values(f) =~= mapped.flatten());
    } else {
        let head = ss.drop_last();
        lemma_map_flatten(head, f);
        head.lemma_flatten_push(ss.last());
        assert(head.push(ss.last()) =~= ss);
        let mhead = head.map_values(|s: Seq<A>| s.map_values(f));
        mhead.lemma_flatten_push(ss.last().map_values(f));
        assert(mhead.push(ss.last().map_values(f)) =~= mapped);
        assert((head.flatten() + ss.last()).map_values(f) =~= head.flatten().map_values(f)
            + ss.last().map_values(f));
    }
}

/// Result completeness: if worker `i`'s results carry, in order, exactly the
/// descriptors of its chunk's slice of the expanded sequence, then the merged
/// result set carries exactly one result per input descriptor -- no
/// duplicates, no omissions, in the original descriptor order.
pub proof fn lemma_result_completeness(
    descs: Seq<StrategyDescriptor>,
    chunks: Seq<WorkChunk>,
    n: int,
    w: int,
    parts: Seq<Seq<StrategyResultView>>,
)
    requires
        1 <= w,
        0 <= n,
        descs.len() == n,
        is_chunk_plan(chunks, n, w),
        parts.len() == chunks.len(),
        forall|i: int|
            0 <= i < parts.len() ==> descriptors_of(#[trigger] parts[i]) == descs.subrange(
                chunks[i].start as int,
                chunks[i].start + chunks[i].len,
            ),
    ensures
        descriptors_of(parts.flatten()) == descs,
{
    let f = |r: StrategyResultView| r.descriptor;
    lemma_map_flatten(parts, f);
    assert(parts.map_values(|s: Seq<StrategyResultView>| s.map_values(f)) =~= chunk_slices(
        chunks,
        descs,
    ));
    lemma_chunks_concat(chunks, n, w, descs);
}

/// A copy of the result set with every equity-evolution sequence emptied, as
/// written to the report files that omit the per-strategy equity curve.
/// Everything else -- order, descriptors, trade counts -- is unchanged.
pub fn without_money_evolution(results: &Vec<StrategyResult>) -> (stripped: Vec<StrategyResult>)
    ensures
        stripped@.len() == results@.len(),
        forall|i: int|
            0 <= i < results@.len() ==> (#[trigger] stripped@[i])@ == (StrategyResultView {
                money_evolution: Seq::<i64>::empty(),
                ..results@[i]@
            }),
{
    let mut stripped: Vec<StrategyResult> = Vec::new();
    let n: usize = results.len();
    let mut i: usize = 0;
    while i < n
        invariant
            n == results@.len(),
            i <= n,
            stripped@.len() == i,
            forall|j: int|
                0 <= j < i ==> (#[trigger] stripped@[j])@ == (StrategyResultView {
                    money_evolution: Seq::<i64>::empty(),
                    ..results@[j]@
                }),
        decreases n - i,
    {
        let bare = StrategyResult {
            descriptor: results[i].descriptor,
            total_closed: results[i].total_closed,
            money_evolution: Vec::new(),
        };
        stripped.push(bare);
        i = i + 1;
    }
    stripped
}

} // verus!
