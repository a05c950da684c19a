use vstd::arithmetic::div_mod::{
    lemma_fundamental_div_mod, lemma_fundamental_div_mod_converse, lemma_mod_multiples_basic,
    lemma_mod_pos_bound,
};
use vstd::prelude::*;

verus! {

/// The two independent limits of one bulk request.
pub struct BatchCaps {
    /// Largest number of records in one batch.
    pub max_docs: usize,
    /// Largest framed size of one batch, in bytes.
    pub max_payload_bytes: usize,
}

/// One planned batch: the records `start..end` of the input, in their input
/// order, together with their total framed size in bytes.
#[derive(Clone, Copy, Debug, PartialEq, Eq, Structural)]
pub struct BatchSpan {
    pub start: usize,
    pub end: usize,
    pub bytes: usize,
}

/// Total framed size of the records `start..end`.
pub open spec fn range_bytes(sizes: Seq<usize>, start: int, end: int) -> int
    decreases end - start,
{
    if end <= start {
        0
    } else {
        range_bytes(sizes, start, end - 1) + sizes[end - 1] as int
    }
}

/// A batch never crosses a count-chunk boundary: the input is first cut into
/// chunks of `max_docs` records, and every batch lies inside one chunk.
pub open spec fn within_count_chunk(max_docs: int, start: int, end: int) -> bool {
    forall|m: int| start < m < end ==> #[trigger] (m % max_docs) != 0
}

/// A planned batch is non-empty, lies inside one count chunk, carries its
/// exact framed size, and respects the byte cap unless it is a single record.
pub open spec fn span_fits(sizes: Seq<usize>, caps: BatchCaps, s: BatchSpan) -> bool {
    &&& s.start < s.end <= sizes.len()
    &&& within_count_chunk(caps.max_docs as int, s.start as int, s.end as int)
    &&& s.bytes == range_bytes(sizes, s.start as int, s.end as int)
    &&& (s.bytes <= caps.max_payload_bytes || s.end == s.start + 1)
}

/// Greedy packing: a batch is closed only at the end of the input, at the end
/// of its count chunk, or where the next record would overflow the byte cap.
pub open spec fn span_is_closed(sizes: Seq<usize>, caps: BatchCaps, s: BatchSpan) -> bool {
    ||| s.end == sizes.len()
    ||| s.end as int % caps.max_docs as int == 0
    ||| range_bytes(sizes, s.start as int, s.end + 1) > caps.max_payload_bytes
}

/// `plan` cuts the records `0..upto` into consecutive greedy batches.
pub open spec fn plan_covers(sizes: Seq<usize>, caps: BatchCaps, plan: Seq<BatchSpan>, upto: int) -> bool {
    &&& forall|k: int| 0 <= k < plan.len() ==> span_fits(sizes, caps, #[trigger] plan[k])
    &&& forall|k: int| 0 <= k < plan.len() ==> span_is_closed(sizes, caps, #[trigger] plan[k])
    &&& forall|k: int| 0 <= k < plan.len() - 1 ==> (#[trigger] plan[k]).end == plan[k + 1].start
    &&& plan.len() == 0 ==> upto == 0
    &&& plan.len() > 0 ==> plan[0].start == 0 && plan.last().end == upto
}

/// `plan` is the batch plan of records whose framed sizes are `sizes`.
pub open spec fn is_batch_plan(sizes: Seq<usize>, caps: BatchCaps, plan: Seq<BatchSpan>) -> bool {
    plan_covers(sizes, caps, plan, sizes.len() as int)
}

/// The records of each batch of `plan`, in order.
pub open spec fn batch_contents<T>(records: Seq<T>, plan: Seq<BatchSpan>) -> Seq<Seq<T>> {
    plan.map_values(|s: BatchSpan| records.subrange(s.start as int, s.end as int))
}

/// Adding records at the end of a range never makes it smaller.
proof fn lemma_range_bytes_monotone(sizes: Seq<usize>, start: int, a: int, b: int)
    requires
        start <= a <= b,
    ensures
        range_bytes(sizes, start, a) <= range_bytes(sizes, start, b),
    decreases b - a,
{
    if a < b {
        lemma_range_bytes_monotone(sizes, start, a, b - 1);
    }
}

/// Dropping the last batch of a plan leaves a plan of the records before it.
pub proof fn lemma_covers_drop_last(sizes: Seq<usize>, caps: BatchCaps, plan: Seq<BatchSpan>, upto: int)
    requires
        plan_covers(sizes, caps, plan, upto),
        plan.len() > 0,
    ensures
        plan_covers(sizes, caps, plan.drop_last(), plan.last().start as int),
{
    let init = plan.drop_last();
    assert forall|k: int| 0 <= k < init.len() implies span_fits(sizes, caps, #[trigger] init[k]) by {
        assert(init[k] == plan[k]);
    }
    assert forall|k: int| 0 <= k < init.len() implies span_is_closed(sizes, caps, #[trigger] init[k]) by {
        assert(init[k] == plan[k]);
    }
    assert forall|k: int| 0 <= k < init.len() - 1 implies (#[trigger] init[k]).end == init[k + 1].start by {
        assert(init[k] == plan[k]);
    }
    if init.len() > 0 {
        assert(init.last() == plan[plan.len() - 2]);
    }
}

proof fn lemma_contents_cover_prefix<T>(
    records: Seq<T>,
    sizes: Seq<usize>,
    caps: BatchCaps,
    plan: Seq<BatchSpan>,
    upto: int,
)
    requires
        records.len() == sizes.len(),
        plan_covers(sizes, caps, plan, upto),
    ensures
        0 <= upto <= records.len(),
        batch_contents(records, plan).flatten() =~= records.subrange(0, upto),
    decreases plan.len(),
{
    if plan.len() == 0 {
        assert(batch_contents(records, plan) =~= Seq::<Seq<T>>::empty());
    } else {
        let init = plan.drop_last();
        let last = plan.last();
        assert(span_fits(sizes, caps, plan[plan.len() - 1]));
        lemma_covers_drop_last(sizes, caps, plan, upto);
        lemma_contents_cover_prefix(records, sizes, caps, init, last.start as int);
        let piece = records.subrange(last.start as int, last.end as int);
        assert(batch_contents(records, plan) =~= batch_contents(records, init).push(piece));
        batch_contents(records, init).lemma_flatten_push(piece);
        assert(records.subrange(0, last.start as int) + piece =~= records.subrange(0, upto));
    }
}

/// Concatenating the batches of a plan, in order, gives back the input
/// records exactly: batching partitions the input and never reorders it.
pub proof fn lemma_batches_preserve_order<T>(
    records: Seq<T>,
    sizes: Seq<usize>,
    caps: BatchCaps,
    plan: Seq<BatchSpan>,
)
    requires
        records.len() == sizes.len(),
        is_batch_plan(sizes, caps, plan),
    ensures
        batch_contents(records, plan).flatten() == records,
{
    lemma_contents_cover_prefix(records, sizes, caps, plan, sizes.len() as int);
    assert(records.subrange(0, records.len() as int) =~= records);
}

/// Every batch of a plan holds at most `max_docs` records, and its framed
/// size is within `max_payload_bytes` unless it is a single oversized record.
pub proof fn lemma_batches_respect_caps(sizes: Seq<usize>, caps: BatchCaps, plan: Seq<BatchSpan>)
    requires
        caps.max_docs > 0,
        is_batch_plan(sizes, caps, plan),
    ensures
        forall|k: int|
            0 <= k < plan.len() ==> {
                let s = #[trigger] plan[k];
                &&& s.end - s.start <= caps.max_docs
                &&& (range_bytes(sizes, s.start as int, s.end as int) <= caps.max_payload_bytes
                    || s.end - s.start == 1)
            },
{
    let md = caps.max_docs as int;
    assert forall|k: int| 0 <= k < plan.len() implies #[trigger] plan[k].end - plan[k].start <= md by {
        let s = plan[k];
        assert(span_fits(sizes, caps, s));
        let x = s.start as int;
        lemma_fundamental_div_mod(x, md);
        lemma_mod_pos_bound(x, md);
        let d = x / md;
        let m = (d + 1) * md;
        assert(m == md * d + md) by (nonlinear_arith)
            requires
                m == (d + 1) * md,
        ;
        lemma_mod_multiples_basic(d + 1, md);
        if s.end - s.start > md {
            assert(x < m < s.end);
            assert(m % md != 0);
        }
    }
    assert forall|k: int| 0 <= k < plan.len() implies (range_bytes(
        sizes,
        #[trigger] plan[k].start as int,
        plan[k].end as int,
    ) <= caps.max_payload_bytes || plan[k].end - plan[k].start == 1) by {
        assert(span_fits(sizes, caps, plan[k]));
    }
}

/// Two closed batches that start at the same record are the same batch.
proof fn lemma_span_determined_by_start(sizes: Seq<usize>, caps: BatchCaps, a: BatchSpan, b: BatchSpan)
    requires
        caps.max_docs > 0,
        a.start == b.start,
        span_fits(sizes, caps, a),
        span_fits(sizes, caps, b),
        span_is_closed(sizes, caps, a),
        span_is_closed(sizes, caps, b),
        a.end <= b.end,
    ensures
        a == b,
{
    if a.end < b.end {
        let md = caps.max_docs as int;
        if a.end as int % md == 0 {
            assert(b.start < a.end < b.end);
            assert(!within_count_chunk(md, b.start as int, b.end as int));
        } else if a.end != sizes.len() {
            lemma_range_bytes_monotone(sizes, a.start as int, a.end + 1, b.end as int);
        }
    }
}

proof fn lemma_plans_agree_upto(
    sizes: Seq<usize>,
    caps: BatchCaps,
    p1: Seq<BatchSpan>,
    p2: Seq<BatchSpan>,
    k: int,
)
    requires
        caps.max_docs > 0,
        is_batch_plan(sizes, caps, p1),
        is_batch_plan(sizes, caps, p2),
        0 <= k < p1.len(),
        k < p2.len(),
    ensures
        forall|j: int| 0 <= j <= k ==> p1[j] == p2[j],
    decreases k,
{
    if k > 0 {
        lemma_plans_agree_upto(sizes, caps, p1, p2, k - 1);
        assert(p1[k - 1].end == p1[k].start);
        assert(p2[k - 1].end == p2[k].start);
    }
    assert(span_fits(sizes, caps, p1[k]) && span_is_closed(sizes, caps, p1[k]));
    assert(span_fits(sizes, caps, p2[k]) && span_is_closed(sizes, caps, p2[k]));
    if p1[k].end <= p2[k].end {
        lemma_span_determined_by_start(sizes, caps, p1[k], p2[k]);
    } else {
        lemma_span_determined_by_start(sizes, caps, p2[k], p1[k]);
    }
}

/// The batch plan is a function of the record sizes and the caps alone:
/// two plans of the same input under the same caps have identical batch
/// boundaries, so planning again after an interruption repeats the plan.
pub proof fn lemma_batch_plan_is_unique(
    sizes: Seq<usize>,
    caps: BatchCaps,
    p1: Seq<BatchSpan>,
    p2: Seq<BatchSpan>,
)
    requires
        caps.max_docs > 0,
        is_batch_plan(sizes, caps, p1),
        is_batch_plan(sizes, caps, p2),
    ensures
        p1 == p2,
{
    if p1.len() > 0 && p2.len() > 0 {
        let k = if p1.len() < p2.len() { p1.len() - 1 } else { p2.len() - 1 };
        lemma_plans_agree_upto(sizes, caps, p1, p2, k);
        if p1.len() < p2.len() {
            assert(p2[k].end == sizes.len());
            assert(p2[k + 1].start == sizes.len());
            assert(span_fits(sizes, caps, p2[k + 1]));
        } else if p2.len() < p1.len() {
            assert(p1[k].end == sizes.len());
            assert(p1[k + 1].start == sizes.len());
            assert(span_fits(sizes, caps, p1[k + 1]));
        }
    } else if p1.len() > 0 {
        assert(span_fits(sizes, caps, p1[0]));
    } else if p2.len() > 0 {
        assert(span_fits(sizes, caps, p2[0]));
    }
    assert(p1 =~= p2);
}

/// Plans the batches for records whose framed sizes are `line_sizes`: the
/// records are cut into chunks of `max_docs`, and each chunk is packed
/// greedily into batches of at most `max_payload_bytes` bytes; a record that
/// alone exceeds the byte cap travels alone.
pub fn plan_batches(line_sizes: &Vec<usize>, caps: &BatchCaps) -> (plan: Vec<BatchSpan>)
    requires
        caps.max_docs > 0,
    ensures
        is_batch_plan(line_sizes@, *caps, plan@),
{
    let n = line_sizes.len();
    let md = caps.max_docs;
    let cap = caps.max_payload_bytes;
    let ghost sizes = line_sizes@;
    let mut plan: Vec<BatchSpan> = Vec::new();
    let mut chunk_start: usize = 0;
    let ghost mut q: int = 0;
    while chunk_start < n
        invariant
            n == sizes.len(),
            sizes == line_sizes@,
            md == caps.max_docs,
            cap == caps.max_payload_bytes,
            md > 0,
            chunk_start <= n,
            q >= 0,
            chunk_start < n ==> chunk_start == q * md,
            plan_covers(sizes, *caps, plan@, chunk_start as int),
        decreases n - chunk_start,
    {
        let chunk_end: usize = if n - chunk_start > md {
            chunk_start + md
        } else {
            n
        };
        proof {
            if chunk_end < n {
                assert(chunk_end == (q + 1) * md) by (nonlinear_arith)
                    requires chunk_end == chunk_start + md, chunk_start == q * md;
                lemma_mod_multiples_basic(q + 1, md as int);
            }
        }
        let mut sub_start = chunk_start;
        while sub_start < chunk_end
            invariant
                n == sizes.len(),
                sizes == line_sizes@,
                md == caps.max_docs,
                cap == caps.max_payload_bytes,
                md > 0,
                q >= 0,
                chunk_start == q * md,
                chunk_start < chunk_end <= n,
                chunk_end <= chunk_start + md,
                chunk_end == n || chunk_end as int % md as int == 0,
                chunk_start <= sub_start <= chunk_end,
                plan_covers(sizes, *caps, plan@, sub_start as int),
            decreases chunk_end - sub_start,
        {
            let mut bytes: usize = 0;
            let mut end = sub_start;
            let mut full = false;
            while end < chunk_end && !full
                invariant
                    n == sizes.len(),
                    sizes == line_sizes@,
                    cap == caps.max_payload_bytes,
                    sub_start < chunk_end <= n,
                    sub_start <= end <= chunk_end,
                    bytes == range_bytes(sizes, sub_start as int, end as int),
                    bytes <= cap || end == sub_start + 1,
                    full ==> end > sub_start && end < chunk_end,
                    full ==> range_bytes(sizes, sub_start as int, end + 1) > cap,
                decreases chunk_end - end, if full { 0int } else { 1int },
            {
                let size = line_sizes[end];
                if end > sub_start && (bytes > cap || size > cap - bytes) {
                    full = true;
                } else {
                    bytes = bytes + size;
                    end = end + 1;
                }
            }
            let span = BatchSpan { start: sub_start, end, bytes };
            proof {
                assert forall|m: int| sub_start < m < end implies #[trigger] (m % md as int) != 0 by {
                    lemma_fundamental_div_mod_converse(m, md as int, q, m - q * md);
                }
                assert(span_fits(sizes, *caps, span));
                assert(span_is_closed(sizes, *caps, span));
            }
            let ghost old_plan = plan@;
            plan.push(span);
            proof {
                assert(plan@ == old_plan.push(span));
                assert forall|k: int| 0 <= k < plan@.len() - 1 implies (#[trigger] plan@[k]).end == plan@[k + 1].start by {
                    if k < old_plan.len() - 1 {
                        assert(plan@[k] == old_plan[k]);
                        assert(plan@[k + 1] == old_plan[k + 1]);
                    }
                }
            }
            sub_start = end;
        }
        chunk_start = chunk_end;
        proof {
            q = q + 1;
            if chunk_start < n {
                assert(chunk_start == q * md) by (nonlinear_arith)
                    requires chunk_start == (q - 1) * md + md;
            }
        }
    }
    plan
}

} // verus!
