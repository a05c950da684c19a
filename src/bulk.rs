use crate::batch::{is_batch_plan, plan_batches, range_bytes, BatchCaps, BatchSpan};
use crate::error::SyncError;
use vstd::prelude::*;

verus! {

/// serde_json's error type, carried opaquely out of `json_string`.
#[verifier::external_type_specification]
#[verifier::external_body]
pub struct ExJsonError(serde_json::Error);

/// The JSON string literal (quotes and escapes included) that denotes `s`.
pub uninterp spec fn json_string_bytes(s: Seq<char>) -> Seq<u8>;

/// Relies on `serde_json::to_vec` applied to a `str`: the bytes are the JSON
/// string literal of the text, which depends on the text alone. Serializing a
/// `str` fails only where the writer fails, and writing to a `Vec` does not.
#[verifier::external_body]
fn json_string(s: &str) -> (r: Result<Vec<u8>, serde_json::Error>)
    ensures
        r is Ok,
        r matches Ok(b) ==> b@ == json_string_bytes(s@),
{
    serde_json::to_vec(s)
}

/// The line separator of the bulk wire format, `\n`.
pub open spec fn newline() -> u8 {
    10u8
}

/// The bytes of the literal text `{"index":{"_index":`.
pub open spec fn action_prefix() -> Seq<u8> {
    seq![123u8, 34, 105, 110, 100, 101, 120, 34, 58, 123, 34, 95, 105, 110, 100, 101, 120, 34, 58]
}

/// The bytes of the literal text `}}`.
pub open spec fn action_suffix() -> Seq<u8> {
    seq![125u8, 125]
}

/// The bulk index-action directive that targets the index whose JSON string
/// literal is `quoted_index`.
pub open spec fn index_action(quoted_index: Seq<u8>) -> Seq<u8> {
    action_prefix() + quoted_index + action_suffix()
}

/// One record in the bulk wire format: the action directive, a newline, the
/// record's document, a newline.
pub open spec fn framed_line(action: Seq<u8>, doc: Seq<u8>) -> Seq<u8> {
    action + seq![newline()] + doc + seq![newline()]
}

/// The request body that carries the documents `docs[start..end]`.
pub open spec fn bulk_body_of(action: Seq<u8>, docs: Seq<Vec<u8>>, start: int, end: int) -> Seq<u8>
    decreases end - start,
{
    if end <= start {
        Seq::empty()
    } else {
        bulk_body_of(action, docs, start, end - 1) + framed_line(action, docs[end - 1]@)
    }
}

/// The framed size of each document: directive, document and two newlines.
pub open spec fn framed_sizes(action_len: int, docs: Seq<Vec<u8>>) -> Seq<usize> {
    docs.map_values(|d: Vec<u8>| (action_len + d@.len() + 2) as usize)
}

fn push_bytes(out: &mut Vec<u8>, src: &Vec<u8>)
    ensures
        final(out)@ == old(out)@ + src@,
{
    let mut i: usize = 0;
    while i < src.len()
        invariant
            i <= src@.len(),
            out@ == old(out)@ + src@.subrange(0, i as int),
        decreases src@.len() - i,
    {
        out.push(src[i]);
        i = i + 1;
        assert(out@ =~= old(out)@ + src@.subrange(0, i as int));
    }
    assert(src@.subrange(0, i as int) =~= src@);
}

/// Builds the index-action directive around the JSON string literal of an
/// index name: `{"index":{"_index":` + literal + `}}`.
pub fn index_action_for(quoted_index: &Vec<u8>) -> (r: Vec<u8>)
    ensures
        r@ == index_action(quoted_index@),
{
    let mut action: Vec<u8> = Vec::new();
    let prefix: Vec<u8> = vec![123u8, 34, 105, 110, 100, 101, 120, 34, 58, 123, 34, 95, 105, 110, 100, 101, 120, 34, 58];
    let suffix: Vec<u8> = vec![125u8, 125];
    push_bytes(&mut action, &prefix);
    push_bytes(&mut action, quoted_index);
    push_bytes(&mut action, &suffix);
    assert(prefix@ =~= action_prefix());
    assert(suffix@ =~= action_suffix());
    action
}

/// Builds the index-action directive for `index_name`, the header line that
/// precedes every document in a bulk request.
pub fn index_action_line(index_name: &str) -> (r: Result<Vec<u8>, SyncError>)
    ensures
        r is Ok,
        r matches Ok(a) ==> a@ == index_action(json_string_bytes(index_name@)),
{
    match json_string(index_name) {
        Ok(quoted) => Ok(index_action_for(&quoted)),
        Err(_) => Err(SyncError::EncodingFailed),
    }
}

/// The framed size of every document under the directive `action`.
pub fn line_sizes(action: &Vec<u8>, docs: &Vec<Vec<u8>>) -> (r: Vec<usize>)
    requires
        forall|i: int| 0 <= i < docs@.len() ==> action@.len() + (#[trigger] docs@[i])@.len() + 2 <= usize::MAX,
    ensures
        r@ == framed_sizes(action@.len() as int, docs@),
{
    let mut r: Vec<usize> = Vec::new();
    let mut i: usize = 0;
    while i < docs.len()
        invariant
            i <= docs@.len(),
            forall|j: int| 0 <= j < docs@.len() ==> action@.len() + (#[trigger] docs@[j])@.len() + 2 <= usize::MAX,
            r@ == framed_sizes(action@.len() as int, docs@.subrange(0, i as int)),
        decreases docs@.len() - i,
    {
        let size = action.len() + docs[i].len() + 2;
        r.push(size);
        i = i + 1;
        assert(r@ =~= framed_sizes(action@.len() as int, docs@.subrange(0, i as int)));
    }
    assert(docs@.subrange(0, i as int) =~= docs@);
    r
}

/// Builds the request body of one batch: each of its documents, in order,
/// preceded by the directive and followed by a newline.
pub fn bulk_body(action: &Vec<u8>, docs: &Vec<Vec<u8>>, span: &BatchSpan) -> (r: Vec<u8>)
    requires
        span.start <= span.end <= docs@.len(),
    ensures
        r@ == bulk_body_of(action@, docs@, span.start as int, span.end as int),
{
    let mut body: Vec<u8> = Vec::new();
    let mut i = span.start;
    let nl: Vec<u8> = vec![10u8];
    while i < span.end
        invariant
            span.start <= i <= span.end <= docs@.len(),
            nl@ == seq![newline()],
            body@ == bulk_body_of(action@, docs@, span.start as int, i as int),
        decreases span.end - i,
    {
        push_bytes(&mut body, action);
        push_bytes(&mut body, &nl);
        push_bytes(&mut body, &docs[i]);
        push_bytes(&mut body, &nl);
        i = i + 1;
        assert(body@ =~= bulk_body_of(action@, docs@, span.start as int, i as int));
    }
    body
}

/// One bulk request: the batch it carries and its body.
pub struct BulkRequest {
    pub span: BatchSpan,
    pub body: Vec<u8>,
}

/// The batches that the requests carry, in order.
pub open spec fn request_spans(requests: Seq<BulkRequest>) -> Seq<BatchSpan> {
    requests.map_values(|q: BulkRequest| q.span)
}

/// The bodies of the requests of `plan`, in order.
pub open spec fn plan_bodies(action: Seq<u8>, docs: Seq<Vec<u8>>, plan: Seq<BatchSpan>) -> Seq<Seq<u8>> {
    plan.map_values(|s: BatchSpan| bulk_body_of(action, docs, s.start as int, s.end as int))
}

/// Builds every bulk request for `docs` under the directive `action`: the
/// documents are planned into batches under `caps`, and each batch is framed
/// into one body, in order.
pub fn bulk_requests(action: &Vec<u8>, docs: &Vec<Vec<u8>>, caps: &BatchCaps) -> (r: Vec<BulkRequest>)
    requires
        caps.max_docs > 0,
        forall|i: int| 0 <= i < docs@.len() ==> action@.len() + (#[trigger] docs@[i])@.len() + 2 <= usize::MAX,
    ensures
        is_batch_plan(framed_sizes(action@.len() as int, docs@), *caps, request_spans(r@)),
        forall|k: int|
            0 <= k < r@.len() ==> (#[trigger] r@[k]).body@ == bulk_body_of(
                action@,
                docs@,
                r@[k].span.start as int,
                r@[k].span.end as int,
            ),
        forall|k: int| 0 <= k < r@.len() ==> (#[trigger] r@[k]).body@.len() == r@[k].span.bytes,
{
    let sizes = line_sizes(action, docs);
    let plan = plan_batches(&sizes, caps);
    let mut requests: Vec<BulkRequest> = Vec::new();
    let mut k: usize = 0;
    while k < plan.len()
        invariant
            sizes@ == framed_sizes(action@.len() as int, docs@),
            forall|i: int| 0 <= i < docs@.len() ==> action@.len() + (#[trigger] docs@[i])@.len() + 2 <= usize::MAX,
            is_batch_plan(sizes@, *caps, plan@),
            k <= plan@.len(),
            requests@.len() == k,
            request_spans(requests@) == plan@.subrange(0, k as int),
            forall|j: int|
                0 <= j < requests@.len() ==> (#[trigger] requests@[j]).body@ == bulk_body_of(
                    action@,
                    docs@,
                    requests@[j].span.start as int,
                    requests@[j].span.end as int,
                ),
            forall|j: int| 0 <= j < requests@.len() ==> (#[trigger] requests@[j]).body@.len() == requests@[j].span.bytes,
        decreases plan@.len() - k,
    {
        let span = plan[k];
        assert(crate::batch::span_fits(sizes@, *caps, plan@[k as int]));
        let body = bulk_body(action, docs, &span);
        proof {
            lemma_body_len_is_planned_size(action@, docs@, span.start as int, span.end as int);
        }
        let ghost before = requests@;
        requests.push(BulkRequest { span, body });
        k = k + 1;
        assert forall|j: int| 0 <= j < requests@.len() implies #[trigger] request_spans(requests@)[j] == plan@[j] by {
            assert(before.len() == k - 1);
            if j < before.len() {
                assert(requests@[j] == before[j]);
                assert(request_spans(before)[j] == plan@.subrange(0, k - 1)[j]);
            } else {
                assert(requests@[j].span == span);
            }
        }
        assert(request_spans(requests@) =~= plan@.subrange(0, k as int));
        assert forall|j: int| 0 <= j < requests@.len() implies (#[trigger] requests@[j]).body@ == bulk_body_of(
            action@,
            docs@,
            requests@[j].span.start as int,
            requests@[j].span.end as int,
        ) by {
            if j < before.len() {
                assert(requests@[j] == before[j]);
            }
        }
        assert forall|j: int| 0 <= j < requests@.len() implies (#[trigger] requests@[j]).body@.len()
            == requests@[j].span.bytes by {
            if j < before.len() {
                assert(requests@[j] == before[j]);
            }
        }
    }
    assert(plan@.subrange(0, k as int) =~= plan@);
    requests
}

/// The body of a range is the body of its first part followed by the body
/// of the rest.
proof fn lemma_body_split(action: Seq<u8>, docs: Seq<Vec<u8>>, start: int, mid: int, end: int)
    requires
        start <= mid <= end,
    ensures
        bulk_body_of(action, docs, start, mid) + bulk_body_of(action, docs, mid, end) =~= bulk_body_of(
            action,
            docs,
            start,
            end,
        ),
    decreases end - mid,
{
    if mid < end {
        lemma_body_split(action, docs, start, mid, end - 1);
    } else {
        assert(bulk_body_of(action, docs, mid, end) =~= Seq::<u8>::empty());
    }
}

proof fn lemma_bodies_cover_prefix(
    action: Seq<u8>,
    docs: Seq<Vec<u8>>,
    caps: BatchCaps,
    plan: Seq<BatchSpan>,
    upto: int,
)
    requires
        crate::batch::plan_covers(framed_sizes(action.len() as int, docs), caps, plan, upto),
    ensures
        plan_bodies(action, docs, plan).flatten() =~= bulk_body_of(action, docs, 0, upto),
    decreases plan.len(),
{
    let sizes = framed_sizes(action.len() as int, docs);
    if plan.len() == 0 {
        assert(plan_bodies(action, docs, plan) =~= Seq::<Seq<u8>>::empty());
        assert(bulk_body_of(action, docs, 0, 0) =~= Seq::<u8>::empty());
    } else {
        let init = plan.drop_last();
        let last = plan.last();
        assert(crate::batch::span_fits(sizes, caps, plan[plan.len() - 1]));
        crate::batch::lemma_covers_drop_last(sizes, caps, plan, upto);
        lemma_bodies_cover_prefix(action, docs, caps, init, last.start as int);
        let piece = bulk_body_of(action, docs, last.start as int, last.end as int);
        assert(plan_bodies(action, docs, plan) =~= plan_bodies(action, docs, init).push(piece));
        plan_bodies(action, docs, init).lemma_flatten_push(piece);
        lemma_body_split(action, docs, 0, last.start as int, upto);
    }
}

/// Sending the requests of a plan one after another puts on the wire exactly
/// the framing of all documents in their input order.
pub proof fn lemma_requests_frame_input_in_order(
    action: Seq<u8>,
    docs: Seq<Vec<u8>>,
    caps: BatchCaps,
    plan: Seq<BatchSpan>,
)
    requires
        is_batch_plan(framed_sizes(action.len() as int, docs), caps, plan),
    ensures
        plan_bodies(action, docs, plan).flatten() == bulk_body_of(action, docs, 0, docs.len() as int),
{
    lemma_bodies_cover_prefix(action, docs, caps, plan, docs.len() as int);
}

/// Turns the status and body of the sink's answer into the outcome of one
/// bulk request: any 2xx status is success, every other is a rejection that
/// carries the status and the body.
pub fn check_bulk_response(status: u16, body: String) -> (r: Result<(), SyncError>)
    ensures
        200 <= status <= 299 ==> r is Ok,
        !(200 <= status <= 299) ==> r == Err::<(), SyncError>(SyncError::SinkRejected { status, body }),
{
    if 200 <= status && status <= 299 {
        Ok(())
    } else {
        Err(SyncError::SinkRejected { status, body })
    }
}

/// The body of a batch is exactly as long as the framed size that the plan
/// counted for it.
pub proof fn lemma_body_len_is_planned_size(action: Seq<u8>, docs: Seq<Vec<u8>>, start: int, end: int)
    requires
        0 <= start <= end <= docs.len(),
        forall|i: int| 0 <= i < docs.len() ==> action.len() + (#[trigger] docs[i])@.len() + 2 <= usize::MAX,
    ensures
        bulk_body_of(action, docs, start, end).len() == range_bytes(
            framed_sizes(action.len() as int, docs),
            start,
            end,
        ),
    decreases end - start,
{
    if start < end {
        lemma_body_len_is_planned_size(action, docs, start, end - 1);
    }
}

} // verus!
