use log_sync::batch::{BatchCaps, BatchSpan};
use log_sync::bulk::{bulk_body, bulk_requests, check_bulk_response, index_action_line, line_sizes};
use log_sync::error::SyncError;

#[test]
fn action_line_names_the_index() {
    let action = index_action_line("logs").unwrap();
    assert_eq!(action, br#"{"index":{"_index":"logs"}}"#.to_vec());
}

#[test]
fn action_line_escapes_the_index_name() {
    let action = index_action_line("a\"b").unwrap();
    assert_eq!(action, br#"{"index":{"_index":"a\"b"}}"#.to_vec());
}

#[test]
fn line_sizes_count_directive_document_and_newlines() {
    let action = index_action_line("logs").unwrap();
    let docs = vec![b"{}".to_vec(), b"{\"a\":1}".to_vec()];
    assert_eq!(line_sizes(&action, &docs), vec![27 + 2 + 2, 27 + 7 + 2]);
}

#[test]
fn bulk_body_frames_each_document() {
    let action = b"A".to_vec();
    let docs = vec![b"x".to_vec(), b"yy".to_vec(), b"z".to_vec()];
    let body = bulk_body(&action, &docs, &BatchSpan { start: 1, end: 3, bytes: 9 });
    assert_eq!(body, b"A\nyy\nA\nz\n".to_vec());
    assert_eq!(body.len(), 9);
}

#[test]
fn bulk_body_of_empty_span_is_empty() {
    let docs = vec![b"x".to_vec()];
    let body = bulk_body(&b"A".to_vec(), &docs, &BatchSpan { start: 1, end: 1, bytes: 0 });
    assert!(body.is_empty());
}

#[test]
fn success_statuses_are_accepted() {
    assert_eq!(check_bulk_response(200, String::new()), Ok(()));
    assert_eq!(check_bulk_response(299, "x".to_string()), Ok(()));
}

#[test]
fn other_statuses_are_rejections_with_body() {
    assert_eq!(
        check_bulk_response(413, "too large".to_string()),
        Err(SyncError::SinkRejected { status: 413, body: "too large".to_string() })
    );
    assert_eq!(
        check_bulk_response(199, String::new()),
        Err(SyncError::SinkRejected { status: 199, body: String::new() })
    );
    assert!(check_bulk_response(300, String::new()).is_err());
}

#[test]
fn bulk_requests_frame_every_batch_in_order() {
    let action = b"{}".to_vec();
    let docs: Vec<Vec<u8>> = (0..5).map(|i| format!("{{\"n\":{i}}}").into_bytes()).collect();
    let requests = bulk_requests(&action, &docs, &BatchCaps { max_docs: 2, max_payload_bytes: 1000 });
    let spans: Vec<(usize, usize)> = requests.iter().map(|q| (q.span.start, q.span.end)).collect();
    assert_eq!(spans, vec![(0, 2), (2, 4), (4, 5)]);
    assert_eq!(requests[0].body, b"{}\n{\"n\":0}\n{}\n{\"n\":1}\n".to_vec());
    let wire: Vec<u8> = requests.iter().flat_map(|q| q.body.clone()).collect();
    let mut expected = Vec::new();
    for d in &docs {
        expected.extend_from_slice(b"{}\n");
        expected.extend_from_slice(d);
        expected.push(b'\n');
    }
    assert_eq!(wire, expected);
    for q in &requests {
        assert_eq!(q.body.len(), q.span.bytes);
    }
}

#[test]
fn bulk_requests_split_on_payload_size() {
    let action = index_action_line("logs").unwrap();
    let docs = vec![vec![b'a'; 40], vec![b'b'; 40], vec![b'c'; 40]];
    // Each framed line is 27 + 40 + 2 = 69 bytes; two fit under 140.
    let requests = bulk_requests(&action, &docs, &BatchCaps { max_docs: 10, max_payload_bytes: 140 });
    let bytes: Vec<usize> = requests.iter().map(|q| q.span.bytes).collect();
    assert_eq!(bytes, vec![138, 69]);
}

#[test]
fn no_documents_no_requests() {
    let requests = bulk_requests(&b"{}".to_vec(), &Vec::new(), &BatchCaps { max_docs: 1, max_payload_bytes: 1 });
    assert!(requests.is_empty());
}

#[test]
fn action_directive_wraps_the_quoted_name() {
    assert_eq!(
        log_sync::bulk::index_action_for(&b"\"x\"".to_vec()),
        br#"{"index":{"_index":"x"}}"#.to_vec()
    );
}

#[test]
fn action_line_never_fails_on_unusual_names() {
    assert_eq!(index_action_line("").unwrap(), br#"{"index":{"_index":""}}"#.to_vec());
    assert_eq!(index_action_line("a\\b\n").unwrap(), br#"{"index":{"_index":"a\\b\n"}}"#.to_vec());
}
