use model_surgery::trace::{
    check_trace_header, frame_trace, load_trace_artifact, save_trace_artifact, trace_artifact_location,
    trace_header_span, trace_page_span, validate_artifact, ChatTraceArtifact, TraceHeaderFields,
    PAGED_TRACE_VERSION, TRACE_VERSION,
};
use model_surgery::trace::{frame_paged_trace, token_page_lengths, validate_paged_trace};

fn artifact() -> ChatTraceArtifact {
    ChatTraceArtifact {
        conversation_id: "conv-1".to_string(),
        assistant_message_id: "msg-2".to_string(),
        model_fingerprint: "gemma-3-4b".to_string(),
        payload: vec![1, 2, 3, 4, 5],
    }
}

fn header(version: u32) -> TraceHeaderFields {
    TraceHeaderFields {
        version,
        conversation_id: "conv-1".to_string(),
        assistant_message_id: "msg-2".to_string(),
        model_fingerprint: "gemma-3-4b".to_string(),
        token_count: 2,
        page_count: 2,
    }
}

#[test]
fn frames_a_trace_with_magic_length_header_and_payload() {
    let framed = frame_trace(b"{}", &[9, 8]).unwrap();
    assert_eq!(framed, vec![b'M', b'I', b'T', b'R', b'A', b'C', b'E', b'1', 2, 0, 0, 0, b'{', b'}', 9, 8]);
}

#[test]
fn saved_trace_reads_back() {
    let a = artifact();
    let bytes = save_trace_artifact(&a, b"{\"version\":2}").unwrap();
    let (start, end) = trace_header_span(&bytes).unwrap();
    assert_eq!(start, 12);
    assert_eq!(&bytes[start..end], b"{\"version\":2}");
    let loaded = load_trace_artifact(&bytes, end, header(TRACE_VERSION), "conv-1", "msg-2").unwrap();
    assert_eq!(loaded, a);
}

#[test]
fn refuses_invalid_artifacts_and_foreign_headers() {
    let mut a = artifact();
    a.model_fingerprint = "  ".to_string();
    assert_eq!(validate_artifact(&a).unwrap_err(), "Trace artifact is invalid.");
    assert_eq!(save_trace_artifact(&a, b"{}").unwrap_err(), "Trace artifact is invalid.");
    assert!(validate_artifact(&artifact()).is_ok());
    assert_eq!(
        check_trace_header(&header(TRACE_VERSION), "conv-1", "other").unwrap_err(),
        "Trace artifact is not valid."
    );
    assert!(check_trace_header(&header(PAGED_TRACE_VERSION), "conv-1", "msg-2").is_ok());
    assert_eq!(
        check_trace_header(&header(9), "conv-1", "msg-2").unwrap_err(),
        "Trace artifact is not valid."
    );
}

#[test]
fn rejects_badly_framed_files() {
    assert!(trace_header_span(b"NOTTRACE\x00\x00\x00\x00").is_err());
    assert!(trace_header_span(&[b'M', b'I', b'T', b'R', b'A', b'C', b'E', b'1', 9, 0, 0, 0]).is_err());
}

#[test]
fn finds_token_pages() {
    let pages = vec![10, 20, 30];
    assert_eq!(trace_page_span(100, &pages, 0).unwrap(), (100, 10));
    assert_eq!(trace_page_span(100, &pages, 2).unwrap(), (130, 30));
    assert_eq!(trace_page_span(100, &pages, 3).unwrap_err(), "Trace token index is invalid.");
    assert_eq!(
        trace_page_span(u64::MAX, &pages, 1).unwrap_err(),
        "Trace artifact is not valid."
    );
}

#[test]
fn locates_trace_files_by_ids() {
    assert_eq!(
        trace_artifact_location("conv-1", "msg-2").unwrap(),
        ("conv-1".to_string(), "msg-2.trace".to_string())
    );
    assert_eq!(trace_artifact_location("..", "msg").unwrap_err(), "Trace artifact id is invalid.");
}

#[test]
fn paged_trace_pages_read_back_where_their_lengths_put_them() {
    let header = b"{\"version\":3}".to_vec();
    let pages = vec![b"{\"index\":1}".to_vec(), Vec::new(), b"{\"index\":3,\"x\":1}".to_vec()];
    let lengths = token_page_lengths(&pages);
    assert_eq!(lengths, vec![11, 0, 17]);
    let bytes = frame_paged_trace(&header, &pages).unwrap();
    assert_eq!(&bytes[..8], b"MITRACE1");
    let (start, end) = trace_header_span(&bytes).unwrap();
    assert_eq!(&bytes[start..end], &header[..]);
    for (i, page) in pages.iter().enumerate() {
        let (offset, length) = trace_page_span(end as u64, &lengths, i).unwrap();
        assert_eq!(&bytes[offset as usize..(offset + length) as usize], &page[..]);
    }
    assert_eq!(bytes.len(), end + 28);
}

#[test]
fn paged_traces_need_valid_ids_and_a_fingerprint() {
    assert_eq!(validate_paged_trace("conv-1", "msg-2", "gemma"), Ok(()));
    assert_eq!(validate_paged_trace("conv-1", "msg-2", "  "), Err("Trace artifact is invalid.".to_string()));
    assert_eq!(validate_paged_trace("../x", "msg-2", "gemma"), Err("Trace artifact is invalid.".to_string()));
}
