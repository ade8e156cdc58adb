use images_api::range::{parse_range, ByteRange, RangeError};
use images_api::stream::{plan_for_header, plan_stream, ChunkBudget, StreamStatus};
use images_api::text::decimal_string;

fn stream_body(content: &[u8], header: Option<&str>, chunk: usize) -> (u16, Option<String>, String, Vec<u8>) {
    let plan = plan_for_header(header, content.len() as u64).unwrap();
    let mut budget = ChunkBudget::new(&plan);
    let mut body = Vec::new();
    let mut pos = plan.offset as usize;
    while !budget.is_done() && pos < content.len() {
        let end = std::cmp::min(pos + chunk, content.len());
        body.extend(budget.pass_on(content[pos..end].to_vec()));
        pos = end;
    }
    (plan.status_code(), plan.content_range(), plan.content_length(), body)
}

#[test]
fn closed_range_is_exact() {
    assert_eq!(parse_range("bytes=0-0", 1), Ok(ByteRange { start: 0, end: 0 }));
    assert_eq!(parse_range("bytes=10-20", 100), Ok(ByteRange { start: 10, end: 20 }));
    assert_eq!(parse_range("bytes=99-99", 100), Ok(ByteRange { start: 99, end: 99 }));
}

#[test]
fn open_start_reads_as_zero() {
    assert_eq!(parse_range("bytes=-5", 10), Ok(ByteRange { start: 0, end: 5 }));
    assert_eq!(parse_range("bytes=-0", 1), Ok(ByteRange { start: 0, end: 0 }));
}

#[test]
fn open_end_runs_to_last_byte() {
    assert_eq!(parse_range("bytes=3-", 10), Ok(ByteRange { start: 3, end: 9 }));
    assert_eq!(parse_range("bytes=0-", 1), Ok(ByteRange { start: 0, end: 0 }));
}

#[test]
fn malformed_headers_are_refused() {
    assert_eq!(parse_range("byte=0-10", 100), Err(RangeError::MissingPrefix));
    assert_eq!(parse_range("bytes=10", 100), Err(RangeError::MissingSeparator));
    assert_eq!(parse_range("bytes=abc-10", 100), Err(RangeError::InvalidStart));
    assert_eq!(parse_range("bytes=10-5", 100), Err(RangeError::Unsatisfiable));
    assert_eq!(parse_range("bytes=0-100", 100), Err(RangeError::Unsatisfiable));
    assert_eq!(parse_range("bytes=0-x", 100), Err(RangeError::InvalidEnd));
    assert_eq!(parse_range("bytes=1-2-3", 100), Err(RangeError::InvalidEnd));
    assert_eq!(parse_range("", 100), Err(RangeError::MissingPrefix));
}

#[test]
fn number_edge_cases_follow_u64_parsing() {
    assert_eq!(parse_range("bytes=+1-+2", 10), Ok(ByteRange { start: 1, end: 2 }));
    assert_eq!(parse_range("bytes=+-2", 10), Err(RangeError::InvalidStart));
    assert_eq!(
        parse_range("bytes=0-18446744073709551615", u64::MAX),
        Err(RangeError::Unsatisfiable)
    );
    assert_eq!(parse_range("bytes=0-18446744073709551616", u64::MAX), Err(RangeError::InvalidEnd));
    assert_eq!(
        parse_range("bytes=0-18446744073709551614", u64::MAX),
        Ok(ByteRange { start: 0, end: u64::MAX - 1 })
    );
}

#[test]
fn empty_resource_has_no_ranges() {
    assert_eq!(parse_range("bytes=0-", 0), Err(RangeError::Unsatisfiable));
    assert_eq!(parse_range("bytes=-", 0), Err(RangeError::Unsatisfiable));
    assert_eq!(parse_range("bytes=0-0", 0), Err(RangeError::Unsatisfiable));
    assert_eq!(parse_range("bytes=-", 7), Ok(ByteRange { start: 0, end: 6 }));
}

#[test]
fn error_messages() {
    assert_eq!(RangeError::MissingPrefix.message(), "Invalid range header format");
    assert_eq!(RangeError::MissingSeparator.message(), "Invalid range header format");
    assert_eq!(RangeError::InvalidStart.message(), "Invalid range start");
    assert_eq!(RangeError::InvalidEnd.message(), "Invalid range end");
    assert_eq!(RangeError::Unsatisfiable.message(), "Invalid range");
}

#[test]
fn range_length() {
    assert_eq!(ByteRange { start: 500, end: 999 }.len(), 500);
    assert_eq!(ByteRange { start: 0, end: 0 }.len(), 1);
}

#[test]
fn decimal_strings() {
    assert_eq!(decimal_string(0), "0");
    assert_eq!(decimal_string(7), "7");
    assert_eq!(decimal_string(1000), "1000");
    assert_eq!(decimal_string(u64::MAX), "18446744073709551615");
}

#[test]
fn whole_and_full_range_send_the_same_bytes() {
    let content: Vec<u8> = (0..257u32).map(|i| (i % 251) as u8).collect();
    let (status, range, length, body) = stream_body(&content, None, 64);
    assert_eq!(status, 200);
    assert_eq!(range, None);
    assert_eq!(length, "257");
    assert_eq!(body, content);
    let (status, range, length, body) = stream_body(&content, Some("bytes=0-256"), 10);
    assert_eq!(status, 206);
    assert_eq!(range, Some("bytes 0-256/257".to_string()));
    assert_eq!(length, "257");
    assert_eq!(body, content);
}

#[test]
fn end_to_end_last_500_bytes() {
    let content: Vec<u8> = (0..1000u32).map(|i| (i * 7 % 256) as u8).collect();
    let (status, range, length, body) = stream_body(&content, Some("bytes=500-999"), 128);
    assert_eq!(status, 206);
    assert_eq!(range, Some("bytes 500-999/1000".to_string()));
    assert_eq!(length, "500");
    assert_eq!(body, content[500..].to_vec());
}

#[test]
fn middle_range_stops_at_its_end() {
    let content: Vec<u8> = (0..100u8).collect();
    let (status, _, length, body) = stream_body(&content, Some("bytes=10-19"), 7);
    assert_eq!(status, 206);
    assert_eq!(length, "10");
    assert_eq!(body, (10..20u8).collect::<Vec<u8>>());
}

#[test]
fn plans_and_headers() {
    let whole = plan_stream(None, 42);
    assert_eq!(whole.status, StreamStatus::Whole);
    assert_eq!((whole.offset, whole.length), (0, 42));
    assert_eq!(whole.accept_ranges(), "bytes");
    let part = plan_stream(Some(ByteRange { start: 2, end: 4 }), 42);
    assert_eq!(part.status, StreamStatus::Partial);
    assert_eq!((part.offset, part.length), (2, 3));
    assert_eq!(part.content_range(), Some("bytes 2-4/42".to_string()));
    assert_eq!(plan_for_header(Some("bytes=9-3"), 42), Err(RangeError::Unsatisfiable));
}

#[test]
fn budget_cuts_chunks() {
    let plan = plan_stream(Some(ByteRange { start: 0, end: 4 }), 10);
    let mut budget = ChunkBudget::new(&plan);
    assert_eq!(budget.remaining(), 5);
    assert_eq!(budget.pass_on(vec![1, 2, 3]), vec![1, 2, 3]);
    assert!(!budget.is_done());
    assert_eq!(budget.pass_on(vec![4, 5, 6, 7]), vec![4, 5]);
    assert!(budget.is_done());
    assert_eq!(budget.pass_on(vec![8]), Vec::<u8>::new());
}
