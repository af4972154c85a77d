use media_extract::error::EngineError;
use media_extract::request::TimeRange;
use media_extract::validate::{parse_gap, ranges_from_rows, validate_request};

fn payload() -> Vec<u8> {
    vec![0x41, 0x42, 0x43]
}

#[test]
fn single_range_decodes() {
    let r = validate_request(&payload(), Some("[[0,2000]]"), None, None, None);
    let req = r.unwrap();
    assert_eq!(req.ranges.len(), 1);
    assert_eq!(req.ranges[0], TimeRange { start_ms: 0, end_ms: 2000 });
    assert_eq!(req.gap_ms, 500);
    assert_eq!(req.correlation_id, "unknown");
    assert_eq!(req.label, "unknown");
}

#[test]
fn two_ranges_decode_in_order() {
    let r = validate_request(
        &payload(),
        Some("[[1000,3000],[5000,6000]]"),
        Some("250"),
        Some("seg-7"),
        Some("alice"),
    );
    let req = r.unwrap();
    assert_eq!(req.ranges.len(), 2);
    assert_eq!(req.ranges[0], TimeRange { start_ms: 1000, end_ms: 3000 });
    assert_eq!(req.ranges[1], TimeRange { start_ms: 5000, end_ms: 6000 });
    assert_eq!(req.gap_ms, 250);
    assert_eq!(req.correlation_id, "seg-7");
    assert_eq!(req.label, "alice");
}

#[test]
fn empty_payload_is_client_fault() {
    let r = validate_request(&Vec::new(), Some("[[0,2000]]"), None, None, None);
    match r {
        Err(EngineError::EmptyInput) => {
            assert_eq!(EngineError::EmptyInput.status_code(), 400);
            assert_eq!(EngineError::EmptyInput.message(), "No audio data received");
        }
        _ => panic!("empty payload must be rejected as EmptyInput"),
    }
}

#[test]
fn missing_ranges_header_is_malformed() {
    let r = validate_request(&payload(), None, None, None, None);
    match r {
        Err(EngineError::MalformedInput(m)) => {
            assert_eq!(m, "invalid time range encoding");
        }
        _ => panic!("missing range header must be malformed input"),
    }
}

#[test]
fn undecodable_ranges_are_malformed() {
    let r = validate_request(&payload(), Some("not json"), None, None, None);
    match r {
        Err(e) => {
            assert_eq!(e.status_code(), 400);
            assert!(matches!(e, EngineError::MalformedInput(m) if m == "invalid time range encoding"));
        }
        _ => panic!("undecodable ranges must be malformed input"),
    }
}

#[test]
fn out_of_range_number_is_malformed() {
    let r = validate_request(&payload(), Some("[[0,3000000000]]"), None, None, None);
    assert!(matches!(
        r,
        Err(EngineError::MalformedInput(m)) if m == "invalid time range encoding"
    ));
}

#[test]
fn empty_range_list_is_malformed() {
    let r = validate_request(&payload(), Some("[]"), None, None, None);
    assert!(matches!(
        r,
        Err(EngineError::MalformedInput(m)) if m == "invalid time range encoding"
    ));
}

#[test]
fn non_pair_row_is_malformed() {
    let r = validate_request(&payload(), Some("[[0,2000,9]]"), None, None, None);
    assert!(matches!(
        r,
        Err(EngineError::MalformedInput(m)) if m == "invalid time range encoding"
    ));
}

#[test]
fn zero_duration_is_rejected() {
    let r = validate_request(&payload(), Some("[[2000,2000]]"), None, None, None);
    assert!(matches!(
        r,
        Err(EngineError::MalformedInput(m)) if m == "non-positive duration"
    ));
}

#[test]
fn reversed_range_is_rejected() {
    let r = validate_request(&payload(), Some("[[3000,1000]]"), None, None, None);
    assert!(matches!(
        r,
        Err(EngineError::MalformedInput(m)) if m == "non-positive duration"
    ));
}

#[test]
fn first_defect_decides_the_diagnostic() {
    let r = validate_request(&payload(), Some("[[0,1],[5,5],[2]]"), None, None, None);
    assert!(matches!(
        r,
        Err(EngineError::MalformedInput(m)) if m == "non-positive duration"
    ));
}

#[test]
fn negative_start_is_accepted() {
    let r = validate_request(&payload(), Some("[[-500,1000]]"), None, None, None);
    let req = r.unwrap();
    assert_eq!(req.ranges[0], TimeRange { start_ms: -500, end_ms: 1000 });
}

#[test]
fn gap_defaults_and_fallbacks() {
    assert_eq!(parse_gap(None), 500);
    assert_eq!(parse_gap(Some("250")), 250);
    assert_eq!(parse_gap(Some("+75")), 75);
    assert_eq!(parse_gap(Some("0")), 0);
    assert_eq!(parse_gap(Some("2147483647")), 2147483647);
    assert_eq!(parse_gap(Some("2147483648")), 500);
    assert_eq!(parse_gap(Some("99999999999")), 500);
    assert_eq!(parse_gap(Some("abc")), 500);
    assert_eq!(parse_gap(Some("-5")), 500);
    assert_eq!(parse_gap(Some("")), 500);
    assert_eq!(parse_gap(Some("+")), 500);
    assert_eq!(parse_gap(Some("12 ")), 500);
}

#[test]
fn rows_are_mapped_pairwise() {
    let rows = vec![vec![10, 20], vec![30, 45]];
    let rs = ranges_from_rows(&rows).unwrap();
    assert_eq!(rs.len(), 2);
    assert_eq!(rs[0], TimeRange { start_ms: 10, end_ms: 20 });
    assert_eq!(rs[1], TimeRange { start_ms: 30, end_ms: 45 });
}
