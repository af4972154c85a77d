//! Request validation.
//!
//! The raw parameter bundle — the encoded time ranges, the optional gap
//! duration, the optional identifiers — and the raw payload are checked and
//! turned into a well-formed `SegmentRequest`, or rejected with the exact
//! client fault: `EmptyInput` for a payload without bytes, `MalformedInput`
//! for a range payload that does not decode or holds a non-positive duration.

use vstd::prelude::*;
use vstd::string::StringExecFns;
use vstd::string::StringSliceAdditionalSpecFns;
use crate::error::EngineError;
use crate::request::{SegmentRequest, TimeRange};

verus! {

/// What `serde_json` decodes from `s` when asked for an array of integer
/// arrays: the decoded rows, or nothing when `s` is not such a JSON document
/// (or a number does not fit in 32 bits). The result depends on the
/// characters of `s` alone.
pub uninterp spec fn json_int_pairs(s: Seq<char>) -> Option<Seq<Seq<i32>>>;

/// Relies on `serde_json::from_str::<Vec<Vec<i32>>>`: a pure parse deciding
/// decode success and the decoded rows from the input characters alone.
#[verifier::external_body]
fn decode_int_pairs(s: &str) -> (r: Option<Vec<Vec<i32>>>)
    ensures
        match r {
            Some(v) => json_int_pairs(s@) == Some(v.deep_view()),
            None => json_int_pairs(s@) is None,
        },
{
    match serde_json::from_str::<Vec<Vec<i32>>>(s) {
        Ok(v) => Some(v),
        Err(_) => None,
    }
}

/// Is `b` the byte of a decimal digit?
pub open spec fn is_digit_byte(b: u8) -> bool {
    0x30 <= b <= 0x39
}

/// At least one byte, and every byte a decimal digit.
pub open spec fn all_digit_bytes(s: Seq<u8>) -> bool {
    s.len() > 0 && forall|i: int| 0 <= i < s.len() ==> is_digit_byte(#[trigger] s[i])
}

/// The value of the decimal digit string `s`.
pub open spec fn digits_value(s: Seq<u8>) -> nat
    decreases s.len(),
{
    if s.len() == 0 {
        0
    } else {
        digits_value(s.drop_last()) * 10 + (s.last() - 0x30) as nat
    }
}

/// `s` with one leading `'+'` stripped, if present.
pub open spec fn stripped(s: Seq<u8>) -> Seq<u8> {
    if s.len() > 0 && s[0] == 0x2b {
        s.drop_first()
    } else {
        s
    }
}

/// The gap duration a header value encodes: its decimal value when the text
/// is a non-negative integer within the signed 32-bit limit (one leading
/// `'+'` allowed), and 500 otherwise — an absent or unparsable gap never
/// fails a request.
pub open spec fn gap_of(h: Option<Seq<u8>>) -> u32 {
    match h {
        Option::None => 500,
        Option::Some(s) => {
            let d = stripped(s);
            if all_digit_bytes(d) && digits_value(d) <= 0x7fff_ffff {
                digits_value(d) as u32
            } else {
                500
            }
        },
    }
}

/// The UTF-8 bytes of an optional header value.
pub open spec fn opt_bytes(h: Option<&str>) -> Option<Seq<u8>> {
    match h {
        Option::Some(s) => Option::Some(s.spec_bytes()),
        Option::None => Option::None,
    }
}

proof fn lemma_digits_take_step(s: Seq<u8>, k: int)
    requires
        0 <= k < s.len(),
        is_digit_byte(s[k]),
    ensures
        digits_value(s.take(k + 1)) == digits_value(s.take(k)) * 10 + (s[k] - 0x30),
{
    assert(s.take(k + 1).drop_last() =~= s.take(k));
    assert(s.take(k + 1).last() == s[k]);
    assert(digits_value(s.take(k + 1)) == digits_value(s.take(k + 1).drop_last()) * 10 + (s.take(
        k + 1,
    ).last() - 0x30) as nat);
}

/// The gap duration of an optional raw header value.
pub fn parse_gap(h: Option<&str>) -> (g: u32)
    ensures
        g == gap_of(opt_bytes(h)),
        g <= 0x7fff_ffff,
{
    match h {
        None => 500,
        Some(s) => {
            let bytes = s.as_bytes();
            let start: usize = if bytes.len() > 0 && bytes[0] == 0x2b {
                1
            } else {
                0
            };
            let ghost d = stripped(s.spec_bytes());
            proof {
                assert(d =~= s.spec_bytes().skip(start as int));
            }
            if bytes.len() == start {
                proof {
                    assert(d.len() == 0);
                    assert(!all_digit_bytes(d));
                }
                return 500;
            }
            let mut ok = true;
            let mut over = false;
            let mut acc: u64 = 0;
            let mut i: usize = start;
            while i < bytes.len()
                invariant
                    bytes@ == s.spec_bytes(),
                    d == s.spec_bytes().skip(start as int),
                    start <= i <= bytes@.len(),
                    start < bytes@.len(),
                    ok <==> (forall|j: int|
                        start <= j < i ==> is_digit_byte(#[trigger] bytes@[j])),
                    ok && !over ==> acc == digits_value(d.take(i - start)) && acc
                        <= 0x7fff_ffff,
                    ok && over ==> digits_value(d.take(i - start)) > 0x7fff_ffff,
                decreases bytes@.len() - i,
            {
                let b = bytes[i];
                proof {
                    assert(d[i - start] == bytes@[i as int]);
                }
                if b < 0x30 || b > 0x39 {
                    ok = false;
                } else if ok && !over {
                    proof {
                        lemma_digits_take_step(d, i - start);
                    }
                    acc = acc * 10 + (b - 0x30) as u64;
                    if acc > 0x7fff_ffff {
                        over = true;
                    }
                } else if ok && over {
                    proof {
                        lemma_digits_take_step(d, i - start);
                    }
                }
                i += 1;
            }
            proof {
                assert(d.take(i - start) =~= d);
                if ok {
                    assert(forall|j: int| 0 <= j < d.len() ==> is_digit_byte(#[trigger] d[j]));
                    assert(all_digit_bytes(d));
                } else {
                    let j = choose|j: int|
                        start <= j < bytes@.len() && !is_digit_byte(#[trigger] bytes@[j]);
                    assert(d[j - start] == bytes@[j]);
                    assert(!all_digit_bytes(d));
                }
            }
            if ok && !over {
                acc as u32
            } else {
                500
            }
        },
    }
}

/// Is `row` an acceptable `[start_ms, end_ms]` pair: exactly two entries
/// with a positive duration?
pub open spec fn row_ok(row: Seq<i32>) -> bool {
    row.len() == 2 && row[1] > row[0]
}

/// Every decoded row acceptable, and at least one.
pub open spec fn all_rows_ok(rows: Seq<Seq<i32>>) -> bool {
    rows.len() >= 1 && forall|i: int| 0 <= i < rows.len() ==> row_ok(#[trigger] rows[i])
}

/// The diagnostic for the first unacceptable row: a row that is not a pair
/// cannot be read as a time range at all; a pair without a positive duration
/// is rejected for its duration. Meaningful only when not all rows are
/// acceptable.
pub open spec fn rows_error_chars(rows: Seq<Seq<i32>>) -> Seq<char>
    recommends
        !all_rows_ok(rows),
    decreases rows.len(),
{
    if rows.len() == 0 {
        "invalid time range encoding"@
    } else if rows[0].len() != 2 {
        "invalid time range encoding"@
    } else if !(rows[0][1] > rows[0][0]) {
        "non-positive duration"@
    } else {
        rows_error_chars(rows.drop_first())
    }
}

proof fn lemma_rows_error_skip_step(rows: Seq<Seq<i32>>, i: int)
    requires
        0 <= i < rows.len(),
        row_ok(rows[i]),
    ensures
        rows_error_chars(rows.skip(i)) == rows_error_chars(rows.skip(i + 1)),
{
    assert(rows.skip(i)[0] == rows[i]);
    assert(rows.skip(i).drop_first() =~= rows.skip(i + 1));
}

/// Turn the decoded rows into validated time ranges: every row must be a
/// `[start_ms, end_ms]` pair with `end_ms > start_ms`, and there must be at
/// least one. The first unacceptable row decides the diagnostic.
pub fn ranges_from_rows(rows: &Vec<Vec<i32>>) -> (r: Result<Vec<TimeRange>, EngineError>)
    ensures
        r is Ok <==> all_rows_ok(rows.deep_view()),
        r matches Ok(rs) ==> {
            &&& rs@.len() == rows.deep_view().len()
            &&& forall|i: int|
                0 <= i < rs@.len() ==> (#[trigger] rs@[i]).start_ms == rows.deep_view()[i][0]
                    && rs@[i].end_ms == rows.deep_view()[i][1]
            &&& forall|i: int| 0 <= i < rs@.len() ==> (#[trigger] rs@[i]).wf()
        },
        r matches Err(e) ==> (e matches EngineError::MalformedInput(m) && m@
            == rows_error_chars(rows.deep_view())),
{
    let ghost rws = rows.deep_view();
    let n = rows.len();
    proof {
        assert(forall|i: int| 0 <= i < n ==> rws[i] == (#[trigger] rows@[i])@);
    }
    if n == 0 {
        return Err(EngineError::MalformedInput(String::from_str("invalid time range encoding")));
    }
    let mut rs: Vec<TimeRange> = Vec::new();
    let mut i: usize = 0;
    proof {
        assert(rws.skip(0) =~= rws);
    }
    while i < n
        invariant
            rws == rows.deep_view(),
            forall|k: int| 0 <= k < n ==> rws[k] == (#[trigger] rows@[k])@,
            n == rws.len(),
            1 <= n,
            i <= n,
            rs@.len() == i,
            forall|j: int| 0 <= j < i ==> row_ok(#[trigger] rws[j]),
            forall|j: int|
                0 <= j < i ==> (#[trigger] rs@[j]).start_ms == rws[j][0] && rs@[j].end_ms
                    == rws[j][1],
            i < n ==> rows_error_chars(rws) == rows_error_chars(rws.skip(i as int)),
        decreases n - i,
    {
        let row = &rows[i];
        proof {
            assert(rws.skip(i as int)[0] == rws[i as int]);
        }
        if row.len() != 2 {
            return Err(
                EngineError::MalformedInput(String::from_str("invalid time range encoding")),
            );
        }
        let start_ms = row[0];
        let end_ms = row[1];
        if !(end_ms > start_ms) {
            return Err(EngineError::MalformedInput(String::from_str("non-positive duration")));
        }
        rs.push(TimeRange { start_ms, end_ms });
        proof {
            lemma_rows_error_skip_step(rws, i as int);
        }
        i += 1;
    }
    Ok(rs)
}

/// The characters of an optional identifier, with the sentinel for an
/// absent one.
pub open spec fn opt_label_chars(o: Option<&str>) -> Seq<char> {
    match o {
        Option::Some(s) => s@,
        Option::None => "unknown"@,
    }
}

/// Does the range header fail to decode at all: absent, not the expected
/// JSON document, or a number out of the 32-bit range?
pub open spec fn ranges_decode_failed(h: Option<&str>) -> bool {
    match h {
        Option::Some(s) => json_int_pairs(s@) is None,
        Option::None => true,
    }
}

/// The rows the range header decodes to; meaningful only when decoding
/// succeeded.
pub open spec fn decoded_rows(h: Option<&str>) -> Seq<Seq<i32>> {
    match h {
        Option::Some(s) => match json_int_pairs(s@) {
            Option::Some(rows) => rows,
            Option::None => Seq::empty(),
        },
        Option::None => Seq::empty(),
    }
}

/// Does the range header decode to acceptable rows: present, decodable, at
/// least one row, every row a pair with positive duration?
pub open spec fn ranges_decode_ok(h: Option<&str>) -> bool {
    !ranges_decode_failed(h) && all_rows_ok(decoded_rows(h))
}

/// Validate one raw request. An empty payload is rejected first, as
/// `EmptyInput`; then the range payload must be present, decode as a JSON
/// array of `[start_ms, end_ms]` pairs, and hold at least one pair with a
/// positive duration, else the request is rejected as `MalformedInput` with
/// the exact diagnostic. The gap falls back to 500 ms and the identifiers to
/// a sentinel; neither ever fails a request.
pub fn validate_request(
    payload: &Vec<u8>,
    ranges_header: Option<&str>,
    gap_header: Option<&str>,
    correlation_id: Option<&str>,
    label: Option<&str>,
) -> (r: Result<SegmentRequest, EngineError>)
    ensures
        (payload@.len() == 0) <==> r matches Err(EngineError::EmptyInput),
        r is Ok <==> (payload@.len() > 0 && ranges_decode_ok(ranges_header)),
        r matches Ok(req) ==> {
            &&& req.wf()
            &&& req.ranges@.len() == decoded_rows(ranges_header).len()
            &&& forall|i: int|
                0 <= i < req.ranges@.len() ==> (#[trigger] req.ranges@[i]).start_ms
                    == decoded_rows(ranges_header)[i][0] && req.ranges@[i].end_ms
                    == decoded_rows(ranges_header)[i][1]
            &&& req.gap_ms == gap_of(opt_bytes(gap_header))
            &&& req.correlation_id@ == opt_label_chars(correlation_id)
            &&& req.label@ == opt_label_chars(label)
        },
        (payload@.len() > 0 && ranges_decode_failed(ranges_header)) ==> {
            &&& r matches Err(EngineError::MalformedInput(m))
            &&& m@ == "invalid time range encoding"@
        },
        (payload@.len() > 0 && !ranges_decode_failed(ranges_header) && !ranges_decode_ok(
            ranges_header,
        )) ==> {
            &&& r matches Err(EngineError::MalformedInput(m))
            &&& m@ == rows_error_chars(decoded_rows(ranges_header))
        },
{
    if payload.len() == 0 {
        return Err(EngineError::EmptyInput);
    }
    match ranges_header {
        None => Err(EngineError::MalformedInput(String::from_str("invalid time range encoding"))),
        Some(h) => {
            match decode_int_pairs(h) {
                None => Err(
                    EngineError::MalformedInput(String::from_str("invalid time range encoding")),
                ),
                Some(rows) => {
                    match ranges_from_rows(&rows) {
                        Err(e) => Err(e),
                        Ok(ranges) => {
                            let gap_ms = parse_gap(gap_header);
                            let correlation_id = match correlation_id {
                                Some(s) => String::from_str(s),
                                None => String::from_str("unknown"),
                            };
                            let label = match label {
                                Some(s) => String::from_str(s),
                                None => String::from_str("unknown"),
                            };
                            Ok(SegmentRequest { ranges, gap_ms, correlation_id, label })
                        },
                    }
                },
            }
        },
    }
}

} // verus!
