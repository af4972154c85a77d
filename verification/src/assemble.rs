//! Response assembly.
//!
//! A single-stream result is returned as raw bytes; the two-stream
//! separation result is packaged as a multipart body with exactly two named
//! parts, `audio` then `video`, under one fixed boundary token. A failure is
//! rendered as the structured JSON payload with the diagnostic text escaped.

use vstd::prelude::*;
use vstd::string::StringExecFns;
use vstd::string::StrSliceExecFns;
use vstd::string::StringSliceAdditionalSpecFns;
use vstd::utf8::encode_utf8;
use crate::error::{message_of, EngineError};
use crate::outcome::SeparatedStreams;

verus! {

/// The complete artifact set of one request, never partially populated: the
/// one normalized stream of an extraction, or both streams of a separation.
#[derive(Debug)]
pub enum ExtractionResult {
    SingleStream(Vec<u8>),
    SeparatedStreams(SeparatedStreams),
}

/// The response payload of `r`: the raw bytes of a single stream under the
/// normalized-audio content type, or the two-part multipart body under the
/// multipart content type.
pub open spec fn response_body_bytes(r: ExtractionResult) -> Seq<u8> {
    match r {
        ExtractionResult::SingleStream(bytes) => bytes@,
        ExtractionResult::SeparatedStreams(s) => multipart_body_bytes(s.audio@, s.video@),
    }
}

/// The content type under which the payload of `r` is returned.
pub open spec fn response_content_type_chars(r: ExtractionResult) -> Seq<char> {
    match r {
        ExtractionResult::SingleStream(_) => "audio/wav"@,
        ExtractionResult::SeparatedStreams(_) => "multipart/form-data; boundary=----formdata-boundary-1234567890"@,
    }
}

/// Package one complete artifact set as the response payload and its
/// content type.
pub fn assemble_response(r: &ExtractionResult) -> (resp: (Vec<u8>, String))
    ensures
        resp.0@ == response_body_bytes(*r),
        resp.1@ == response_content_type_chars(*r),
{
    match r {
        ExtractionResult::SingleStream(bytes) => {
            let mut body: Vec<u8> = Vec::new();
            push_payload(&mut body, bytes);
            proof {
                assert(body@ =~= bytes@);
            }
            (body, single_stream_content_type())
        },
        ExtractionResult::SeparatedStreams(s) => (
            multipart_body(&s.audio, &s.video),
            multipart_content_type(),
        ),
    }
}

/// The multipart body of a separation result: the `audio` part (suggested
/// filename `audio.aac`), then the `video` part (suggested filename
/// `video.mp4`), each closed by the boundary, the whole body closed by the
/// terminal boundary. Part order is part of the contract.
pub open spec fn multipart_body_bytes(audio: Seq<u8>, video: Seq<u8>) -> Seq<u8> {
    "------formdata-boundary-1234567890\r\nContent-Disposition: form-data; name=\"audio\"; filename=\"audio.aac\"\r\nContent-Type: audio/aac\r\n\r\n".spec_bytes()
        + audio + "\r\n".spec_bytes()
        + "------formdata-boundary-1234567890\r\nContent-Disposition: form-data; name=\"video\"; filename=\"video.mp4\"\r\nContent-Type: video/mp4\r\n\r\n".spec_bytes()
        + video + "\r\n".spec_bytes()
        + "------formdata-boundary-1234567890--\r\n".spec_bytes()
}

fn push_str_bytes(out: &mut Vec<u8>, s: &str)
    ensures
        final(out)@ == old(out)@ + s.spec_bytes(),
{
    let mut tmp = s.as_bytes_vec();
    out.append(&mut tmp);
}

fn push_payload(out: &mut Vec<u8>, payload: &Vec<u8>)
    ensures
        final(out)@ == old(out)@ + payload@,
{
    let mut tmp = vstd::slice::slice_to_vec(payload.as_slice());
    out.append(&mut tmp);
}

/// Package the two separation artifacts as the multipart body, audio part
/// first.
pub fn multipart_body(audio: &Vec<u8>, video: &Vec<u8>) -> (r: Vec<u8>)
    ensures
        r@ == multipart_body_bytes(audio@, video@),
{
    let mut out: Vec<u8> = Vec::new();
    push_str_bytes(
        &mut out,
        "------formdata-boundary-1234567890\r\nContent-Disposition: form-data; name=\"audio\"; filename=\"audio.aac\"\r\nContent-Type: audio/aac\r\n\r\n",
    );
    push_payload(&mut out, audio);
    push_str_bytes(&mut out, "\r\n");
    push_str_bytes(
        &mut out,
        "------formdata-boundary-1234567890\r\nContent-Disposition: form-data; name=\"video\"; filename=\"video.mp4\"\r\nContent-Type: video/mp4\r\n\r\n",
    );
    push_payload(&mut out, video);
    push_str_bytes(&mut out, "\r\n");
    push_str_bytes(&mut out, "------formdata-boundary-1234567890--\r\n");
    proof {
        assert(out@ =~= multipart_body_bytes(audio@, video@));
    }
    out
}

/// The content type under which the multipart body is returned, naming the
/// fixed boundary token.
pub fn multipart_content_type() -> (r: String)
    ensures
        r@ == "multipart/form-data; boundary=----formdata-boundary-1234567890"@,
{
    String::from_str("multipart/form-data; boundary=----formdata-boundary-1234567890")
}

/// The content type of the normalized single-stream output.
pub fn single_stream_content_type() -> (r: String)
    ensures
        r@ == "audio/wav"@,
{
    String::from_str("audio/wav")
}

/// The byte of the hexadecimal digit `d` (`0 <= d < 16`), lowercase.
pub open spec fn hex_digit_byte(d: int) -> u8
    recommends
        0 <= d < 16,
{
    if d < 10 {
        (0x30 + d) as u8
    } else {
        (0x61 + (d - 10)) as u8
    }
}

/// One byte escaped for a JSON string: quote and backslash get a leading
/// backslash, a control byte becomes the four-digit unicode escape, any
/// other byte stands as it is.
pub open spec fn json_escape_byte(b: u8) -> Seq<u8> {
    if b == 0x22 {
        seq![0x5c, 0x22]
    } else if b == 0x5c {
        seq![0x5c, 0x5c]
    } else if b < 0x20 {
        "\\u00".spec_bytes() + seq![hex_digit_byte(b as int / 16), hex_digit_byte(b as int % 16)]
    } else {
        seq![b]
    }
}

/// `s` escaped for a JSON string, byte for byte.
pub open spec fn json_escape_bytes(s: Seq<u8>) -> Seq<u8>
    decreases s.len(),
{
    if s.len() == 0 {
        Seq::empty()
    } else {
        json_escape_bytes(s.drop_last()) + json_escape_byte(s.last())
    }
}

proof fn lemma_json_escape_take_step(s: Seq<u8>, k: int)
    requires
        0 <= k < s.len(),
    ensures
        json_escape_bytes(s.take(k + 1)) == json_escape_bytes(s.take(k)) + json_escape_byte(
            s[k],
        ),
{
    assert(s.take(k + 1).drop_last() =~= s.take(k));
    assert(s.take(k + 1).last() == s[k]);
}

/// The structured failure payload for `e`: success `false` and the escaped
/// diagnostic text, as a JSON document.
pub open spec fn error_body_bytes(e: EngineError) -> Seq<u8> {
    "{\"success\":false,\"error\":\"".spec_bytes() + json_escape_bytes(
        encode_utf8(message_of(e)),
    ) + "\"}".spec_bytes()
}

fn hex_digit(d: u8) -> (r: u8)
    requires
        d < 16,
    ensures
        r == hex_digit_byte(d as int),
{
    if d < 10 {
        0x30 + d
    } else {
        0x61 + (d - 10)
    }
}

/// Render the failure payload of `e`.
pub fn error_body(e: &EngineError) -> (r: Vec<u8>)
    ensures
        r@ == error_body_bytes(*e),
{
    let msg = e.message();
    let mb = msg.as_str().as_bytes();
    let ghost mbs = mb@;
    let mut out: Vec<u8> = Vec::new();
    push_str_bytes(&mut out, "{\"success\":false,\"error\":\"");
    let ghost prefix = out@;
    let mut i: usize = 0;
    proof {
        assert(mbs.take(0) =~= Seq::<u8>::empty());
        assert(prefix + Seq::<u8>::empty() =~= prefix);
    }
    while i < mb.len()
        invariant
            mbs == mb@,
            i <= mbs.len(),
            out@ == prefix + json_escape_bytes(mbs.take(i as int)),
        decreases mbs.len() - i,
    {
        let b = mb[i];
        if b == 0x22 {
            out.push(0x5c);
            out.push(0x22);
        } else if b == 0x5c {
            out.push(0x5c);
            out.push(0x5c);
        } else if b < 0x20 {
            push_str_bytes(&mut out, "\\u00");
            out.push(hex_digit(b / 16));
            out.push(hex_digit(b % 16));
        } else {
            out.push(b);
        }
        proof {
            lemma_json_escape_take_step(mbs, i as int);
            assert(out@ =~= prefix + json_escape_bytes(mbs.take(i as int + 1)));
        }
        i += 1;
    }
    proof {
        assert(mbs.take(mbs.len() as int) =~= mbs);
        assert(mbs == encode_utf8(message_of(*e)));
    }
    push_str_bytes(&mut out, "\"}");
    proof {
        assert(out@ =~= error_body_bytes(*e));
    }
    out
}

} // verus!
