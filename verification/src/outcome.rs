//! Judging external invocations.
//!
//! The engine never trusts the external tool: an invocation counts as
//! delivered only when the tool signalled success *and* its declared output
//! file exists with at least one byte. The two-output separation variant is
//! joined all-or-nothing — either both invocations delivered, or the whole
//! request fails and no partial artifact is handed on.

use vstd::prelude::*;
use vstd::string::StringExecFns;
use crate::error::EngineError;

verus! {

/// What one external invocation came back with: the tool's success signal,
/// its diagnostic text, and the bytes of its declared output file — `None`
/// when that file is missing or unreadable.
#[derive(Debug)]
pub struct InvocationOutcome {
    pub success: bool,
    pub diagnostic: String,
    pub output: Option<Vec<u8>>,
}

/// Did the invocation deliver: success signalled and a non-empty output
/// present.
pub open spec fn outcome_delivered(o: InvocationOutcome) -> bool {
    &&& o.success
    &&& o.output matches Some(b)
    &&& b@.len() > 0
}

/// The diagnostic carried when the invocation did not deliver: the tool's
/// own text when it failed, else which output check was violated.
pub open spec fn outcome_error_chars(o: InvocationOutcome) -> Seq<char>
    recommends
        !outcome_delivered(o),
{
    if !o.success {
        "FFmpeg failed: "@ + o.diagnostic@
    } else if o.output is None {
        "FFmpeg produced no output file"@
    } else {
        "FFmpeg produced empty output file"@
    }
}

/// The delivered bytes; meaningful only when the invocation delivered.
pub open spec fn outcome_bytes(o: InvocationOutcome) -> Seq<u8> {
    match o.output {
        Option::Some(b) => b@,
        Option::None => Seq::empty(),
    }
}

/// Judge one invocation: its output bytes exactly when the tool reported
/// success and the declared output is present and non-empty; the exact fault
/// otherwise. A missing or empty output is fatal even under a success
/// signal, so no damaged artifact can pass.
pub fn collect_output(o: InvocationOutcome) -> (r: Result<Vec<u8>, EngineError>)
    ensures
        r is Ok <==> outcome_delivered(o),
        r matches Ok(b) ==> b@ == outcome_bytes(o),
        r matches Err(e) ==> {
            &&& e matches EngineError::ProcessingFailed(m)
            &&& m@ == outcome_error_chars(o)
        },
{
    if !o.success {
        let mut m = String::from_str("FFmpeg failed: ");
        m.append(o.diagnostic.as_str());
        Err(EngineError::ProcessingFailed(m))
    } else {
        match o.output {
            None => Err(
                EngineError::ProcessingFailed(
                    String::from_str("FFmpeg produced no output file"),
                ),
            ),
            Some(b) => {
                if b.len() == 0 {
                    Err(
                        EngineError::ProcessingFailed(
                            String::from_str("FFmpeg produced empty output file"),
                        ),
                    )
                } else {
                    Ok(b)
                }
            },
        }
    }
}

/// The two artifacts of a successful stream separation.
#[derive(Debug)]
pub struct SeparatedStreams {
    pub audio: Vec<u8>,
    pub video: Vec<u8>,
}

/// Join the two separation invocations all-or-nothing: the request succeeds
/// exactly when both delivered, and a failure of either side fails the whole
/// request — no partial artifact is ever returned. The audio fault is
/// reported when both sides failed.
pub fn join_separation(audio: InvocationOutcome, video: InvocationOutcome) -> (r: Result<
    SeparatedStreams,
    EngineError,
>)
    ensures
        r is Ok <==> (outcome_delivered(audio) && outcome_delivered(video)),
        r matches Ok(s) ==> (s.audio@ == outcome_bytes(audio) && s.video@ == outcome_bytes(
            video,
        )),
        !outcome_delivered(audio) ==> {
            &&& r matches Err(EngineError::ProcessingFailed(m))
            &&& m@ == outcome_error_chars(audio)
        },
        (outcome_delivered(audio) && !outcome_delivered(video)) ==> {
            &&& r matches Err(EngineError::ProcessingFailed(m))
            &&& m@ == outcome_error_chars(video)
        },
{
    match collect_output(audio) {
        Err(e) => Err(e),
        Ok(audio_bytes) => match collect_output(video) {
            Err(e) => Err(e),
            Ok(video_bytes) => Ok(SeparatedStreams { audio: audio_bytes, video: video_bytes }),
        },
    }
}

} // verus!
