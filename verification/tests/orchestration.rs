use media_extract::error::EngineError;
use media_extract::outcome::{collect_output, join_separation, InvocationOutcome};

fn delivered(bytes: &[u8]) -> InvocationOutcome {
    InvocationOutcome {
        success: true,
        diagnostic: String::new(),
        output: Some(bytes.to_vec()),
    }
}

fn tool_failure(diagnostic: &str) -> InvocationOutcome {
    InvocationOutcome {
        success: false,
        diagnostic: String::from(diagnostic),
        output: None,
    }
}

#[test]
fn successful_invocation_yields_its_bytes() {
    let r = collect_output(delivered(&[1, 2, 3]));
    assert_eq!(r.unwrap(), vec![1, 2, 3]);
}

#[test]
fn tool_failure_carries_the_diagnostic() {
    let r = collect_output(tool_failure("unknown codec"));
    match r {
        Err(e) => {
            assert_eq!(e.status_code(), 500);
            assert!(matches!(e, EngineError::ProcessingFailed(m) if m == "FFmpeg failed: unknown codec"));
        }
        _ => panic!("a failed invocation must not yield bytes"),
    }
}

#[test]
fn missing_output_is_fatal_despite_success_signal() {
    let o = InvocationOutcome { success: true, diagnostic: String::new(), output: None };
    let r = collect_output(o);
    assert!(matches!(
        r,
        Err(EngineError::ProcessingFailed(m)) if m == "FFmpeg produced no output file"
    ));
}

#[test]
fn empty_output_is_fatal_despite_success_signal() {
    let o = InvocationOutcome {
        success: true,
        diagnostic: String::new(),
        output: Some(Vec::new()),
    };
    let r = collect_output(o);
    assert!(matches!(
        r,
        Err(EngineError::ProcessingFailed(m)) if m == "FFmpeg produced empty output file"
    ));
}

#[test]
fn both_sides_delivered_yields_both_artifacts() {
    let r = join_separation(delivered(&[10, 11]), delivered(&[20, 21, 22]));
    let s = r.unwrap();
    assert_eq!(s.audio, vec![10, 11]);
    assert_eq!(s.video, vec![20, 21, 22]);
}

#[test]
fn video_failure_discards_the_delivered_audio() {
    let r = join_separation(delivered(&[10, 11]), tool_failure("no video track"));
    match r {
        Err(e) => {
            assert!(matches!(e, EngineError::ProcessingFailed(m) if m == "FFmpeg failed: no video track"));
        }
        Ok(_) => panic!("the request must fail as a whole; no partial artifact"),
    }
}

#[test]
fn audio_failure_discards_the_delivered_video() {
    let r = join_separation(tool_failure("no audio track"), delivered(&[20]));
    assert!(matches!(
        r,
        Err(EngineError::ProcessingFailed(m)) if m == "FFmpeg failed: no audio track"
    ));
}
