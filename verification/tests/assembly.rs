use media_extract::assemble::{
    assemble_response, error_body, multipart_body, multipart_content_type,
    single_stream_content_type, ExtractionResult,
};
use media_extract::error::EngineError;
use media_extract::outcome::SeparatedStreams;

#[test]
fn single_stream_response_is_the_raw_bytes() {
    let (body, content_type) = assemble_response(&ExtractionResult::SingleStream(vec![9, 8, 7]));
    assert_eq!(body, vec![9, 8, 7]);
    assert_eq!(content_type, "audio/wav");
}

#[test]
fn separation_response_is_the_multipart_body() {
    let streams = SeparatedStreams { audio: b"A".to_vec(), video: b"V".to_vec() };
    let (body, content_type) = assemble_response(&ExtractionResult::SeparatedStreams(streams));
    assert_eq!(body, multipart_body(&b"A".to_vec(), &b"V".to_vec()));
    assert_eq!(
        content_type,
        "multipart/form-data; boundary=----formdata-boundary-1234567890"
    );
}

#[test]
fn multipart_body_holds_audio_then_video() {
    let body = multipart_body(&b"AUDIOBYTES".to_vec(), &b"VIDEOBYTES".to_vec());
    let expected = format!(
        "--{b}\r\nContent-Disposition: form-data; name=\"audio\"; filename=\"audio.aac\"\r\nContent-Type: audio/aac\r\n\r\nAUDIOBYTES\r\n--{b}\r\nContent-Disposition: form-data; name=\"video\"; filename=\"video.mp4\"\r\nContent-Type: video/mp4\r\n\r\nVIDEOBYTES\r\n--{b}--\r\n",
        b = "----formdata-boundary-1234567890"
    );
    assert_eq!(body, expected.into_bytes());
}

#[test]
fn multipart_parts_are_named_and_ordered() {
    let body = multipart_body(&vec![1, 2], &vec![3]);
    let text: Vec<u8> = body.clone();
    let audio_at = find(&text, b"name=\"audio\"").expect("audio part present");
    let video_at = find(&text, b"name=\"video\"").expect("video part present");
    assert!(audio_at < video_at, "audio part must come first");
    assert!(ends_with(&text, b"----formdata-boundary-1234567890--\r\n"));
}

#[test]
fn multipart_content_type_names_the_boundary() {
    assert_eq!(
        multipart_content_type(),
        "multipart/form-data; boundary=----formdata-boundary-1234567890"
    );
}

#[test]
fn single_stream_content_type_is_wav() {
    assert_eq!(single_stream_content_type(), "audio/wav");
}

#[test]
fn error_body_is_the_structured_payload() {
    let body = error_body(&EngineError::EmptyInput);
    assert_eq!(
        body,
        b"{\"success\":false,\"error\":\"No audio data received\"}".to_vec()
    );
}

#[test]
fn error_body_escapes_the_diagnostic() {
    let e = EngineError::ProcessingFailed(String::from("bad \"arg\" \\ line\nend"));
    let body = error_body(&e);
    assert_eq!(
        String::from_utf8(body).unwrap(),
        "{\"success\":false,\"error\":\"bad \\\"arg\\\" \\\\ line\\u000aend\"}"
    );
}

fn find(haystack: &[u8], needle: &[u8]) -> Option<usize> {
    if needle.is_empty() || haystack.len() < needle.len() {
        return None;
    }
    (0..=haystack.len() - needle.len()).find(|&i| &haystack[i..i + needle.len()] == needle)
}

fn ends_with(haystack: &[u8], suffix: &[u8]) -> bool {
    haystack.len() >= suffix.len() && &haystack[haystack.len() - suffix.len()..] == suffix
}
