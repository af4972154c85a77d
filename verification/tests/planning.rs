use media_extract::plan::{
    build_plan, concat_sequence, filter_complex, multi_concat_args, plan_args, plan_invocation,
    separation_audio_args, separation_invocations, separation_video_args, single_cut_args,
    total_output_ms, ConcatElem, ProcessingPlan, Segment,
};
use media_extract::request::{SegmentRequest, TimeRange};
use media_extract::text::{dec_string, sec_string};

fn request(ranges: Vec<TimeRange>, gap_ms: u32) -> SegmentRequest {
    SegmentRequest {
        ranges,
        gap_ms,
        correlation_id: String::from("unknown"),
        label: String::from("unknown"),
    }
}

#[test]
fn seconds_rendering_is_millisecond_exact() {
    assert_eq!(sec_string(0), "0.000");
    assert_eq!(sec_string(2000), "2.000");
    assert_eq!(sec_string(500), "0.500");
    assert_eq!(sec_string(1), "0.001");
    assert_eq!(sec_string(12345), "12.345");
    assert_eq!(sec_string(-1500), "-1.500");
    assert_eq!(sec_string(-1), "-0.001");
    assert_eq!(dec_string(0), "0");
    assert_eq!(dec_string(1234567), "1234567");
}

#[test]
fn single_range_builds_single_cut() {
    let req = request(vec![TimeRange { start_ms: 0, end_ms: 2000 }], 500);
    let plan = build_plan(&req);
    match plan {
        ProcessingPlan::SingleCut { start_ms, duration_ms } => {
            assert_eq!(start_ms, 0);
            assert_eq!(duration_ms, 2000);
            assert_eq!(start_ms as f64 / 1000.0, 0.0);
            assert_eq!(duration_ms as f64 / 1000.0, 2.0);
        }
        _ => panic!("one range must build the single-cut plan"),
    }
}

#[test]
fn two_ranges_build_concat_plan() {
    let req = request(
        vec![
            TimeRange { start_ms: 1000, end_ms: 3000 },
            TimeRange { start_ms: 5000, end_ms: 6000 },
        ],
        500,
    );
    let plan = build_plan(&req);
    match &plan {
        ProcessingPlan::MultiSegmentConcat { segments, gap_ms } => {
            assert_eq!(*gap_ms, 500);
            assert_eq!(segments.len(), 2);
            assert_eq!(segments[0], Segment { start_ms: 1000, duration_ms: 2000 });
            assert_eq!(segments[1], Segment { start_ms: 5000, duration_ms: 1000 });
            assert_eq!(segments[0].duration_ms as f64 / 1000.0, 2.0);
            assert_eq!(segments[1].duration_ms as f64 / 1000.0, 1.0);
        }
        _ => panic!("two ranges must build the concatenation plan"),
    }
    assert_eq!(total_output_ms(&plan), 3500);
    assert_eq!(total_output_ms(&plan) as f64 / 1000.0, 3.5);
}

#[test]
fn concat_sequence_interleaves_without_edge_gaps() {
    assert_eq!(concat_sequence(1), vec![ConcatElem::Segment(0)]);
    assert_eq!(
        concat_sequence(2),
        vec![ConcatElem::Segment(0), ConcatElem::Gap, ConcatElem::Segment(1)]
    );
    let s = concat_sequence(4);
    assert_eq!(s.len(), 7);
    let segments = s.iter().filter(|e| matches!(e, ConcatElem::Segment(_))).count();
    let gaps = s.iter().filter(|e| matches!(e, ConcatElem::Gap)).count();
    assert_eq!(segments, 4);
    assert_eq!(gaps, 3);
    assert!(matches!(s[0], ConcatElem::Segment(0)));
    assert!(matches!(s[6], ConcatElem::Segment(3)));
}

#[test]
fn filter_graph_matches_the_expected_text() {
    assert_eq!(
        filter_complex(2, 500),
        "anullsrc=channel_layout=mono:sample_rate=44100:duration=0.500[gap];[0:a][gap][1:a]concat=n=3:v=0:a=1[out]"
    );
    assert_eq!(
        filter_complex(3, 1250),
        "anullsrc=channel_layout=mono:sample_rate=44100:duration=1.250[gap];[0:a][gap][1:a][gap][2:a]concat=n=5:v=0:a=1[out]"
    );
}

#[test]
fn single_cut_arguments_are_exact() {
    let args = single_cut_args(0, 2000, "in.aac", "out.wav");
    let expected = vec![
        "-y", "-ss", "0.000", "-i", "in.aac", "-t", "2.000", "-ar", "16000", "-ac", "1", "-c:a",
        "pcm_s16le", "-f", "wav", "-avoid_negative_ts", "make_zero", "out.wav",
    ];
    assert_eq!(args, expected);
}

#[test]
fn multi_concat_arguments_are_exact() {
    let segments = vec![
        Segment { start_ms: 1000, duration_ms: 2000 },
        Segment { start_ms: 5000, duration_ms: 1000 },
    ];
    let args = multi_concat_args(&segments, 500, "in.aac", "out.wav");
    let expected = vec![
        "-y",
        "-ss",
        "1.000",
        "-t",
        "2.000",
        "-i",
        "in.aac",
        "-ss",
        "5.000",
        "-t",
        "1.000",
        "-i",
        "in.aac",
        "-filter_complex",
        "anullsrc=channel_layout=mono:sample_rate=44100:duration=0.500[gap];[0:a][gap][1:a]concat=n=3:v=0:a=1[out]",
        "-map",
        "[out]",
        "-ar",
        "16000",
        "-ac",
        "1",
        "-c:a",
        "pcm_s16le",
        "-f",
        "wav",
        "out.wav",
    ];
    assert_eq!(args, expected);
}

#[test]
fn separation_arguments_are_exact() {
    assert_eq!(
        separation_audio_args("in.mp4", "a.aac"),
        vec!["-i", "in.mp4", "-vn", "-c:a", "copy", "-y", "a.aac"]
    );
    assert_eq!(
        separation_video_args("in.mp4", "v.mp4"),
        vec!["-i", "in.mp4", "-an", "-c:v", "copy", "-y", "v.mp4"]
    );
}

#[test]
fn invocations_name_the_tool_and_carry_the_arguments() {
    let req = request(vec![TimeRange { start_ms: 0, end_ms: 2000 }], 500);
    let plan = build_plan(&req);
    let inv = plan_invocation(&plan, "in.aac", "out.wav");
    assert_eq!(inv.program, "ffmpeg");
    assert_eq!(inv.args, plan_args(&plan, "in.aac", "out.wav"));

    let (audio, video) = separation_invocations("in.mp4", "a.aac", "v.mp4");
    assert_eq!(audio.program, "ffmpeg");
    assert_eq!(audio.args, separation_audio_args("in.mp4", "a.aac"));
    assert_eq!(video.program, "ffmpeg");
    assert_eq!(video.args, separation_video_args("in.mp4", "v.mp4"));
}

#[test]
fn identical_requests_render_identical_arguments() {
    let ranges = vec![
        TimeRange { start_ms: 250, end_ms: 1000 },
        TimeRange { start_ms: 4000, end_ms: 9000 },
    ];
    let first = plan_args(&build_plan(&request(ranges.clone(), 750)), "in.aac", "out.wav");
    let second = plan_args(&build_plan(&request(ranges, 750)), "in.aac", "out.wav");
    assert_eq!(first, second);
}
