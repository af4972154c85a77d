//! Plan construction and argument rendering.
//!
//! A validated request is turned into a `ProcessingPlan`: a single trimmed cut
//! when one range was asked for, a multi-segment concatenation with a
//! synthesized silence gap between consecutive segments when several were.
//! The plan is then rendered into the exact, ordered argument list for one
//! invocation of the external media tool; the two degenerate stream-separation
//! plans (copy audio only, copy video only) are rendered here as well.

use vstd::prelude::*;
use vstd::string::StringExecFns;
use crate::request::{SegmentRequest, TimeRange};
use crate::text::{dec_chars, dec_string, sec_chars, sec_chars_nat, sec_string};

verus! {

/// One trimmed sub-stream of the multi-segment path: where it starts and how
/// long it runs, both in milliseconds.
#[derive(Clone, Copy, Debug, PartialEq, Eq, Structural)]
pub struct Segment {
    pub start_ms: i64,
    pub duration_ms: i64,
}

impl Segment {
    /// Positive duration, and a start that can be negated when rendered.
    pub open spec fn wf(self) -> bool {
        &&& self.start_ms > i64::MIN
        &&& self.duration_ms > 0
    }
}

/// The segment derived from one validated time range.
pub open spec fn segment_of(r: TimeRange) -> Segment {
    Segment { start_ms: r.start_ms as i64, duration_ms: (r.end_ms - r.start_ms) as i64 }
}

/// How a request is processed: a direct trim for one range, a concatenation
/// with inserted silence for several. The variant is a pure function of how
/// many ranges were requested, never both.
#[derive(Debug)]
pub enum ProcessingPlan {
    SingleCut { start_ms: i64, duration_ms: i64 },
    MultiSegmentConcat { segments: Vec<Segment>, gap_ms: u32 },
}

/// The plan that a validated request determines: `SingleCut` exactly when one
/// range was requested, `MultiSegmentConcat` exactly when more, with every
/// segment taken from the ranges in request order.
pub open spec fn plan_matches(p: ProcessingPlan, req: SegmentRequest) -> bool {
    match p {
        ProcessingPlan::SingleCut { start_ms, duration_ms } => {
            &&& req.ranges@.len() == 1
            &&& start_ms == req.ranges@[0].start_ms as i64
            &&& duration_ms == req.ranges@[0].duration_spec()
        },
        ProcessingPlan::MultiSegmentConcat { segments, gap_ms } => {
            &&& req.ranges@.len() > 1
            &&& gap_ms == req.gap_ms
            &&& segments@.len() == req.ranges@.len()
            &&& forall|i: int|
                0 <= i < segments@.len() ==> #[trigger] segments@[i] == segment_of(req.ranges@[i])
        },
    }
}

/// What argument rendering needs of a plan. The length bound is forced by the
/// machine: the interleaved concatenation list has `2n - 1` entries and must
/// be countable in a `usize`.
pub open spec fn plan_wf(p: ProcessingPlan) -> bool {
    match p {
        ProcessingPlan::SingleCut { start_ms, duration_ms } => {
            &&& start_ms > i64::MIN
            &&& duration_ms > 0
        },
        ProcessingPlan::MultiSegmentConcat { segments, gap_ms } => {
            &&& segments@.len() >= 1
            &&& 2 * segments@.len() - 1 <= usize::MAX
            &&& forall|i: int| 0 <= i < segments@.len() ==> (#[trigger] segments@[i]).wf()
        },
    }
}

/// Build the processing plan of a validated request: the single-range fast
/// path keeps the one trim, the multi-range path lists every trim in request
/// order next to the requested gap.
pub fn build_plan(req: &SegmentRequest) -> (p: ProcessingPlan)
    requires
        req.wf(),
    ensures
        plan_matches(p, *req),
{
    if req.ranges.len() == 1 {
        let r = req.ranges[0];
        ProcessingPlan::SingleCut { start_ms: r.start_ms as i64, duration_ms: r.duration_ms() }
    } else {
        let mut segments: Vec<Segment> = Vec::new();
        let n = req.ranges.len();
        let mut i: usize = 0;
        while i < n
            invariant
                req.wf(),
                n == req.ranges@.len(),
                i <= n,
                segments@.len() == i,
                forall|j: int| 0 <= j < i ==> #[trigger] segments@[j] == segment_of(req.ranges@[j]),
            decreases n - i,
        {
            let r = req.ranges[i];
            segments.push(Segment { start_ms: r.start_ms as i64, duration_ms: r.duration_ms() });
            i += 1;
        }
        ProcessingPlan::MultiSegmentConcat { segments, gap_ms: req.gap_ms }
    }
}

/// One element of the interleaved concatenation list: the trimmed segment
/// with the given input index, or the synthesized silence gap.
#[derive(Clone, Copy, Debug, PartialEq, Eq, Structural)]
pub enum ConcatElem {
    Segment(usize),
    Gap,
}

/// The interleaved concatenation list for `n` segments:
/// `segment(0), gap, segment(1), gap, …, segment(n-1)` — a gap between every
/// adjacent pair of segments and none at either end.
pub open spec fn interleaving(n: nat) -> Seq<ConcatElem>
    recommends
        n >= 1,
{
    Seq::new(
        (2 * n - 1) as nat,
        |i: int| if i % 2 == 0 {
            ConcatElem::Segment((i / 2) as usize)
        } else {
            ConcatElem::Gap
        },
    )
}

/// How many elements of `s` are segments.
pub open spec fn segment_count(s: Seq<ConcatElem>) -> nat
    decreases s.len(),
{
    if s.len() == 0 {
        0
    } else {
        segment_count(s.drop_last()) + if s.last() is Segment {
            1nat
        } else {
            0nat
        }
    }
}

/// How many elements of `s` are gaps.
pub open spec fn gap_count(s: Seq<ConcatElem>) -> nat
    decreases s.len(),
{
    if s.len() == 0 {
        0
    } else {
        gap_count(s.drop_last()) + if s.last() is Gap {
            1nat
        } else {
            0nat
        }
    }
}

/// The concatenation list for `n` segments holds exactly `n` segment elements
/// and `n - 1` gap elements, the gaps standing strictly between segments:
/// every odd position is a gap, every even position a segment, so none leads
/// and none trails.
pub proof fn lemma_concat_shape(n: nat)
    requires
        n >= 1,
    ensures
        interleaving(n).len() == 2 * n - 1,
        segment_count(interleaving(n)) == n,
        gap_count(interleaving(n)) == n - 1,
        forall|i: int|
            0 <= i < 2 * n - 1 ==> ((#[trigger] interleaving(n)[i]) is Gap <==> i % 2 == 1),
    decreases n,
{
    let s = interleaving(n);
    if n == 1 {
        assert(s =~= seq![ConcatElem::Segment(0)]);
        assert(s.drop_last() =~= Seq::<ConcatElem>::empty());
        assert(segment_count(Seq::<ConcatElem>::empty()) == 0);
        assert(gap_count(Seq::<ConcatElem>::empty()) == 0);
        assert(segment_count(s) == 1);
        assert(gap_count(s) == 0);
    } else {
        lemma_concat_shape((n - 1) as nat);
        let prev = interleaving((n - 1) as nat);
        let mid = prev.push(ConcatElem::Gap);
        assert(s =~= mid.push(ConcatElem::Segment((n - 1) as usize)));
        assert(s.drop_last() =~= mid);
        assert(mid.drop_last() =~= prev);
        assert(segment_count(s) == segment_count(mid) + 1);
        assert(segment_count(mid) == segment_count(prev));
        assert(gap_count(s) == gap_count(mid));
        assert(gap_count(mid) == gap_count(prev) + 1);
    }
}

/// The interleaved concatenation list for `n` segments, as a value.
pub fn concat_sequence(n: usize) -> (r: Vec<ConcatElem>)
    requires
        1 <= n,
        2 * n - 1 <= usize::MAX,
    ensures
        r@ == interleaving(n as nat),
{
    let mut r: Vec<ConcatElem> = Vec::new();
    let mut i: usize = 0;
    while i < n
        invariant
            i <= n,
            2 * n - 1 <= usize::MAX,
            r@.len() == if i == 0 {
                0int
            } else {
                2 * i - 1
            },
            forall|j: int|
                0 <= j < r@.len() ==> #[trigger] r@[j] == (if j % 2 == 0 {
                    ConcatElem::Segment((j / 2) as usize)
                } else {
                    ConcatElem::Gap
                }),
        decreases n - i,
    {
        if i > 0 {
            r.push(ConcatElem::Gap);
        }
        r.push(ConcatElem::Segment(i));
        i += 1;
    }
    proof {
        assert(r@ =~= interleaving(n as nat));
    }
    r
}

/// The filter-graph label of one concatenation element: `[i:a]` for the
/// trimmed input with index `i`, `[gap]` for the silence source.
pub open spec fn elem_label(e: ConcatElem) -> Seq<char> {
    match e {
        ConcatElem::Segment(i) => "["@ + dec_chars(i as nat) + ":a]"@,
        ConcatElem::Gap => "[gap]"@,
    }
}

/// The labels of `s`, concatenated in order.
pub open spec fn labels(s: Seq<ConcatElem>) -> Seq<char>
    decreases s.len(),
{
    if s.len() == 0 {
        Seq::empty()
    } else {
        labels(s.drop_last()) + elem_label(s.last())
    }
}

proof fn lemma_labels_take_step(s: Seq<ConcatElem>, i: int)
    requires
        0 <= i < s.len(),
    ensures
        labels(s.take(i + 1)) == labels(s.take(i)) + elem_label(s[i]),
{
    assert(s.take(i + 1).drop_last() =~= s.take(i));
    assert(s.take(i + 1).last() == s[i]);
}

/// The complete filter graph of the multi-segment path: the silence source
/// (mono, 44100 Hz, the requested gap length), then the interleaved
/// concatenation of all `2n - 1` inputs into one audio-only stream.
pub open spec fn filter_complex_chars(n: nat, gap_ms: nat) -> Seq<char>
    recommends
        n >= 1,
{
    "anullsrc=channel_layout=mono:sample_rate=44100:duration="@ + sec_chars_nat(gap_ms)
        + "[gap];"@ + labels(interleaving(n)) + "concat=n="@ + dec_chars((2 * n - 1) as nat)
        + ":v=0:a=1[out]"@
}

/// The filter-graph description for `n` segments and the given gap.
pub fn filter_complex(n: usize, gap_ms: u32) -> (r: String)
    requires
        1 <= n,
        2 * n - 1 <= usize::MAX,
    ensures
        r@ == filter_complex_chars(n as nat, gap_ms as nat),
{
    let elems = concat_sequence(n);
    let mut out = String::from_str("anullsrc=channel_layout=mono:sample_rate=44100:duration=");
    let gap_str = sec_string(gap_ms as i64);
    out.append(gap_str.as_str());
    out.append("[gap];");
    let ghost prefix = out@;
    let mut i: usize = 0;
    proof {
        assert(elems@.take(0) =~= Seq::<ConcatElem>::empty());
        assert(labels(Seq::<ConcatElem>::empty()) == Seq::<char>::empty());
        assert(prefix + Seq::<char>::empty() =~= prefix);
    }
    while i < elems.len()
        invariant
            elems@ == interleaving(n as nat),
            n >= 1,
            2 * n - 1 <= usize::MAX,
            elems@.len() == 2 * n - 1,
            i <= elems@.len(),
            out@ == prefix + labels(elems@.take(i as int)),
        decreases elems@.len() - i,
    {
        match elems[i] {
            ConcatElem::Segment(k) => {
                out.append("[");
                let ks = dec_string(k as u64);
                out.append(ks.as_str());
                out.append(":a]");
            },
            ConcatElem::Gap => {
                out.append("[gap]");
            },
        }
        proof {
            lemma_labels_take_step(elems@, i as int);
            assert(out@ =~= prefix + labels(elems@.take(i as int + 1)));
        }
        i += 1;
    }
    proof {
        assert(elems@.take(elems@.len() as int) =~= elems@);
    }
    out.append("concat=n=");
    let cnt = n - 1 + n;
    let cs = dec_string(cnt as u64);
    out.append(cs.as_str());
    out.append(":v=0:a=1[out]");
    proof {
        assert(out@ =~= filter_complex_chars(n as nat, gap_ms as nat));
    }
    out
}

/// The six arguments that trim one segment on the multi-segment path.
pub open spec fn seg_args_chars(s: Segment, input: Seq<char>) -> Seq<Seq<char>> {
    seq![
        "-ss"@,
        sec_chars(s.start_ms as int),
        "-t"@,
        sec_chars(s.duration_ms as int),
        "-i"@,
        input,
    ]
}

/// The per-segment trim arguments of every segment of `ss`, in order.
pub open spec fn multi_inputs_chars(ss: Seq<Segment>, input: Seq<char>) -> Seq<Seq<char>>
    decreases ss.len(),
{
    if ss.len() == 0 {
        Seq::empty()
    } else {
        multi_inputs_chars(ss.drop_last(), input) + seg_args_chars(ss.last(), input)
    }
}

proof fn lemma_multi_inputs_take_step(ss: Seq<Segment>, input: Seq<char>, i: int)
    requires
        0 <= i < ss.len(),
    ensures
        multi_inputs_chars(ss.take(i + 1), input) == multi_inputs_chars(ss.take(i), input)
            + seg_args_chars(ss[i], input),
{
    assert(ss.take(i + 1).drop_last() =~= ss.take(i));
    assert(ss.take(i + 1).last() == ss[i]);
}

/// The full argument list of the one multi-segment invocation: every trim as
/// its own input, the silence source and concatenation as the filter graph,
/// then the fixed output normalization (16 kHz mono 16-bit PCM WAV).
pub open spec fn multi_concat_args_chars(
    ss: Seq<Segment>,
    gap_ms: nat,
    input: Seq<char>,
    output: Seq<char>,
) -> Seq<Seq<char>>
    recommends
        ss.len() >= 1,
{
    seq!["-y"@] + multi_inputs_chars(ss, input) + seq![
        "-filter_complex"@,
        filter_complex_chars(ss.len(), gap_ms),
        "-map"@,
        "[out]"@,
        "-ar"@,
        "16000"@,
        "-ac"@,
        "1"@,
        "-c:a"@,
        "pcm_s16le"@,
        "-f"@,
        "wav"@,
        output,
    ]
}

/// The full argument list of the single-cut invocation: seek, trim, and the
/// fixed output normalization.
pub open spec fn single_cut_args_chars(
    start_ms: int,
    duration_ms: int,
    input: Seq<char>,
    output: Seq<char>,
) -> Seq<Seq<char>> {
    seq![
        "-y"@,
        "-ss"@,
        sec_chars(start_ms),
        "-i"@,
        input,
        "-t"@,
        sec_chars(duration_ms),
        "-ar"@,
        "16000"@,
        "-ac"@,
        "1"@,
        "-c:a"@,
        "pcm_s16le"@,
        "-f"@,
        "wav"@,
        "-avoid_negative_ts"@,
        "make_zero"@,
        output,
    ]
}

/// The arguments of the single-cut invocation on `input`, writing `output`.
pub fn single_cut_args(start_ms: i64, duration_ms: i64, input: &str, output: &str) -> (r: Vec<
    String,
>)
    requires
        start_ms > i64::MIN,
        duration_ms > i64::MIN,
    ensures
        r.deep_view() == single_cut_args_chars(start_ms as int, duration_ms as int, input@, output@),
{
    let mut r: Vec<String> = Vec::new();
    r.push(String::from_str("-y"));
    r.push(String::from_str("-ss"));
    r.push(sec_string(start_ms));
    r.push(String::from_str("-i"));
    r.push(String::from_str(input));
    r.push(String::from_str("-t"));
    r.push(sec_string(duration_ms));
    r.push(String::from_str("-ar"));
    r.push(String::from_str("16000"));
    r.push(String::from_str("-ac"));
    r.push(String::from_str("1"));
    r.push(String::from_str("-c:a"));
    r.push(String::from_str("pcm_s16le"));
    r.push(String::from_str("-f"));
    r.push(String::from_str("wav"));
    r.push(String::from_str("-avoid_negative_ts"));
    r.push(String::from_str("make_zero"));
    r.push(String::from_str(output));
    proof {
        assert(r.deep_view() =~= single_cut_args_chars(
            start_ms as int,
            duration_ms as int,
            input@,
            output@,
        ));
    }
    r
}

/// The arguments of the one multi-segment invocation on `input`, writing
/// `output`.
pub fn multi_concat_args(segments: &Vec<Segment>, gap_ms: u32, input: &str, output: &str) -> (r:
    Vec<String>)
    requires
        segments@.len() >= 1,
        2 * segments@.len() - 1 <= usize::MAX,
        forall|i: int| 0 <= i < segments@.len() ==> (#[trigger] segments@[i]).wf(),
    ensures
        r.deep_view() == multi_concat_args_chars(segments@, gap_ms as nat, input@, output@),
{
    let mut r: Vec<String> = Vec::new();
    r.push(String::from_str("-y"));
    let mut i: usize = 0;
    proof {
        assert(segments@.take(0) =~= Seq::<Segment>::empty());
        assert(multi_inputs_chars(Seq::<Segment>::empty(), input@) == Seq::<Seq<char>>::empty());
        assert(r.deep_view() =~= seq!["-y"@] + multi_inputs_chars(segments@.take(0), input@));
    }
    while i < segments.len()
        invariant
            segments@.len() >= 1,
            2 * segments@.len() - 1 <= usize::MAX,
            forall|j: int| 0 <= j < segments@.len() ==> (#[trigger] segments@[j]).wf(),
            i <= segments@.len(),
            r.deep_view() == seq!["-y"@] + multi_inputs_chars(segments@.take(i as int), input@),
        decreases segments@.len() - i,
    {
        let s = segments[i];
        let ghost pre = r.deep_view();
        r.push(String::from_str("-ss"));
        r.push(sec_string(s.start_ms));
        r.push(String::from_str("-t"));
        r.push(sec_string(s.duration_ms));
        r.push(String::from_str("-i"));
        r.push(String::from_str(input));
        proof {
            assert(r.deep_view() =~= pre + seg_args_chars(segments@[i as int], input@));
            lemma_multi_inputs_take_step(segments@, input@, i as int);
            assert(r.deep_view() =~= seq!["-y"@] + multi_inputs_chars(
                segments@.take(i as int + 1),
                input@,
            ));
        }
        i += 1;
    }
    proof {
        assert(segments@.take(segments@.len() as int) =~= segments@);
    }
    let fc = filter_complex(segments.len(), gap_ms);
    r.push(String::from_str("-filter_complex"));
    r.push(fc);
    r.push(String::from_str("-map"));
    r.push(String::from_str("[out]"));
    r.push(String::from_str("-ar"));
    r.push(String::from_str("16000"));
    r.push(String::from_str("-ac"));
    r.push(String::from_str("1"));
    r.push(String::from_str("-c:a"));
    r.push(String::from_str("pcm_s16le"));
    r.push(String::from_str("-f"));
    r.push(String::from_str("wav"));
    r.push(String::from_str(output));
    proof {
        assert(r.deep_view() =~= multi_concat_args_chars(
            segments@,
            gap_ms as nat,
            input@,
            output@,
        ));
    }
    r
}

/// The argument list that copies the audio track only: no video, stream
/// copy, no re-encoding.
pub open spec fn separation_audio_args_chars(input: Seq<char>, output: Seq<char>) -> Seq<
    Seq<char>,
> {
    seq!["-i"@, input, "-vn"@, "-c:a"@, "copy"@, "-y"@, output]
}

/// The argument list that copies the video track only: no audio, stream
/// copy, no re-encoding.
pub open spec fn separation_video_args_chars(input: Seq<char>, output: Seq<char>) -> Seq<
    Seq<char>,
> {
    seq!["-i"@, input, "-an"@, "-c:v"@, "copy"@, "-y"@, output]
}

/// The audio-only invocation of the stream-separation variant.
pub fn separation_audio_args(input: &str, output: &str) -> (r: Vec<String>)
    ensures
        r.deep_view() == separation_audio_args_chars(input@, output@),
{
    let mut r: Vec<String> = Vec::new();
    r.push(String::from_str("-i"));
    r.push(String::from_str(input));
    r.push(String::from_str("-vn"));
    r.push(String::from_str("-c:a"));
    r.push(String::from_str("copy"));
    r.push(String::from_str("-y"));
    r.push(String::from_str(output));
    proof {
        assert(r.deep_view() =~= separation_audio_args_chars(input@, output@));
    }
    r
}

/// The video-only invocation of the stream-separation variant.
pub fn separation_video_args(input: &str, output: &str) -> (r: Vec<String>)
    ensures
        r.deep_view() == separation_video_args_chars(input@, output@),
{
    let mut r: Vec<String> = Vec::new();
    r.push(String::from_str("-i"));
    r.push(String::from_str(input));
    r.push(String::from_str("-an"));
    r.push(String::from_str("-c:v"));
    r.push(String::from_str("copy"));
    r.push(String::from_str("-y"));
    r.push(String::from_str(output));
    proof {
        assert(r.deep_view() =~= separation_video_args_chars(input@, output@));
    }
    r
}

/// The argument list of the one invocation that executes `p`, reading
/// `input` and writing `output`.
pub open spec fn plan_args_chars(p: ProcessingPlan, input: Seq<char>, output: Seq<char>) -> Seq<
    Seq<char>,
> {
    match p {
        ProcessingPlan::SingleCut { start_ms, duration_ms } => single_cut_args_chars(
            start_ms as int,
            duration_ms as int,
            input,
            output,
        ),
        ProcessingPlan::MultiSegmentConcat { segments, gap_ms } => multi_concat_args_chars(
            segments@,
            gap_ms as nat,
            input,
            output,
        ),
    }
}

/// The arguments of the invocation that executes `p`.
pub fn plan_args(p: &ProcessingPlan, input: &str, output: &str) -> (r: Vec<String>)
    requires
        plan_wf(*p),
    ensures
        r.deep_view() == plan_args_chars(*p, input@, output@),
{
    match p {
        ProcessingPlan::SingleCut { start_ms, duration_ms } => single_cut_args(
            *start_ms,
            *duration_ms,
            input,
            output,
        ),
        ProcessingPlan::MultiSegmentConcat { segments, gap_ms } => multi_concat_args(
            segments,
            *gap_ms,
            input,
            output,
        ),
    }
}

/// One subprocess call of the external media tool: the program and its
/// ordered argument list. The scratch paths the call reads and writes stand
/// inside the arguments; the caller owns them for the request's lifetime.
#[derive(Debug)]
pub struct ExternalInvocation {
    pub program: String,
    pub args: Vec<String>,
}

/// The one invocation that executes `p`, reading `input` and writing
/// `output`.
pub fn plan_invocation(p: &ProcessingPlan, input: &str, output: &str) -> (inv: ExternalInvocation)
    requires
        plan_wf(*p),
    ensures
        inv.program@ == "ffmpeg"@,
        inv.args.deep_view() == plan_args_chars(*p, input@, output@),
{
    ExternalInvocation { program: String::from_str("ffmpeg"), args: plan_args(p, input, output) }
}

/// The two independent invocations of the stream-separation variant: the
/// audio-only copy and the video-only copy, each with its own output path
/// and no shared state, so they may run concurrently.
pub fn separation_invocations(input: &str, audio_output: &str, video_output: &str) -> (invs: (
    ExternalInvocation,
    ExternalInvocation,
))
    ensures
        invs.0.program@ == "ffmpeg"@,
        invs.0.args.deep_view() == separation_audio_args_chars(input@, audio_output@),
        invs.1.program@ == "ffmpeg"@,
        invs.1.args.deep_view() == separation_video_args_chars(input@, video_output@),
{
    (
        ExternalInvocation {
            program: String::from_str("ffmpeg"),
            args: separation_audio_args(input, audio_output),
        },
        ExternalInvocation {
            program: String::from_str("ffmpeg"),
            args: separation_video_args(input, video_output),
        },
    )
}

/// The logical length in milliseconds of the concatenation of `ss` with one
/// `gap` between every adjacent pair of segments.
pub open spec fn planned_ms(ss: Seq<Segment>, gap: int) -> int
    decreases ss.len(),
{
    if ss.len() == 0 {
        0
    } else if ss.len() == 1 {
        ss[0].duration_ms as int
    } else {
        planned_ms(ss.drop_last(), gap) + gap + ss.last().duration_ms
    }
}

/// The logical length in milliseconds of the output that `p` describes.
pub open spec fn planned_output_ms(p: ProcessingPlan) -> int {
    match p {
        ProcessingPlan::SingleCut { duration_ms, .. } => duration_ms as int,
        ProcessingPlan::MultiSegmentConcat { segments, gap_ms } => planned_ms(
            segments@,
            gap_ms as int,
        ),
    }
}

proof fn lemma_planned_take_step(ss: Seq<Segment>, gap: int, i: int)
    requires
        1 <= i < ss.len(),
    ensures
        planned_ms(ss.take(i + 1), gap) == planned_ms(ss.take(i), gap) + gap
            + ss[i].duration_ms,
{
    assert(ss.take(i + 1).drop_last() =~= ss.take(i));
    assert(ss.take(i + 1).last() == ss[i]);
}

proof fn lemma_planned_prefix_le(ss: Seq<Segment>, gap: int, i: int)
    requires
        0 <= i <= ss.len(),
        gap >= 0,
        forall|j: int| 0 <= j < ss.len() ==> (#[trigger] ss[j]).wf(),
    ensures
        0 <= planned_ms(ss.take(i), gap) <= planned_ms(ss, gap),
    decreases ss.len() - i,
{
    if i == ss.len() {
        assert(ss.take(i) =~= ss);
        if i > 0 {
            lemma_planned_nonneg(ss, gap, i);
        }
    } else {
        lemma_planned_prefix_le(ss, gap, i + 1);
        if i == 0 {
            assert(ss.take(0) =~= Seq::<Segment>::empty());
            assert(planned_ms(ss.take(0), gap) == 0);
            assert(ss.take(1)[0] == ss[0]);
            assert(planned_ms(ss.take(1), gap) == ss[0].duration_ms);
        } else {
            lemma_planned_take_step(ss, gap, i);
            lemma_planned_nonneg(ss, gap, i);
            assert(ss[i].wf());
        }
    }
}

proof fn lemma_planned_nonneg(ss: Seq<Segment>, gap: int, i: int)
    requires
        0 <= i <= ss.len(),
        gap >= 0,
        forall|j: int| 0 <= j < ss.len() ==> (#[trigger] ss[j]).wf(),
    ensures
        planned_ms(ss.take(i), gap) >= 0,
    decreases i,
{
    if i == 0 {
        assert(ss.take(0) =~= Seq::<Segment>::empty());
    } else if i == 1 {
        assert(ss.take(1)[0] == ss[0]);
        assert(planned_ms(ss.take(1), gap) == ss[0].duration_ms);
    } else {
        lemma_planned_nonneg(ss, gap, i - 1);
        lemma_planned_take_step(ss, gap, i - 1);
    }
}

/// The logical output length in milliseconds that `p` describes: the one
/// trimmed duration on the fast path, the segment durations plus `n - 1`
/// gaps on the multi-segment path.
pub fn total_output_ms(p: &ProcessingPlan) -> (t: i64)
    requires
        plan_wf(*p),
        planned_output_ms(*p) <= i64::MAX,
    ensures
        t == planned_output_ms(*p),
        t > 0,
{
    match p {
        ProcessingPlan::SingleCut { duration_ms, .. } => *duration_ms,
        ProcessingPlan::MultiSegmentConcat { segments, gap_ms } => {
            let gap = *gap_ms;
            let mut acc: i64 = segments[0].duration_ms;
            let mut i: usize = 1;
            proof {
                assert(segments@.take(1)[0] == segments@[0]);
                assert(acc == planned_ms(segments@.take(1), gap as int));
            }
            while i < segments.len()
                invariant
                    segments@.len() >= 1,
                    forall|j: int| 0 <= j < segments@.len() ==> (#[trigger] segments@[j]).wf(),
                    planned_ms(segments@, gap as int) <= i64::MAX,
                    1 <= i <= segments@.len(),
                    acc == planned_ms(segments@.take(i as int), gap as int),
                    acc > 0,
                decreases segments@.len() - i,
            {
                proof {
                    lemma_planned_take_step(segments@, gap as int, i as int);
                    lemma_planned_prefix_le(segments@, gap as int, i as int + 1);
                }
                acc = acc + gap as i64 + segments[i].duration_ms;
                i += 1;
            }
            proof {
                assert(segments@.take(segments@.len() as int) =~= segments@);
            }
            acc
        },
    }
}

/// Plan construction and argument rendering are pure functions of the
/// validated request and the two scratch paths: any two plans built for the
/// same request render the same argument list and describe an output of the
/// same length, so repeating a request changes nothing but the scratch names.
pub proof fn lemma_plan_deterministic(
    p1: ProcessingPlan,
    p2: ProcessingPlan,
    req: SegmentRequest,
    input: Seq<char>,
    output: Seq<char>,
)
    requires
        plan_matches(p1, req),
        plan_matches(p2, req),
    ensures
        plan_args_chars(p1, input, output) == plan_args_chars(p2, input, output),
        planned_output_ms(p1) == planned_output_ms(p2),
{
    match (p1, p2) {
        (
            ProcessingPlan::SingleCut { .. },
            ProcessingPlan::SingleCut { .. },
        ) => {
        },
        (
            ProcessingPlan::MultiSegmentConcat { segments: s1, gap_ms: g1 },
            ProcessingPlan::MultiSegmentConcat { segments: s2, gap_ms: g2 },
        ) => {
            assert(s1@ =~= s2@);
        },
        _ => {
        },
    }
}

} // verus!
