//! The engine's result model: timestamps, segments, and the transcription
//! result built from the engine's structured output.
use vstd::prelude::*;
use vstd::string::*;
use crate::error::AppError;
use crate::json::{
    array_of, i64_of, is_json_document, json_of, member_array, member_of, member_str, nested,
    nested_i64, nested_str, parse_json, str_of, JsonValue,
};
use crate::text::{
    digit_run, digits_to_u64, digits_value, fit_u64, fixed_point_value, is_trimmed,
    lemma_digit_run_bounds, lemma_trimmed_fixed, lemma_trimmed_is_trimmed, opt_text,
    parse_fixed_point, scan_digits, trim_text, trimmed,
};

verus! {

/// `H+:M+:S+[.,F+]` (ASCII digits) in milliseconds; fraction digits past the third are dropped.
pub open spec fn timestamp_ms(s: Seq<char>) -> Option<nat> {
    let a = digit_run(s, 0);
    if 0 < a < s.len() && s[a] == ':' {
        let b = digit_run(s, a + 1);
        if a + 1 < b < s.len() && s[b] == ':' {
            match fixed_point_value(s.subrange(b + 1, s.len() as int), 3, true) {
                Some(sec) => Some(
                    digits_value(s.subrange(0, a)) * 3_600_000 + digits_value(s.subrange(a + 1, b))
                        * 60_000 + sec,
                ),
                None => None,
            }
        } else {
            None
        }
    } else {
        None
    }
}

/// Parses an engine timestamp such as `00:01:23,456` or `00:01:23.456` to milliseconds.
pub fn parse_timestamp(s: &str) -> (r: Option<u64>)
    ensures
        r == fit_u64(timestamp_ms(s@)),
{
    let n = s.unicode_len();
    let a = scan_digits(s, 0);
    proof {
        lemma_digit_run_bounds(s@, 0);
    }
    if !(0 < a && a < n && s.get_char(a) == ':') {
        return None;
    }
    let b = scan_digits(s, a + 1);
    proof {
        lemma_digit_run_bounds(s@, a + 1);
    }
    if !(a + 1 < b && b < n && s.get_char(b) == ':') {
        return None;
    }
    let sec = parse_fixed_point(s.substring_char(b + 1, n), 3, true);
    let ghost hv = digits_value(s@.subrange(0, a as int));
    let ghost mv = digits_value(s@.subrange(a + 1, b as int));
    let sec = match sec {
        Some(v) => v,
        None => {
            return None;
        },
    };
    let h = match digits_to_u64(s, 0, a) {
        Some(v) => v,
        None => {
            return None;
        },
    };
    let m = match digits_to_u64(s, a + 1, b) {
        Some(v) => v,
        None => {
            return None;
        },
    };
    let total: u128 = h as u128 * 3_600_000 + m as u128 * 60_000 + sec as u128;
    if total > u64::MAX as u128 {
        return None;
    }
    Some(total as u64)
}

/// One segment as the engine wrote it. A field is `None` where the output
/// lacks it or holds a value of another JSON type.
#[derive(Debug, Clone)]
pub struct RawSegment {
    /// `timestamps.from`, a formatted timestamp.
    pub from_stamp: Option<String>,
    /// `timestamps.to`, a formatted timestamp.
    pub to_stamp: Option<String>,
    /// `offsets.from`, in milliseconds.
    pub from_offset: Option<i64>,
    /// `offsets.to`, in milliseconds.
    pub to_offset: Option<i64>,
    pub text: Option<String>,
}

/// What the engine's result file holds, as plain values.
#[derive(Debug, Clone)]
pub struct EngineOutput {
    /// The `transcription` array; `None` when the file has none.
    pub segments: Option<Vec<RawSegment>>,
    /// `result.language`.
    pub language: Option<String>,
}

/// A timestamped span of recognized text; times in milliseconds.
#[derive(Debug, Clone)]
pub struct TranscriptionSegment {
    pub start_ms: u64,
    pub end_ms: u64,
    pub text: String,
}

/// The result of one transcription run.
#[derive(Debug, Clone)]
pub struct TranscriptionResult {
    pub segments: Vec<TranscriptionSegment>,
    /// The segments' texts joined by single spaces.
    pub full_text: String,
    pub language: Option<String>,
    /// End of the last segment, or 0 when there is none.
    pub duration_ms: u64,
}

impl View for TranscriptionSegment {
    type V = (u64, u64, Seq<char>);

    open spec fn view(&self) -> (u64, u64, Seq<char>) {
        (self.start_ms, self.end_ms, self.text@)
    }
}

/// A raw segment as values of the model.
pub struct RawSegmentView {
    pub from_stamp: Option<Seq<char>>,
    pub to_stamp: Option<Seq<char>>,
    pub from_offset: Option<i64>,
    pub to_offset: Option<i64>,
    pub text: Option<Seq<char>>,
}

impl View for RawSegment {
    type V = RawSegmentView;

    open spec fn view(&self) -> RawSegmentView {
        RawSegmentView {
            from_stamp: opt_text(self.from_stamp),
            to_stamp: opt_text(self.to_stamp),
            from_offset: self.from_offset,
            to_offset: self.to_offset,
            text: opt_text(self.text),
        }
    }
}

/// One end of a segment: the formatted timestamp when it parses, else the
/// millisecond offset when it is not negative, else 0.
pub open spec fn bound_ms(stamp: Option<Seq<char>>, offset: Option<i64>) -> u64 {
    let parsed = match stamp {
        Some(s) => fit_u64(timestamp_ms(s)),
        None => None,
    };
    match parsed {
        Some(v) => v,
        None => match offset {
            Some(o) => if o >= 0 {
                o as u64
            } else {
                0
            },
            None => 0,
        },
    }
}

pub open spec fn raw_text(r: RawSegmentView) -> Seq<char> {
    match r.text {
        Some(t) => t,
        None => Seq::empty(),
    }
}

/// The segment kept from a raw one: its text trimmed, its end no earlier than
/// its start; `None` when the trimmed text is empty.
pub open spec fn kept_segment(r: RawSegmentView) -> Option<(u64, u64, Seq<char>)> {
    let t = trimmed(raw_text(r));
    let start = bound_ms(r.from_stamp, r.from_offset);
    let end = bound_ms(r.to_stamp, r.to_offset);
    if t.len() == 0 {
        None
    } else {
        Some(
            (
                start,
                if end < start {
                    start
                } else {
                    end
                },
                t,
            ),
        )
    }
}

/// The kept segments of a sequence of raw ones, in order.
pub open spec fn kept_segments(raws: Seq<RawSegmentView>) -> Seq<(u64, u64, Seq<char>)>
    decreases raws.len(),
{
    if raws.len() == 0 {
        Seq::empty()
    } else {
        let prev = kept_segments(raws.drop_last());
        match kept_segment(raws.last()) {
            Some(k) => prev.push(k),
            None => prev,
        }
    }
}

pub open spec fn raw_segments(out: EngineOutput) -> Seq<RawSegmentView> {
    match out.segments {
        Some(v) => v@.map_values(|r: RawSegment| r@),
        None => Seq::empty(),
    }
}

pub open spec fn segments_view(v: Seq<TranscriptionSegment>) -> Seq<(u64, u64, Seq<char>)> {
    v.map_values(|s: TranscriptionSegment| s@)
}

pub open spec fn texts_of(segs: Seq<(u64, u64, Seq<char>)>) -> Seq<Seq<char>> {
    segs.map_values(|s: (u64, u64, Seq<char>)| s.2)
}

/// The words joined by single spaces.
pub open spec fn join_words(ws: Seq<Seq<char>>) -> Seq<char>
    decreases ws.len(),
{
    if ws.len() == 0 {
        Seq::empty()
    } else if ws.len() == 1 {
        ws[0]
    } else {
        join_words(ws.drop_last()) + seq![' '] + ws.last()
    }
}

pub open spec fn duration_of(segs: Seq<(u64, u64, Seq<char>)>) -> u64 {
    if segs.len() == 0 {
        0
    } else {
        segs.last().1
    }
}

/// A segment's end is not before its start, and its text is non-empty and trimmed.
pub open spec fn segment_wf(s: (u64, u64, Seq<char>)) -> bool {
    s.0 <= s.1 && s.2.len() > 0 && is_trimmed(s.2)
}

/// The invariants of a transcription result.
pub open spec fn result_wf(r: TranscriptionResult) -> bool {
    let segs = segments_view(r.segments@);
    &&& forall|i: int| 0 <= i < segs.len() ==> segment_wf(#[trigger] segs[i])
    &&& r.full_text@ == join_words(texts_of(segs))
    &&& r.duration_ms == duration_of(segs)
}

/// One end of a segment, as [`bound_ms`] states.
pub fn segment_bound(stamp: &Option<String>, offset: Option<i64>) -> (r: u64)
    ensures
        r == bound_ms(opt_text(*stamp), offset),
{
    let parsed = match stamp {
        Some(s) => parse_timestamp(s.as_str()),
        None => None,
    };
    match parsed {
        Some(v) => v,
        None => match offset {
            Some(o) => if o >= 0 {
                o as u64
            } else {
                0
            },
            None => 0,
        },
    }
}

/// The segment kept from a raw one, as [`kept_segment`] states.
pub fn keep_segment(raw: &RawSegment) -> (r: Option<TranscriptionSegment>)
    ensures
        match r {
            Some(s) => kept_segment(raw@) == Some(s@),
            None => kept_segment(raw@) is None,
        },
{
    let text = match &raw.text {
        Some(t) => trim_text(t.as_str()),
        None => trim_text(""),
    };
    proof {
        reveal_strlit("");
    }
    if text.unicode_len() == 0 {
        return None;
    }
    let start = segment_bound(&raw.from_stamp, raw.from_offset);
    let end = segment_bound(&raw.to_stamp, raw.to_offset);
    let end = if end < start {
        start
    } else {
        end
    };
    Some(TranscriptionSegment { start_ms: start, end_ms: end, text })
}

proof fn lemma_join_ends(ws: Seq<Seq<char>>)
    requires
        ws.len() > 0,
        forall|i: int| 0 <= i < ws.len() ==> (#[trigger] ws[i]).len() > 0,
    ensures
        join_words(ws).len() > 0,
        join_words(ws)[0] == ws[0][0],
        join_words(ws).last() == ws.last().last(),
    decreases ws.len(),
{
    if ws.len() > 1 {
        let p = ws.drop_last();
        assert forall|i: int| 0 <= i < p.len() implies (#[trigger] p[i]).len() > 0 by {
            assert(p[i] == ws[i]);
        }
        lemma_join_ends(p);
        assert(ws.last().len() > 0);
    }
}

/// The full text of a well-formed result is the trimmed, single-space join of
/// its segments' texts.
pub proof fn lemma_full_text_is_trimmed_join(r: TranscriptionResult)
    requires
        result_wf(r),
    ensures
        r.full_text@ == trimmed(join_words(texts_of(segments_view(r.segments@)))),
        r.full_text@ == join_words(texts_of(segments_view(r.segments@))),
{
    let segs = segments_view(r.segments@);
    let ws = texts_of(segs);
    if ws.len() > 0 {
        assert forall|i: int| 0 <= i < ws.len() implies (#[trigger] ws[i]).len() > 0 by {
            assert(segment_wf(segs[i]));
        }
        lemma_join_ends(ws);
        assert(segment_wf(segs[0]));
        assert(segment_wf(segs[segs.len() - 1]));
        assert(ws[0] == segs[0].2);
        assert(ws.last() == segs.last().2);
    }
    lemma_trimmed_fixed(join_words(ws));
}

/// Every segment of a well-formed result ends no earlier than it starts, and
/// its text is non-empty after trimming (trimming leaves it unchanged).
pub proof fn lemma_segments_well_formed(r: TranscriptionResult)
    requires
        result_wf(r),
    ensures
        forall|i: int|
            0 <= i < r.segments@.len() ==> {
                let s = #[trigger] r.segments@[i];
                &&& s.start_ms <= s.end_ms
                &&& trimmed(s.text@) == s.text@
                &&& trimmed(s.text@).len() > 0
            },
{
    assert forall|i: int| 0 <= i < r.segments@.len() implies {
        let s = #[trigger] r.segments@[i];
        &&& s.start_ms <= s.end_ms
        &&& trimmed(s.text@) == s.text@
        &&& trimmed(s.text@).len() > 0
    } by {
        assert(segment_wf(segments_view(r.segments@)[i]));
        lemma_trimmed_fixed(r.segments@[i].text@);
    }
}

/// The duration of a well-formed result is the end of its last segment, or 0
/// when it has none.
pub proof fn lemma_duration_is_last_end(r: TranscriptionResult)
    requires
        result_wf(r),
    ensures
        r.duration_ms == if r.segments@.len() == 0 {
            0
        } else {
            r.segments@.last().end_ms
        },
{
}

/// Builds the transcription result from the engine's output: segments with an
/// empty trimmed text are dropped, the rest keep their order.
pub fn build_result(out: &EngineOutput) -> (r: TranscriptionResult)
    ensures
        segments_view(r.segments@) == kept_segments(raw_segments(*out)),
        result_wf(r),
        opt_text(r.language) == opt_text(out.language),
{
    let mut segments: Vec<TranscriptionSegment> = Vec::new();
    let mut full_text = String::new();
    let ghost raws = raw_segments(*out);
    let none: Vec<RawSegment> = Vec::new();
    let list: &Vec<RawSegment> = match &out.segments {
        Some(v) => v,
        None => &none,
    };
    assert(raws =~= list@.map_values(|r: RawSegment| r@));
    let n: usize = list.len();
    let mut i: usize = 0;
    assert(raws.subrange(0, 0) =~= Seq::<RawSegmentView>::empty());
    assert(segments_view(segments@) =~= Seq::<(u64, u64, Seq<char>)>::empty());
    assert(texts_of(segments_view(segments@)) =~= Seq::<Seq<char>>::empty());
    while i < n
        invariant
            i <= n,
            n == raws.len(),
            raws == raw_segments(*out),
            raws == list@.map_values(|r: RawSegment| r@),
            segments_view(segments@) == kept_segments(raws.subrange(0, i as int)),
            full_text@ == join_words(texts_of(segments_view(segments@))),
            forall|j: int|
                0 <= j < segments@.len() ==> segment_wf(#[trigger] segments_view(segments@)[j]),
        decreases n - i,
    {
        let raw = &list[i];
        let k = keep_segment(raw);
        let ghost before = segments_view(segments@);
        assert(raws.subrange(0, i + 1).drop_last() =~= raws.subrange(0, i as int));
        assert(raws.subrange(0, i + 1).last() == raws[i as int]);
        assert(raws[i as int] == raw@);
        match k {
            Some(seg) => {
                proof {
                    lemma_trimmed_is_trimmed(raw_text(raw@));
                }
                if segments.len() > 0 {
                    full_text.append(" ");
                }
                full_text.append(seg.text.as_str());
                let ghost sv = seg@;
                segments.push(seg);
                proof {
                    reveal_strlit(" ");
                    assert(segments_view(segments@) =~= before.push(sv));
                    assert(texts_of(before.push(sv)) =~= texts_of(before).push(sv.2));
                    assert(texts_of(before.push(sv)).drop_last() =~= texts_of(before));
                    if before.len() == 0 {
                        assert(texts_of(before.push(sv)) =~= seq![sv.2]);
                    }
                }
            },
            None => {},
        }
        i = i + 1;
    }
    assert(raws.subrange(0, n as int) =~= raws);
    let duration_ms = if segments.len() == 0 {
        0
    } else {
        segments[segments.len() - 1].end_ms
    };
    let language = match &out.language {
        Some(l) => Some(l.clone()),
        None => None,
    };
    TranscriptionResult { segments, full_text, language, duration_ms }
}

/// One element of the engine's `transcription` array, read as a raw segment.
pub open spec fn raw_view_of_json(item: JsonValue) -> RawSegmentView {
    RawSegmentView {
        from_stamp: str_of(nested(item, "timestamps"@, "from"@)),
        to_stamp: str_of(nested(item, "timestamps"@, "to"@)),
        from_offset: i64_of(nested(item, "offsets"@, "from"@)),
        to_offset: i64_of(nested(item, "offsets"@, "to"@)),
        text: str_of(member_of(item, "text"@)),
    }
}

/// The raw segments of the engine's result document: its `transcription`
/// array, or none when it has no such array.
pub open spec fn json_segments(j: JsonValue) -> Seq<RawSegmentView> {
    match array_of(member_of(j, "transcription"@)) {
        Some(items) => items.map_values(|x: JsonValue| raw_view_of_json(x)),
        None => Seq::empty(),
    }
}

/// The language the result document names under `result.language`.
pub open spec fn json_language(j: JsonValue) -> Option<Seq<char>> {
    str_of(nested(j, "result"@, "language"@))
}

/// `t` is the transcription that the result document `j` gives.
pub open spec fn transcript_of(j: JsonValue, t: TranscriptionResult) -> bool {
    &&& result_wf(t)
    &&& segments_view(t.segments@) == kept_segments(json_segments(j))
    &&& opt_text(t.language) == json_language(j)
}

/// Reads one element of the engine's `transcription` array.
pub fn raw_segment_from_json(v: &JsonValue) -> (r: RawSegment)
    ensures
        r@ == raw_view_of_json(*v),
{
    RawSegment {
        from_stamp: nested_str(v, "timestamps", "from"),
        to_stamp: nested_str(v, "timestamps", "to"),
        from_offset: nested_i64(v, "offsets", "from"),
        to_offset: nested_i64(v, "offsets", "to"),
        text: member_str(v, "text"),
    }
}

/// Reads the engine's result document: its `transcription` array and its
/// `result.language`.
pub fn engine_output_from_json(v: &JsonValue) -> (r: EngineOutput)
    ensures
        r.segments is Some <==> array_of(member_of(*v, "transcription"@)) is Some,
        raw_segments(r) == json_segments(*v),
        opt_text(r.language) == json_language(*v),
{
    let segments = match member_array(v, "transcription") {
        Some(items) => {
            let mut raws: Vec<RawSegment> = Vec::new();
            let mut i: usize = 0;
            while i < items.len()
                invariant
                    i <= items@.len(),
                    raws@.len() == i,
                    raws@.map_values(|r: RawSegment| r@) == items@.subrange(0, i as int).map_values(
                        |x: JsonValue| raw_view_of_json(x),
                    ),
                decreases items@.len() - i,
            {
                let ghost before = raws@;
                let raw = raw_segment_from_json(&items[i]);
                raws.push(raw);
                proof {
                    let lhs = raws@.map_values(|r: RawSegment| r@);
                    let rhs = items@.subrange(0, i + 1).map_values(|x: JsonValue| raw_view_of_json(x));
                    let prev = items@.subrange(0, i as int).map_values(|x: JsonValue| raw_view_of_json(x));
                    assert(before.map_values(|r: RawSegment| r@) == prev);
                    assert forall|k: int| 0 <= k < i + 1 implies lhs[k] == rhs[k] by {
                        if k < i {
                            assert(raws@[k] == before[k]);
                            assert(before.map_values(|r: RawSegment| r@)[k] == prev[k]);
                        }
                    }
                    assert(lhs =~= rhs);
                }
                i = i + 1;
            }
            assert(items@.subrange(0, i as int) =~= items@);
            Some(raws)
        },
        None => None,
    };
    let r = EngineOutput { segments, language: nested_str(v, "result", "language") };
    assert(raw_segments(r) =~= json_segments(*v));
    r
}

/// Parses the engine's result file into a transcription result. A text that
/// is not a JSON document is unparsable output, a `Whisper` error; a document
/// without segments gives an empty result.
pub fn parse_engine_output(content: &str) -> (r: Result<TranscriptionResult, AppError>)
    ensures
        r is Ok <==> is_json_document(content@),
        r matches Ok(t) ==> transcript_of(json_of(content@), t),
        r matches Err(e) ==> e is Whisper,
{
    match parse_json(content) {
        Ok(v) => {
            let out = engine_output_from_json(&v);
            Ok(build_result(&out))
        },
        Err(e) => Err(AppError::Whisper(crate::error::prefixed("Unparsable transcription output: ", e.to_string().as_str()))),
    }
}

} // verus!
