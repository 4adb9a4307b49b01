//! Progress accounting: the lines the external tools print about their
//! progress, and the remapping of each stage into the pipeline's 0-100 band.
use vstd::prelude::*;
use vstd::string::*;
use crate::text::{
    all_digits, digits_to_u64, digits_value, fit_u64, lemma_digit_run_bounds, scan_digits,
    trim_text, trimmed,
};

verus! {

/// The phase of a transcription run.
#[derive(Debug, Clone, Copy, PartialEq, Eq, Structural)]
pub enum PipelineStage {
    Extracting,
    Transcribing,
    Complete,
}

impl PipelineStage {
    /// The stage's name in progress notifications.
    pub fn as_str(&self) -> (r: &'static str)
        ensures
            r@ == stage_name(*self),
    {
        match self {
            PipelineStage::Extracting => "extracting",
            PipelineStage::Transcribing => "transcribing",
            PipelineStage::Complete => "complete",
        }
    }
}

pub open spec fn stage_name(s: PipelineStage) -> Seq<char> {
    match s {
        PipelineStage::Extracting => "extracting"@,
        PipelineStage::Transcribing => "transcribing"@,
        PipelineStage::Complete => "complete"@,
    }
}

pub open spec fn min_int(a: int, b: int) -> int {
    if a <= b {
        a
    } else {
        b
    }
}

/// A stage's own percentage (clamped to 100) placed in the pipeline's band:
/// extraction fills [0, 30], transcription [30, 100].
pub open spec fn overall_percent(stage: PipelineStage, p: int) -> int {
    let q = min_int(p, 100);
    match stage {
        PipelineStage::Extracting => q * 30 / 100,
        PipelineStage::Transcribing => 30 + q * 70 / 100,
        PipelineStage::Complete => 100,
    }
}

/// The pipeline-wide percentage for a stage's own percentage.
pub fn overall_progress(stage: PipelineStage, p: u64) -> (r: u64)
    ensures
        r == overall_percent(stage, p as int),
        r <= 100,
{
    let q = if p < 100 {
        p
    } else {
        100
    };
    match stage {
        PipelineStage::Extracting => q * 30 / 100,
        PipelineStage::Transcribing => 30 + q * 70 / 100,
        PipelineStage::Complete => 100,
    }
}

/// Extraction progress stays within [0, 30] and does not go back as the
/// extraction's own percentage grows.
pub proof fn lemma_extraction_band(p: nat, q: nat)
    requires
        p <= q,
    ensures
        0 <= overall_percent(PipelineStage::Extracting, p as int),
        overall_percent(PipelineStage::Extracting, p as int) <= overall_percent(
            PipelineStage::Extracting,
            q as int,
        ),
        overall_percent(PipelineStage::Extracting, q as int) <= 30,
{
    let a = min_int(p as int, 100);
    let b = min_int(q as int, 100);
    assert(a * 30 / 100 <= b * 30 / 100) by (nonlinear_arith)
        requires
            0 <= a <= b <= 100,
    ;
    assert(b * 30 / 100 <= 30) by (nonlinear_arith)
        requires
            0 <= b <= 100,
    ;
}

/// Transcription progress stays within [30, 100] and does not go back as the
/// engine's own percentage grows; it never falls below what extraction reached.
pub proof fn lemma_transcription_band(p: nat, q: nat, e: nat)
    requires
        p <= q,
    ensures
        overall_percent(PipelineStage::Extracting, e as int) <= 30 <= overall_percent(
            PipelineStage::Transcribing,
            p as int,
        ),
        overall_percent(PipelineStage::Transcribing, p as int) <= overall_percent(
            PipelineStage::Transcribing,
            q as int,
        ),
        overall_percent(PipelineStage::Transcribing, q as int) <= 100,
{
    lemma_extraction_band(e, e);
    let a = min_int(p as int, 100);
    let b = min_int(q as int, 100);
    assert(a * 70 / 100 <= b * 70 / 100) by (nonlinear_arith)
        requires
            0 <= a <= b <= 100,
    ;
    assert(b * 70 / 100 <= 70) by (nonlinear_arith)
        requires
            0 <= b <= 100,
    ;
    assert(0 <= a * 70 / 100) by (nonlinear_arith)
        requires
            0 <= a,
    ;
}

/// Extraction's own percentage: elapsed output time over the probed duration,
/// clamped to 100; 100 when the duration is 0.
pub open spec fn extraction_percent_of(elapsed_us: nat, duration_us: nat) -> nat {
    if duration_us == 0 {
        100
    } else {
        min_int((elapsed_us * 100 / duration_us) as int, 100) as nat
    }
}

/// The extraction percentage for `elapsed_us` of output time over `duration_us`.
pub fn extraction_percent(elapsed_us: u64, duration_us: u64) -> (r: u64)
    ensures
        r == extraction_percent_of(elapsed_us as nat, duration_us as nat),
        r <= 100,
{
    if duration_us == 0 {
        return 100;
    }
    let p: u128 = elapsed_us as u128 * 100 / duration_us as u128;
    if p < 100 {
        p as u64
    } else {
        100
    }
}

/// Extraction progress does not go back as the transcoder's output time grows.
pub proof fn lemma_extraction_percent_monotone(e1: nat, e2: nat, d: nat)
    requires
        e1 <= e2,
    ensures
        extraction_percent_of(e1, d) <= extraction_percent_of(e2, d),
{
    if d > 0 {
        assert(e1 * 100 / d <= e2 * 100 / d) by (nonlinear_arith)
            requires
                e1 <= e2,
                d > 0,
        ;
    }
}

/// Over a transcode whose output times never go back, the extraction progress
/// it reports never goes back and stays within [0, 30].
pub proof fn lemma_extraction_reports_non_decreasing(times: Seq<nat>, duration_us: nat)
    requires
        forall|i: int, j: int| 0 <= i <= j < times.len() ==> times[i] <= times[j],
    ensures
        forall|i: int, j: int|
            0 <= i <= j < times.len() ==> {
                let a = overall_percent(
                    PipelineStage::Extracting,
                    extraction_percent_of(#[trigger] times[i], duration_us) as int,
                );
                let b = overall_percent(
                    PipelineStage::Extracting,
                    extraction_percent_of(#[trigger] times[j], duration_us) as int,
                );
                0 <= a <= b <= 30
            },
{
    assert forall|i: int, j: int| 0 <= i <= j < times.len() implies {
        let a = overall_percent(
            PipelineStage::Extracting,
            extraction_percent_of(#[trigger] times[i], duration_us) as int,
        );
        let b = overall_percent(
            PipelineStage::Extracting,
            extraction_percent_of(#[trigger] times[j], duration_us) as int,
        );
        0 <= a <= b <= 30
    } by {
        lemma_extraction_percent_monotone(times[i], times[j], duration_us);
        lemma_extraction_band(
            extraction_percent_of(times[i], duration_us),
            extraction_percent_of(times[j], duration_us),
        );
    }
}

pub open spec fn occurs_at(s: Seq<char>, pat: Seq<char>, i: int) -> bool {
    0 <= i && i + pat.len() <= s.len() && s.subrange(i, i + pat.len()) == pat
}

/// `pat` occurs in `s`.
pub open spec fn contains_text(s: Seq<char>, pat: Seq<char>) -> bool {
    exists|i: int| occurs_at(s, pat, i)
}

/// The first index at or after `from` where `c` stands, or the length.
pub open spec fn index_of(s: Seq<char>, c: char, from: int) -> int
    decreases s.len() - from,
{
    if from < 0 || from >= s.len() {
        s.len() as int
    } else if s[from] == c {
        from
    } else {
        index_of(s, c, from + 1)
    }
}

/// The text without its trailing `%` signs.
pub open spec fn strip_percent(s: Seq<char>) -> Seq<char>
    decreases s.len(),
{
    if s.len() > 0 && s.last() == '%' {
        strip_percent(s.drop_last())
    } else {
        s
    }
}

/// The percentage in an engine diagnostic line such as `progress = 45%`: the
/// line mentions `progress`, and the text between its first `=` and the next
/// `=` (or the end), trimmed and without trailing `%`, is a decimal integer.
pub open spec fn engine_progress_of(s: Seq<char>) -> Option<nat> {
    let e1 = index_of(s, '=', 0);
    let e2 = index_of(s, '=', e1 + 1);
    let f = strip_percent(trimmed(s.subrange(e1 + 1, e2)));
    if contains_text(s, "progress"@) && e1 < s.len() && f.len() > 0 && all_digits(f) {
        Some(digits_value(f))
    } else {
        None
    }
}

proof fn lemma_index_of_bounds(s: Seq<char>, c: char, from: int)
    requires
        0 <= from,
    ensures
        from <= index_of(s, c, from) <= s.len() || (from > s.len() && index_of(s, c, from)
            == s.len()),
        index_of(s, c, from) < s.len() ==> s[index_of(s, c, from)] == c,
    decreases s.len() - from,
{
    if from < s.len() && s[from] != c {
        lemma_index_of_bounds(s, c, from + 1);
    }
}

/// The first index at or after `from` where `c` stands in `s`, or its length.
pub fn find_char(s: &str, c: char, from: usize) -> (r: usize)
    requires
        from <= s@.len(),
    ensures
        r as int == index_of(s@, c, from as int),
        from <= r <= s@.len(),
{
    let n = s.unicode_len();
    let mut i = from;
    while i < n && s.get_char(i) != c
        invariant
            from <= i <= n,
            n == s@.len(),
            index_of(s@, c, from as int) == index_of(s@, c, i as int),
        decreases n - i,
    {
        i = i + 1;
    }
    i
}

/// Whether `pat` occurs in `s`.
pub fn find_text(s: &str, pat: &str) -> (r: bool)
    ensures
        r == contains_text(s@, pat@),
{
    let n = s.unicode_len();
    let m = pat.unicode_len();
    if m > n {
        return false;
    }
    let mut i: usize = 0;
    while i <= n - m
        invariant
            n == s@.len(),
            m == pat@.len(),
            m <= n,
            i <= n - m + 1,
            forall|k: int| 0 <= k < i ==> !occurs_at(s@, pat@, k),
        decreases n - i,
    {
        let mut j: usize = 0;
        while j < m && s.get_char(i + j) == pat.get_char(j)
            invariant
                j <= m,
                i + m <= n,
                n == s@.len(),
                m == pat@.len(),
                forall|k: int| 0 <= k < j ==> s@[i + k] == pat@[k],
            decreases m - j,
        {
            j = j + 1;
        }
        if j == m {
            assert(s@.subrange(i as int, i + m) =~= pat@);
            assert(occurs_at(s@, pat@, i as int));
            return true;
        }
        assert(s@.subrange(i as int, i + m)[j as int] != pat@[j as int]);
        i = i + 1;
    }
    assert forall|k: int| !occurs_at(s@, pat@, k) by {
        if 0 <= k && k + m <= n {
            assert(k < i);
        }
    }
    false
}

/// The end of `s` once trailing `%` signs are removed.
fn strip_percent_end(s: &str) -> (r: usize)
    ensures
        r <= s@.len(),
        strip_percent(s@) == s@.subrange(0, r as int),
{
    let mut j = s.unicode_len();
    assert(s@.subrange(0, j as int) =~= s@);
    while j > 0 && s.get_char(j - 1) == '%'
        invariant
            j <= s@.len(),
            strip_percent(s@) == strip_percent(s@.subrange(0, j as int)),
        decreases j,
    {
        assert(s@.subrange(0, j as int).drop_last() =~= s@.subrange(0, j - 1));
        j = j - 1;
    }
    j
}

/// Reads the percentage of an engine diagnostic line, as [`engine_progress_of`] states.
pub fn parse_engine_progress(line: &str) -> (r: Option<u64>)
    ensures
        r == fit_u64(engine_progress_of(line@)),
{
    proof {
        reveal_strlit("progress");
    }
    if !find_text(line, "progress") {
        return None;
    }
    let n = line.unicode_len();
    let e1 = find_char(line, '=', 0);
    if e1 >= n {
        return None;
    }
    let e2 = find_char(line, '=', e1 + 1);
    let field = trim_text(line.substring_char(e1 + 1, e2));
    let f = field.as_str();
    let end = strip_percent_end(f);
    let d = scan_digits(f, 0);
    proof {
        lemma_digit_run_bounds(f@, 0);
    }
    if end == 0 || d < end {
        proof {
            if d < end {
                assert(f@.subrange(0, end as int)[d as int] == f@[d as int]);
            }
        }
        return None;
    }
    proof {
        assert(all_digits(f@.subrange(0, end as int))) by {
            assert forall|k: int| 0 <= k < end implies crate::text::is_digit(#[trigger] f@.subrange(0, end as int)[k]) by {
                assert(f@.subrange(0, end as int)[k] == f@.subrange(0, d as int)[k]);
            }
        }
    }
    digits_to_u64(f, 0, end)
}

/// The output time in a transcoder progress line `out_time_ms=<microseconds>`;
/// a negative time counts as 0.
pub open spec fn out_time_of(s: Seq<char>) -> Option<nat> {
    let p = "out_time_ms="@;
    let rest = s.subrange(p.len() as int, s.len() as int);
    if s.len() >= p.len() && s.subrange(0, p.len() as int) == p {
        if rest.len() > 0 && all_digits(rest) {
            Some(digits_value(rest))
        } else if rest.len() > 1 && rest[0] == '-' && all_digits(rest.drop_first()) {
            Some(0)
        } else {
            None
        }
    } else {
        None
    }
}

/// Reads a transcoder progress line, as [`out_time_of`] states.
pub fn parse_out_time(line: &str) -> (r: Option<u64>)
    ensures
        r == fit_u64(out_time_of(line@)),
{
    let ghost p = "out_time_ms="@;
    proof {
        reveal_strlit("out_time_ms=");
    }
    let n = line.unicode_len();
    let plen: usize = 12;
    if n < plen {
        return None;
    }
    let head = line.substring_char(0, plen);
    let mut k: usize = 0;
    let pat = "out_time_ms=";
    while k < plen
        invariant
            k <= plen,
            plen == 12,
            n == line@.len(),
            n >= 12,
            head@ == line@.subrange(0, 12),
            pat@ == p,
            p == "out_time_ms="@,
            p.len() == 12,
            forall|j: int| 0 <= j < k ==> head@[j] == p[j],
        decreases plen - k,
    {
        if head.get_char(k) != pat.get_char(k) {
            assert(head@[k as int] != p[k as int]);
            assert(line@.subrange(0, 12) != p);
            assert(out_time_of(line@) is None);
            return None;
        }
        k = k + 1;
    }
    assert(line@.subrange(0, 12) =~= p);
    let rest = line.substring_char(plen, n);
    let rn = rest.unicode_len();
    let d = scan_digits(rest, 0);
    proof {
        lemma_digit_run_bounds(rest@, 0);
        assert(rest@.subrange(0, rn as int) =~= rest@);
    }
    if rn > 0 && d == rn {
        return digits_to_u64(rest, 0, rn);
    }
    if rn > 1 && rest.get_char(0) == '-' {
        let d2 = scan_digits(rest, 1);
        proof {
            lemma_digit_run_bounds(rest@, 1);
            assert(rest@.drop_first() =~= rest@.subrange(1, rn as int));
            if d2 < rn {
                assert(rest@.drop_first()[d2 - 1] == rest@[d2 as int]);
            }
            if d < rn {
                assert(!crate::text::is_digit(rest@[d as int]));
            }
        }
        if d2 == rn {
            return Some(0);
        }
        return None;
    }
    proof {
        if d < rn {
            assert(!crate::text::is_digit(rest@[d as int]));
        }
    }
    None
}

} // verus!
