//! The media-processing binary: the arguments it is run with, and what its
//! probe and progress output mean.
use vstd::prelude::*;
use vstd::string::*;
use crate::error::AppError;
use crate::error::prefixed;
use crate::json::{
    array_of, is_json_document, json_of, member_array, member_of, member_str, nested, nested_str,
    parse_json, str_of, JsonValue,
};
use crate::progress::{
    extraction_percent, extraction_percent_of, find_char, index_of, out_time_of, parse_out_time,
};
use crate::text::{
    fit_u64, fixed_point_value, parse_fixed_point, same_text, texts, trim_text, trimmed,
};

verus! {

/// What a probe of a media file reports; the duration in microseconds.
#[derive(Debug, Clone)]
pub struct MediaInfo {
    pub format: String,
    pub duration_us: u64,
    pub has_video: bool,
    pub has_audio: bool,
}

/// Operations around the media-processing binary.
pub struct FFmpegService;

/// The transcode to mono 16 kHz 16-bit PCM that the engine requires, with
/// machine-readable progress on standard output.
pub open spec fn extraction_args_of(input: Seq<char>, output: Seq<char>) -> Seq<Seq<char>> {
    seq![
        "-i"@,
        input,
        "-vn"@,
        "-acodec"@,
        "pcm_s16le"@,
        "-ar"@,
        "16000"@,
        "-ac"@,
        "1"@,
        "-y"@,
        "-progress"@,
        "pipe:1"@,
        output,
    ]
}

/// A metadata-only probe of format and streams, as JSON.
pub open spec fn probe_args_of(path: Seq<char>) -> Seq<Seq<char>> {
    seq!["-v"@, "quiet"@, "-print_format"@, "json"@, "-show_format"@, "-show_streams"@, path]
}

/// A probe that prints the container duration alone.
pub open spec fn duration_args_of(path: Seq<char>) -> Seq<Seq<char>> {
    seq![
        "-v"@,
        "error"@,
        "-show_entries"@,
        "format=duration"@,
        "-of"@,
        "default=noprint_wrappers=1:nokey=1"@,
        path,
    ]
}

fn push_str(v: &mut Vec<String>, s: &str)
    ensures
        texts(final(v)@) == texts(old(v)@).push(s@),
{
    v.push(String::from_str(s));
    assert(texts(final(v)@) =~= texts(old(v)@).push(s@));
}

/// The first line of the version output, without a trailing carriage
/// return; `unknown` when there is no output.
pub open spec fn version_line_of(s: Seq<char>) -> Seq<char> {
    let l = s.subrange(0, index_of(s, '\n', 0));
    if s.len() == 0 {
        "unknown"@
    } else if l.len() > 0 && l.last() == '\r' {
        l.drop_last()
    } else {
        l
    }
}

/// The `codec_type` of a probed stream.
pub open spec fn stream_type(stream: JsonValue) -> Option<Seq<char>> {
    str_of(member_of(stream, "codec_type"@))
}

/// The probe lists a stream of type `t`.
pub open spec fn has_stream_of_type(j: JsonValue, t: Seq<char>) -> bool {
    match array_of(member_of(j, "streams"@)) {
        Some(items) => exists|k: int| 0 <= k < items.len() && #[trigger] stream_type(items[k]) == Some(t),
        None => false,
    }
}

/// `info` is what the probe document `j` reports: `format.format_name` or
/// `unknown`, `format.duration` in microseconds or 0, and the stream types.
pub open spec fn probe_info_is(info: MediaInfo, j: JsonValue) -> bool {
    &&& info.format@ == match str_of(nested(j, "format"@, "format_name"@)) {
        Some(f) => f,
        None => "unknown"@,
    }
    &&& info.duration_us == match str_of(nested(j, "format"@, "duration"@)) {
        Some(d) => match fit_u64(fixed_point_value(d, 6, false)) {
            Some(x) => x,
            None => 0,
        },
        None => 0,
    }
    &&& info.has_video == has_stream_of_type(j, "video"@)
    &&& info.has_audio == has_stream_of_type(j, "audio"@)
}

impl FFmpegService {
    /// The version line of the binary's `-version` output.
    pub fn version_line(stdout: &str) -> (r: String)
        ensures
            r@ == version_line_of(stdout@),
    {
        let n = stdout.unicode_len();
        if n == 0 {
            proof {
                reveal_strlit("unknown");
            }
            return String::from_str("unknown");
        }
        let e = find_char(stdout, '\n', 0);
        if e > 0 && stdout.get_char(e - 1) == '\r' {
            let r = stdout.substring_char(0, e - 1).to_owned();
            assert(r@ =~= stdout@.subrange(0, e as int).drop_last());
            r
        } else {
            stdout.substring_char(0, e).to_owned()
        }
    }

    /// Arguments of the transcode from `input` to a WAV file at `output`.
    pub fn extraction_args(input: &str, output: &str) -> (r: Vec<String>)
        ensures
            texts(r@) == extraction_args_of(input@, output@),
    {
        let mut v: Vec<String> = Vec::new();
        push_str(&mut v, "-i");
        push_str(&mut v, input);
        push_str(&mut v, "-vn");
        push_str(&mut v, "-acodec");
        push_str(&mut v, "pcm_s16le");
        push_str(&mut v, "-ar");
        push_str(&mut v, "16000");
        push_str(&mut v, "-ac");
        push_str(&mut v, "1");
        push_str(&mut v, "-y");
        push_str(&mut v, "-progress");
        push_str(&mut v, "pipe:1");
        push_str(&mut v, output);
        assert(texts(v@) =~= extraction_args_of(input@, output@));
        v
    }

    /// Arguments of the format-and-streams probe of `path`.
    pub fn probe_args(path: &str) -> (r: Vec<String>)
        ensures
            texts(r@) == probe_args_of(path@),
    {
        let mut v: Vec<String> = Vec::new();
        push_str(&mut v, "-v");
        push_str(&mut v, "quiet");
        push_str(&mut v, "-print_format");
        push_str(&mut v, "json");
        push_str(&mut v, "-show_format");
        push_str(&mut v, "-show_streams");
        push_str(&mut v, path);
        assert(texts(v@) =~= probe_args_of(path@));
        v
    }

    /// Arguments of the duration probe of `path`.
    pub fn duration_args(path: &str) -> (r: Vec<String>)
        ensures
            texts(r@) == duration_args_of(path@),
    {
        let mut v: Vec<String> = Vec::new();
        push_str(&mut v, "-v");
        push_str(&mut v, "error");
        push_str(&mut v, "-show_entries");
        push_str(&mut v, "format=duration");
        push_str(&mut v, "-of");
        push_str(&mut v, "default=noprint_wrappers=1:nokey=1");
        push_str(&mut v, path);
        assert(texts(v@) =~= duration_args_of(path@));
        v
    }

    /// The duration printed by the duration probe, in microseconds.
    pub fn parse_duration(stdout: &str) -> (r: Result<u64, AppError>)
        ensures
            match fit_u64(fixed_point_value(trimmed(stdout@), 6, false)) {
                Some(d) => r == Ok::<u64, AppError>(d),
                None => r matches Err(e) && e is FFmpeg,
            },
    {
        let t = trim_text(stdout);
        match parse_fixed_point(t.as_str(), 6, false) {
            Some(d) => Ok(d),
            None => Err(AppError::FFmpeg(String::from_str("Failed to parse duration"))),
        }
    }

    /// The extraction percentage for one line of the transcoder's progress
    /// output; `None` for a line that reports no output time.
    pub fn progress_for_line(line: &str, duration_us: u64) -> (r: Option<u64>)
        ensures
            match fit_u64(out_time_of(line@)) {
                Some(t) => r == Some(
                    extraction_percent_of(t as nat, duration_us as nat) as u64,
                ),
                None => r is None,
            },
            r matches Some(p) ==> p <= 100,
    {
        match parse_out_time(line) {
            Some(t) => Some(extraction_percent(t, duration_us)),
            None => None,
        }
    }

    /// The end of a transcode: success gives the output path, a failed exit
    /// is an error.
    pub fn extraction_finished(success: bool, output_path: &str) -> (r: Result<String, AppError>)
        ensures
            success ==> (r matches Ok(p) && p@ == output_path@),
            !success ==> (r matches Err(e) && e is FFmpeg),
    {
        if success {
            Ok(String::from_str(output_path))
        } else {
            Err(AppError::FFmpeg(String::from_str("Audio extraction failed")))
        }
    }

    /// Reads the probe's JSON: `format.format_name` (else `unknown`),
    /// `format.duration` (else 0), and whether a stream of type video or
    /// audio is listed.
    pub fn media_info_from_json(v: &JsonValue) -> (r: MediaInfo)
        ensures
            probe_info_is(r, *v),
    {
        let format = match nested_str(v, "format", "format_name") {
            Some(f) => f,
            None => String::from_str("unknown"),
        };
        let duration_us = match nested_str(v, "format", "duration") {
            Some(d) => match parse_fixed_point(d.as_str(), 6, false) {
                Some(x) => x,
                None => 0,
            },
            None => 0,
        };
        let mut has_video = false;
        let mut has_audio = false;
        match member_array(v, "streams") {
            Some(streams) => {
                let mut i: usize = 0;
                while i < streams.len()
                    invariant
                        i <= streams@.len(),
                        has_video == exists|k: int|
                            0 <= k < i && #[trigger] stream_type(streams@[k]) == Some("video"@),
                        has_audio == exists|k: int|
                            0 <= k < i && #[trigger] stream_type(streams@[k]) == Some("audio"@),
                    decreases streams@.len() - i,
                {
                    let ghost st = stream_type(streams@[i as int]);
                    let kind = member_str(&streams[i], "codec_type");
                    let (is_video, is_audio) = match &kind {
                        Some(k) => (same_text(k.as_str(), "video"), same_text(k.as_str(), "audio")),
                        None => (false, false),
                    };
                    assert(is_video == (st == Some("video"@)));
                    assert(is_audio == (st == Some("audio"@)));
                    proof {
                        if is_video {
                            assert(stream_type(streams@[i as int]) == Some("video"@));
                        } else {
                            assert forall|k: int|
                                0 <= k < i + 1 && #[trigger] stream_type(streams@[k]) == Some(
                                    "video"@,
                                ) implies 0 <= k < i by {}
                        }
                        if is_audio {
                            assert(stream_type(streams@[i as int]) == Some("audio"@));
                        } else {
                            assert forall|k: int|
                                0 <= k < i + 1 && #[trigger] stream_type(streams@[k]) == Some(
                                    "audio"@,
                                ) implies 0 <= k < i by {}
                        }
                    }
                    if is_video {
                        has_video = true;
                    }
                    if is_audio {
                        has_audio = true;
                    }
                    i = i + 1;
                }
            },
            None => {},
        }
        let r = MediaInfo { format, duration_us, has_video, has_audio };
        proof {
            reveal_strlit("unknown");
        }
        r
    }

    /// Parses the probe's standard output. Output that is not a JSON document
    /// is a media-processing failure.
    pub fn parse_media_info(stdout: &str) -> (r: Result<MediaInfo, AppError>)
        ensures
            r is Ok <==> is_json_document(stdout@),
            r matches Ok(i) ==> probe_info_is(i, json_of(stdout@)),
            r matches Err(e) ==> e is FFmpeg,
    {
        match parse_json(stdout) {
            Ok(v) => Ok(Self::media_info_from_json(&v)),
            Err(e) => Err(AppError::FFmpeg(prefixed("Unparsable probe output: ", e.to_string().as_str()))),
        }
    }

    /// The content check before any processing: a file without an audio
    /// stream is rejected.
    pub fn require_audio(info: &MediaInfo) -> (r: Result<(), AppError>)
        ensures
            info.has_audio <==> r is Ok,
            r matches Err(e) ==> e is NoAudioStream,
    {
        if info.has_audio {
            Ok(())
        } else {
            Err(AppError::NoAudioStream)
        }
    }
}

} // verus!
