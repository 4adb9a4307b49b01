//! The orchestrator of a "transcribe media file" run, as a state machine: the
//! caller performs each action it returns (spawning, reporting, cleanup) and
//! hands back what happened as the next event.
use vstd::prelude::*;
use vstd::string::*;
use crate::error::AppError;
use crate::json::{is_json_document, json_of};
use crate::media::{FFmpegService, MediaInfo};
use crate::progress::{
    lemma_extraction_band, lemma_transcription_band, overall_percent, overall_progress,
    PipelineStage,
};
use crate::transcript::{
    lemma_duration_is_last_end, transcript_of, TranscriptionResult,
};
use crate::whisper::WhisperService;

verus! {

/// Relies on uuid::Uuid::new_v4 and its `Display`: a random UUID written as
/// 36 characters, lower-case hex digits and hyphens.
#[verifier::external_body]
fn random_uuid_text() -> (r: String)
    ensures
        r@.len() == 36,
        forall|i: int|
            0 <= i < 36 ==> ('0' <= #[trigger] r@[i] <= '9') || ('a' <= r@[i] <= 'f') || r@[i]
                == '-',
{
    uuid::Uuid::new_v4().to_string()
}

/// Where a run stands.
#[derive(Debug, Clone, Copy, PartialEq, Eq, Structural)]
pub enum RunState {
    /// Waiting for the probe of the input.
    Probing,
    /// The audio is being extracted to the temporary waveform.
    Extracting,
    /// The engine is running on the waveform.
    Transcribing,
    /// The run returned a result.
    Done,
    /// The run returned an error.
    Failed,
}

/// What happened outside since the last step.
#[derive(Debug)]
pub enum PipelineEvent {
    /// The probe of the input succeeded.
    Probed(MediaInfo),
    /// The probe of the input failed.
    ProbeFailed(AppError),
    /// The extraction's own percentage.
    ExtractionProgress(u64),
    /// The extraction ended, successfully or not.
    ExtractionEnded(Result<(), AppError>),
    /// The engine's own percentage.
    TranscriptionProgress(u64),
    /// The engine could not be started.
    TranscriptionFailed(AppError),
    /// The engine exited: whether its exit status was success, and the text
    /// of its result file or the error reading it.
    EngineExited(bool, Result<String, AppError>),
}

/// What the caller is to do next, in order.
#[derive(Debug)]
pub enum PipelineAction {
    /// Report overall progress of a stage.
    Report(PipelineStage, u64),
    /// Create the temporary directory and extract the audio to a file of
    /// this name inside it.
    StartExtraction(String),
    /// Run the engine on the extracted waveform.
    StartTranscription,
    /// Delete the temporary waveform (best effort).
    CleanUp,
    /// The run failed with this error.
    Fail(AppError),
    /// The run succeeded with this result.
    Finish(TranscriptionResult),
}

/// A transcription run.
#[derive(Debug)]
pub struct TranscriptionPipeline {
    pub state: RunState,
}

/// The name of a temporary waveform: a UUID in lower-case hex and hyphens,
/// then `.wav`.
pub open spec fn is_wav_name(s: Seq<char>) -> bool {
    s.len() == 40 && s.subrange(36, 40) == ".wav"@ && forall|i: int|
        0 <= i < 36 ==> ('0' <= #[trigger] s[i] <= '9') || ('a' <= s[i] <= 'f') || s[i] == '-'
}

/// Progress reports stay in their stage's band.
pub open spec fn in_band(stage: PipelineStage, v: u64) -> bool {
    match stage {
        PipelineStage::Extracting => v <= 30,
        PipelineStage::Transcribing => 30 <= v <= 100,
        PipelineStage::Complete => v == 100,
    }
}

/// An engine run that exited fails with a `Whisper` error exactly when its
/// exit failed, its result file could not be read, or that file is not JSON.
pub open spec fn failure_of_exit(ok: bool, out: Result<String, AppError>, a: PipelineAction) -> bool {
    &&& a matches PipelineAction::Fail(AppError::Whisper(_))
    &&& !(ok && (out matches Ok(c) && is_json_document(c@)))
}

/// The transition of one step: the state after it and the actions it returns.
pub open spec fn step_spec(
    s: RunState,
    ev: PipelineEvent,
    next: RunState,
    acts: Seq<PipelineAction>,
) -> bool {
    match (s, ev) {
        (RunState::Probing, PipelineEvent::Probed(info)) => if info.has_audio {
            &&& next == RunState::Extracting
            &&& acts.len() == 2
            &&& acts[0] == PipelineAction::Report(PipelineStage::Extracting, 0)
            &&& acts[1] matches PipelineAction::StartExtraction(name) && is_wav_name(name@)
        } else {
            next == RunState::Failed && acts == seq![PipelineAction::Fail(AppError::NoAudioStream)]
        },
        (RunState::Probing, PipelineEvent::ProbeFailed(e)) => next == RunState::Failed && acts
            == seq![PipelineAction::Fail(e)],
        (RunState::Extracting, PipelineEvent::ExtractionProgress(p)) => next == RunState::Extracting
            && acts == seq![
            PipelineAction::Report(
                PipelineStage::Extracting,
                overall_percent(PipelineStage::Extracting, p as int) as u64,
            ),
        ],
        (RunState::Extracting, PipelineEvent::ExtractionEnded(Ok(_))) => next
            == RunState::Transcribing && acts == seq![
            PipelineAction::Report(PipelineStage::Extracting, 30),
            PipelineAction::Report(PipelineStage::Transcribing, 30),
            PipelineAction::StartTranscription,
        ],
        (RunState::Extracting, PipelineEvent::ExtractionEnded(Err(e))) => next == RunState::Failed
            && acts == seq![PipelineAction::CleanUp, PipelineAction::Fail(e)],
        (RunState::Transcribing, PipelineEvent::TranscriptionProgress(p)) => next
            == RunState::Transcribing && acts == seq![
            PipelineAction::Report(
                PipelineStage::Transcribing,
                overall_percent(PipelineStage::Transcribing, p as int) as u64,
            ),
        ],
        (RunState::Transcribing, PipelineEvent::TranscriptionFailed(e)) => next == RunState::Failed
            && acts == seq![PipelineAction::CleanUp, PipelineAction::Fail(e)],
        (RunState::Transcribing, PipelineEvent::EngineExited(ok, out)) => {
            ||| {
                &&& ok
                &&& out matches Ok(c) && is_json_document(c@)
                &&& next == RunState::Done
                &&& acts.len() == 3
                &&& acts[0] == PipelineAction::CleanUp
                &&& acts[1] == PipelineAction::Report(PipelineStage::Complete, 100)
                &&& acts[2] matches PipelineAction::Finish(t) && transcript_of(json_of(out->Ok_0@), t)
            }
            ||| {
                &&& next == RunState::Failed
                &&& acts.len() == 2
                &&& acts[0] == PipelineAction::CleanUp
                &&& acts[1] is Fail
                &&& failure_of_exit(ok, out, acts[1])
            }
        },
        _ => next == s && acts.len() == 0,
    }
}

fn one(a: PipelineAction) -> (r: Vec<PipelineAction>)
    ensures
        r@ == seq![a],
{
    let mut v: Vec<PipelineAction> = Vec::new();
    v.push(a);
    assert(v@ =~= seq![a]);
    v
}

fn two(a: PipelineAction, b: PipelineAction) -> (r: Vec<PipelineAction>)
    ensures
        r@ == seq![a, b],
{
    let mut v: Vec<PipelineAction> = Vec::new();
    v.push(a);
    v.push(b);
    assert(v@ =~= seq![a, b]);
    v
}

fn three(a: PipelineAction, b: PipelineAction, c: PipelineAction) -> (r: Vec<PipelineAction>)
    ensures
        r@ == seq![a, b, c],
{
    let mut v: Vec<PipelineAction> = Vec::new();
    v.push(a);
    v.push(b);
    v.push(c);
    assert(v@ =~= seq![a, b, c]);
    v
}

impl TranscriptionPipeline {
    /// A run that waits for the probe of its input.
    pub fn new() -> (r: TranscriptionPipeline)
        ensures
            r.state == RunState::Probing,
    {
        TranscriptionPipeline { state: RunState::Probing }
    }

    /// A fresh name for the temporary waveform.
    pub fn temp_audio_name() -> (r: String)
        ensures
            is_wav_name(r@),
    {
        let mut r = random_uuid_text();
        let ghost old_r = r@;
        r.append(".wav");
        proof {
            reveal_strlit(".wav");
            assert(r@.subrange(36, 40) =~= ".wav"@);
            assert forall|i: int| 0 <= i < 36 implies ('0' <= #[trigger] r@[i] <= '9') || ('a' <= r@[i]
                <= 'f') || r@[i] == '-' by {
                assert(r@[i] == old_r[i]);
            }
        }
        r
    }

    /// Advances the run by one event.
    pub fn step(&mut self, ev: PipelineEvent) -> (r: Vec<PipelineAction>)
        ensures
            step_spec(old(self).state, ev, final(self).state, r@),
    {
        match (self.state, ev) {
            (RunState::Probing, PipelineEvent::Probed(info)) => {
                match FFmpegService::require_audio(&info) {
                    Ok(()) => {
                        self.state = RunState::Extracting;
                        two(
                            PipelineAction::Report(PipelineStage::Extracting, 0),
                            PipelineAction::StartExtraction(Self::temp_audio_name()),
                        )
                    },
                    Err(e) => {
                        self.state = RunState::Failed;
                        one(PipelineAction::Fail(e))
                    },
                }
            },
            (RunState::Probing, PipelineEvent::ProbeFailed(e)) => {
                self.state = RunState::Failed;
                one(PipelineAction::Fail(e))
            },
            (RunState::Extracting, PipelineEvent::ExtractionProgress(p)) => {
                one(
                    PipelineAction::Report(
                        PipelineStage::Extracting,
                        overall_progress(PipelineStage::Extracting, p),
                    ),
                )
            },
            (RunState::Extracting, PipelineEvent::ExtractionEnded(Ok(()))) => {
                self.state = RunState::Transcribing;
                three(
                    PipelineAction::Report(PipelineStage::Extracting, 30),
                    PipelineAction::Report(PipelineStage::Transcribing, 30),
                    PipelineAction::StartTranscription,
                )
            },
            (RunState::Extracting, PipelineEvent::ExtractionEnded(Err(e))) => {
                self.state = RunState::Failed;
                two(PipelineAction::CleanUp, PipelineAction::Fail(e))
            },
            (RunState::Transcribing, PipelineEvent::TranscriptionProgress(p)) => {
                one(
                    PipelineAction::Report(
                        PipelineStage::Transcribing,
                        overall_progress(PipelineStage::Transcribing, p),
                    ),
                )
            },
            (RunState::Transcribing, PipelineEvent::TranscriptionFailed(e)) => {
                self.state = RunState::Failed;
                two(PipelineAction::CleanUp, PipelineAction::Fail(e))
            },
            (RunState::Transcribing, PipelineEvent::EngineExited(ok, output)) => {
                match WhisperService::finish_transcription(ok, output) {
                    Ok(t) => {
                        self.state = RunState::Done;
                        three(
                            PipelineAction::CleanUp,
                            PipelineAction::Report(PipelineStage::Complete, 100),
                            PipelineAction::Finish(t),
                        )
                    },
                    Err(e) => {
                        self.state = RunState::Failed;
                        two(PipelineAction::CleanUp, PipelineAction::Fail(e))
                    },
                }
            },
            (_, _) => Vec::new(),
        }
    }
}

/// Every progress report of a step lies in its stage's band: extraction in
/// [0, 30], transcription in [30, 100], completion at 100.
pub proof fn lemma_step_reports_in_band(
    s: RunState,
    ev: PipelineEvent,
    next: RunState,
    acts: Seq<PipelineAction>,
)
    requires
        step_spec(s, ev, next, acts),
    ensures
        forall|i: int|
            0 <= i < acts.len() ==> (#[trigger] acts[i] matches PipelineAction::Report(stage, v)
                ==> in_band(stage, v)),
{
    match (s, ev) {
        (RunState::Extracting, PipelineEvent::ExtractionProgress(p)) => {
            lemma_extraction_band(p as nat, p as nat);
        },
        (RunState::Transcribing, PipelineEvent::TranscriptionProgress(p)) => {
            lemma_transcription_band(p as nat, p as nat, 0);
        },
        _ => {},
    }
}

/// A run that has returned, with a result or an error, does nothing more:
/// no process is spawned and no result or error follows.
pub proof fn lemma_finished_run_is_inert(
    s: RunState,
    ev: PipelineEvent,
    next: RunState,
    acts: Seq<PipelineAction>,
)
    requires
        s == RunState::Done || s == RunState::Failed,
        step_spec(s, ev, next, acts),
    ensures
        next == s,
        acts.len() == 0,
{
}

/// A run whose input has no audio stream fails with `NoAudioStream` at its
/// first step, before anything is spawned, and stays failed.
pub proof fn lemma_no_audio_fails_first(
    info: MediaInfo,
    next: RunState,
    acts: Seq<PipelineAction>,
)
    requires
        !info.has_audio,
        step_spec(RunState::Probing, PipelineEvent::Probed(info), next, acts),
    ensures
        next == RunState::Failed,
        acts == seq![PipelineAction::Fail(AppError::NoAudioStream)],
{
}

/// A step either finishes the run with a result whose duration is the end of
/// its last segment (0 without segments), or fails it with an error; it never
/// does both.
pub proof fn lemma_run_returns_result_or_error(
    s: RunState,
    ev: PipelineEvent,
    next: RunState,
    acts: Seq<PipelineAction>,
)
    requires
        step_spec(s, ev, next, acts),
    ensures
        forall|i: int|
            0 <= i < acts.len() ==> (#[trigger] acts[i] matches PipelineAction::Finish(t) ==> {
                &&& next == RunState::Done
                &&& t.duration_ms == if t.segments@.len() == 0 {
                    0
                } else {
                    t.segments@.last().end_ms
                }
            }),
        forall|i: int|
            0 <= i < acts.len() ==> (#[trigger] acts[i] matches PipelineAction::Fail(_) ==> next
                == RunState::Failed),
{
    assert forall|i: int| 0 <= i < acts.len() implies (#[trigger] acts[i] matches PipelineAction::Finish(
        t,
    ) ==> {
        &&& next == RunState::Done
        &&& t.duration_ms == if t.segments@.len() == 0 {
            0
        } else {
            t.segments@.last().end_ms
        }
    }) by {
        if let PipelineAction::Finish(t) = acts[i] {
            lemma_duration_is_last_end(t);
        }
    }
}

} // verus!
