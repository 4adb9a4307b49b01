//! The transcription engine: the checks before it is run, the command it is
//! run with, what its exit means, and how it is installed.
use vstd::prelude::*;
use vstd::string::*;
use crate::error::AppError;
use crate::json::is_json_document;
use crate::locator::{exe_name, executable_name, Platform};
use crate::models::{model_file_name, DownloadService};
use crate::paths::{app_subdirectory, path_joined, path_with_ext, under_app_dir, with_json_extension};
use crate::progress::{contains_text, find_text};
use crate::text::{ends_with_text, opt_text, texts};
use crate::json::json_of;
use crate::transcript::{parse_engine_output, transcript_of, TranscriptionResult};

verus! {

/// The transcription engine and the model store it reads models from.
#[derive(Debug, Clone)]
pub struct WhisperService {
    /// The located engine binary, if any.
    pub whisper_cpp_path: Option<String>,
    pub download_service: DownloadService,
}

/// One run of the engine: the program, its arguments, and the file it
/// writes its result to.
#[derive(Debug, Clone)]
pub struct EngineRun {
    pub program: String,
    pub args: Vec<String>,
    pub output_path: String,
}

/// The processor architecture the engine archive is built for.
#[derive(Debug, Clone, Copy, PartialEq, Eq, Structural)]
pub enum Arch {
    X86_64,
    X86,
    Other,
}

/// The text without one trailing `.json`.
pub open spec fn without_json(p: Seq<char>) -> Seq<char> {
    if p.len() >= 5 && p.subrange(p.len() - 5, p.len() as int) == ".json"@ {
        p.subrange(0, p.len() - 5)
    } else {
        p
    }
}

/// The engine's arguments: model, input audio, JSON output under `base`,
/// progress printing, and the language hint when one is given.
pub open spec fn engine_args_of(
    model: Seq<char>,
    audio: Seq<char>,
    base: Seq<char>,
    language: Option<Seq<char>>,
) -> Seq<Seq<char>> {
    seq!["-m"@, model, "-f"@, audio, "-oj"@, "-of"@, base, "-pp"@] + match language {
        Some(l) => seq!["-l"@, l],
        None => Seq::<Seq<char>>::empty(),
    }
}

/// Where the engine archive for the platform is published, and the binary's
/// name inside it; `None` where no archive is published.
pub open spec fn engine_archive_of(p: Platform, a: Arch) -> Option<(Seq<char>, Seq<char>)> {
    if p == Platform::Windows && a == Arch::X86_64 {
        Some(
            (
                "https://github.com/ggml-org/whisper.cpp/releases/download/v1.8.2/whisper-bin-x64.zip"@,
                "whisper-cli.exe"@,
            ),
        )
    } else if p == Platform::Windows && a == Arch::X86 {
        Some(
            (
                "https://github.com/ggml-org/whisper.cpp/releases/download/v1.8.2/whisper-bin-Win32.zip"@,
                "whisper-cli.exe"@,
            ),
        )
    } else {
        None
    }
}

/// Install progress while the archive downloads: 5 plus the downloaded share
/// of 70, at most 75; 75 when the total is 0.
pub open spec fn install_download_percent_of(downloaded: nat, total: nat) -> nat {
    if total == 0 {
        75
    } else if downloaded >= total {
        75
    } else {
        5 + downloaded * 70 / total
    }
}

/// An archive entry is the engine binary: its name ends with the binary's
/// name, or it is a file whose name mentions `whisper-cli`.
pub open spec fn is_engine_entry_of(name: Seq<char>, binary: Seq<char>) -> bool {
    (binary.len() <= name.len() && name.subrange(name.len() - binary.len(), name.len() as int)
        == binary) || (contains_text(name, "whisper-cli"@) && !(name.len() > 0 && name.last()
        == '/'))
}

/// The steps of an engine installation, each reported with a percentage and
/// a message; the archive download reports in between with
/// [`WhisperService::install_download_percent`].
#[derive(Debug, Clone, Copy, PartialEq, Eq, Structural)]
pub enum InstallStep {
    Preparing,
    Downloading,
    Extracting,
    CleaningUp,
    Done,
}

pub open spec fn install_step_percent(s: InstallStep) -> u64 {
    match s {
        InstallStep::Preparing => 0,
        InstallStep::Downloading => 5,
        InstallStep::Extracting => 75,
        InstallStep::CleaningUp => 95,
        InstallStep::Done => 100,
    }
}

impl InstallStep {
    /// The percentage reported when the step begins.
    pub fn percent(&self) -> (r: u64)
        ensures
            r == install_step_percent(*self),
    {
        match self {
            InstallStep::Preparing => 0,
            InstallStep::Downloading => 5,
            InstallStep::Extracting => 75,
            InstallStep::CleaningUp => 95,
            InstallStep::Done => 100,
        }
    }

    /// The message reported with the step.
    pub fn message(&self) -> (r: &'static str)
        ensures
            r@.len() > 0,
    {
        proof {
            reveal_strlit("Preparing download...");
            reveal_strlit("Downloading whisper.cpp...");
            reveal_strlit("Extracting whisper.cpp...");
            reveal_strlit("Cleaning up...");
            reveal_strlit("Installation complete!");
        }
        match self {
            InstallStep::Preparing => "Preparing download...",
            InstallStep::Downloading => "Downloading whisper.cpp...",
            InstallStep::Extracting => "Extracting whisper.cpp...",
            InstallStep::CleaningUp => "Cleaning up...",
            InstallStep::Done => "Installation complete!",
        }
    }
}

impl WhisperService {
    /// The engine at `whisper_cpp_path`, with the store of the application's
    /// models directory.
    pub fn new(whisper_cpp_path: Option<String>) -> (r: Result<WhisperService, AppError>)
        ensures
            r matches Ok(w) ==> opt_text(w.whisper_cpp_path) == opt_text(whisper_cpp_path)
                && under_app_dir(w.download_service.models_dir@, "models"@),
            r matches Err(e) ==> e is InvalidPath,
    {
        match DownloadService::new() {
            Ok(d) => Ok(WhisperService { whisper_cpp_path, download_service: d }),
            Err(e) => Err(e),
        }
    }

    /// Whether an engine binary was located.
    pub fn is_available(&self) -> (r: bool)
        ensures
            r == self.whisper_cpp_path is Some,
    {
        self.whisper_cpp_path.is_some()
    }

    /// Checks the preconditions of a transcription and forms the engine run.
    /// Without a located engine it fails with `EngineNotFound`; with the model
    /// not `installed`, with `ModelNotFound(model_id)`. Nothing is spawned here.
    pub fn prepare_transcription(
        &self,
        audio_path: &str,
        model_id: &str,
        language: &Option<String>,
        installed: bool,
    ) -> (r: Result<EngineRun, AppError>)
        ensures
            self.whisper_cpp_path is None ==> (r matches Err(e) && e is EngineNotFound),
            self.whisper_cpp_path is Some && !installed ==> (r matches Err(e) && e is ModelNotFound
                && e->ModelNotFound_0@ == model_id@),
            self.whisper_cpp_path is Some && installed ==> (r matches Ok(run) && {
                let out = path_with_ext(audio_path@, "json"@);
                let model = path_joined(
                    self.download_service.models_dir@,
                    model_file_name(model_id@),
                );
                &&& Some(run.program@) == opt_text(self.whisper_cpp_path)
                &&& run.output_path@ == out
                &&& texts(run.args@) == engine_args_of(
                    model,
                    audio_path@,
                    without_json(out),
                    opt_text(*language),
                )
            }),
    {
        let program = match &self.whisper_cpp_path {
            Some(p) => p.clone(),
            None => {
                return Err(AppError::EngineNotFound);
            },
        };
        if !installed {
            return Err(AppError::ModelNotFound(String::from_str(model_id)));
        }
        let model_path = self.download_service.get_model_path(model_id);
        let output_path = with_json_extension(audio_path);
        proof {
            reveal_strlit(".json");
        }
        let n = output_path.unicode_len();
        let base = if n >= 5 && ends_with_text(output_path.as_str(), ".json") {
            output_path.as_str().substring_char(0, n - 5).to_owned()
        } else {
            output_path.clone()
        };
        let mut args: Vec<String> = Vec::new();
        args.push(String::from_str("-m"));
        args.push(model_path);
        args.push(String::from_str("-f"));
        args.push(String::from_str(audio_path));
        args.push(String::from_str("-oj"));
        args.push(String::from_str("-of"));
        args.push(base);
        args.push(String::from_str("-pp"));
        match language {
            Some(l) => {
                args.push(String::from_str("-l"));
                args.push(l.clone());
            },
            None => {},
        }
        let ghost want = engine_args_of(
            path_joined(self.download_service.models_dir@, model_file_name(model_id@)),
            audio_path@,
            without_json(output_path@),
            opt_text(*language),
        );
        assert(texts(args@) =~= want);
        Ok(EngineRun { program, args, output_path })
    }

    /// The end of an engine run. A failed exit, a result file that cannot be
    /// read, and one that is not a JSON document are `Whisper` errors;
    /// otherwise the result is what the result file gives.
    pub fn finish_transcription(exit_ok: bool, output: Result<String, AppError>) -> (r: Result<
        TranscriptionResult,
        AppError,
    >)
        ensures
            r matches Err(e) ==> e is Whisper,
            !exit_ok ==> r is Err,
            exit_ok && output is Err ==> r is Err,
            exit_ok && output is Ok ==> (r is Ok <==> is_json_document(output->Ok_0@)),
            exit_ok && output is Ok ==> (r matches Ok(t) ==> transcript_of(
                json_of(output->Ok_0@),
                t,
            )),
    {
        if !exit_ok {
            return Err(AppError::Whisper(String::from_str("Transcription failed")));
        }
        match output {
            Ok(content) => parse_engine_output(content.as_str()),
            Err(e) => Err(
                AppError::Whisper(
                    crate::error::prefixed("Cannot read transcription output: ", e.message().as_str()),
                ),
            ),
        }
    }

    /// `bin` under the application's data directory, where the engine is installed.
    pub fn get_bin_directory() -> (r: Result<String, AppError>)
        ensures
            r matches Ok(p) ==> under_app_dir(p@, "bin"@),
            r is Err ==> r->Err_0 is InvalidPath,
    {
        app_subdirectory("bin")
    }

    /// The archive URL and the binary's name inside it. Other platforms fail
    /// at once with `UnsupportedPlatform`; macOS is pointed to a package manager.
    pub fn get_whisper_download_url(platform: Platform, arch: Arch) -> (r: Result<
        (String, String),
        AppError,
    >)
        ensures
            match engine_archive_of(platform, arch) {
                Some((u, b)) => r matches Ok((ru, rb)) && ru@ == u && rb@ == b,
                None => r matches Err(e) && e is UnsupportedPlatform,
            },
    {
        if platform == Platform::Windows && arch == Arch::X86_64 {
            Ok(
                (
                    String::from_str(
                        "https://github.com/ggml-org/whisper.cpp/releases/download/v1.8.2/whisper-bin-x64.zip",
                    ),
                    String::from_str("whisper-cli.exe"),
                ),
            )
        } else if platform == Platform::Windows && arch == Arch::X86 {
            Ok(
                (
                    String::from_str(
                        "https://github.com/ggml-org/whisper.cpp/releases/download/v1.8.2/whisper-bin-Win32.zip",
                    ),
                    String::from_str("whisper-cli.exe"),
                ),
            )
        } else if platform == Platform::MacOs {
            Err(
                AppError::UnsupportedPlatform(
                    String::from_str(
                        "macOS requires manual installation. Please install via Homebrew: brew install whisper-cpp",
                    ),
                ),
            )
        } else {
            Err(
                AppError::UnsupportedPlatform(
                    String::from_str("Unsupported platform for whisper.cpp installation"),
                ),
            )
        }
    }

    /// The size the archive download is measured against: the declared
    /// length, else 50 MB.
    pub fn install_total(content_length: Option<u64>) -> (r: u64)
        ensures
            r == match content_length {
                Some(n) => n,
                None => 50_000_000,
            },
    {
        match content_length {
            Some(n) => n,
            None => 50_000_000,
        }
    }

    /// The install percentage while the archive downloads, in [5, 75].
    pub fn install_download_percent(downloaded: u64, total: u64) -> (r: u64)
        ensures
            r == install_download_percent_of(downloaded as nat, total as nat),
            5 <= r <= 75,
    {
        if total == 0 || downloaded >= total {
            return 75;
        }
        assert(downloaded as int * 70 / total as int <= 70) by (nonlinear_arith)
            requires
                downloaded < total,
                total > 0,
        ;
        let p: u128 = downloaded as u128 * 70 / total as u128;
        5 + p as u64
    }

    /// Whether an archive entry is the engine binary.
    pub fn is_engine_entry(name: &str, binary_name: &str) -> (r: bool)
        ensures
            r == is_engine_entry_of(name@, binary_name@),
    {
        proof {
            reveal_strlit("whisper-cli");
        }
        if ends_with_text(name, binary_name) {
            return true;
        }
        let n = name.unicode_len();
        find_text(name, "whisper-cli") && !(n > 0 && name.get_char(n - 1) == '/')
    }

    /// The index of the first archive entry that is the engine binary.
    pub fn select_engine_entry(names: &Vec<String>, binary_name: &str) -> (r: Option<usize>)
        ensures
            match r {
                Some(i) => i < names@.len() && is_engine_entry_of(names@[i as int]@, binary_name@)
                    && forall|j: int| 0 <= j < i ==> !is_engine_entry_of(names@[j]@, binary_name@),
                None => forall|j: int|
                    0 <= j < names@.len() ==> !is_engine_entry_of(names@[j]@, binary_name@),
            },
    {
        let mut i: usize = 0;
        while i < names.len()
            invariant
                i <= names@.len(),
                forall|j: int| 0 <= j < i ==> !is_engine_entry_of(names@[j]@, binary_name@),
            decreases names@.len() - i,
        {
            if Self::is_engine_entry(names[i].as_str(), binary_name) {
                return Some(i);
            }
            i = i + 1;
        }
        None
    }

    /// The name the engine is installed under in the binary directory.
    pub fn installed_binary_name(platform: Platform) -> (r: String)
        ensures
            r@ == exe_name("whisper-cpp"@, platform),
    {
        executable_name("whisper-cpp", platform)
    }
}

} // verus!
