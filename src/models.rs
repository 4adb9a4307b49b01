//! The model catalog and the on-disk model store: naming convention,
//! installed models, downloads and deletion.
use vstd::prelude::*;
use vstd::string::*;
use crate::error::{prefixed, AppError};
use crate::paths::{app_subdirectory, join_path, path_joined, under_app_dir};
use crate::text::{ends_with_text, same_text, starts_with_text, texts};

verus! {

/// A catalog entry: a downloadable speech-recognition model.
#[derive(Debug, Clone)]
pub struct WhisperModel {
    pub id: String,
    pub name: String,
    pub description: String,
    pub size_bytes: u64,
    pub size_display: String,
    pub url: String,
    pub sha256: Option<String>,
}

pub open spec fn catalog_ids() -> Seq<Seq<char>> {
    seq![
        "tiny"@,
        "base"@,
        "small"@,
        "medium"@,
        "large-v1"@,
        "large-v2"@,
        "large-v3"@,
        "large-v3-turbo"@,
    ]
}

pub open spec fn catalog_names() -> Seq<Seq<char>> {
    seq![
        "Tiny"@,
        "Base"@,
        "Small"@,
        "Medium"@,
        "Large v1"@,
        "Large v2"@,
        "Large v3"@,
        "Large v3 Turbo"@,
    ]
}

pub open spec fn catalog_descriptions() -> Seq<Seq<char>> {
    seq![
        "tiny"@,
        "base"@,
        "small"@,
        "medium"@,
        "largeV1"@,
        "largeV2"@,
        "largeV3"@,
        "largeV3Turbo"@,
    ]
}

pub open spec fn catalog_sizes() -> Seq<u64> {
    seq![
        77_700_000u64,
        148_000_000u64,
        488_000_000u64,
        1_530_000_000u64,
        3_090_000_000u64,
        3_090_000_000u64,
        3_100_000_000u64,
        1_620_000_000u64,
    ]
}

pub open spec fn catalog_size_displays() -> Seq<Seq<char>> {
    seq!["78 MB"@, "148 MB"@, "488 MB"@, "1.5 GB"@, "3.1 GB"@, "3.1 GB"@, "3.1 GB"@, "1.6 GB"@]
}

/// The file name of a model under the model directory.
pub open spec fn model_file_name(id: Seq<char>) -> Seq<char> {
    "ggml-"@ + id + ".bin"@
}

/// Where a model is downloaded from.
pub open spec fn model_url(id: Seq<char>) -> Seq<char> {
    "https://huggingface.co/ggerganov/whisper.cpp/resolve/main/"@ + model_file_name(id)
}

/// Catalog entry `i` as stated by the catalog tables.
pub open spec fn is_catalog_entry(m: WhisperModel, i: int) -> bool {
    &&& m.id@ == catalog_ids()[i]
    &&& m.name@ == catalog_names()[i]
    &&& m.description@ == catalog_descriptions()[i]
    &&& m.size_bytes == catalog_sizes()[i]
    &&& m.size_display@ == catalog_size_displays()[i]
    &&& m.url@ == model_url(m.id@)
    &&& m.sha256 is None
}

/// The model file name for `id`: `ggml-<id>.bin`.
pub fn model_file_name_of(id: &str) -> (r: String)
    ensures
        r@ == model_file_name(id@),
{
    let mut r = String::from_str("ggml-");
    r.append(id);
    r.append(".bin");
    r
}

fn catalog_entry(id: &str, name: &str, description: &str, size_bytes: u64, size_display: &str) -> (r:
    WhisperModel)
    ensures
        r.id@ == id@,
        r.name@ == name@,
        r.description@ == description@,
        r.size_bytes == size_bytes,
        r.size_display@ == size_display@,
        r.url@ == model_url(id@),
        r.sha256 is None,
{
    let file = model_file_name_of(id);
    let url = prefixed("https://huggingface.co/ggerganov/whisper.cpp/resolve/main/", file.as_str());
    WhisperModel {
        id: String::from_str(id),
        name: String::from_str(name),
        description: String::from_str(description),
        size_bytes,
        size_display: String::from_str(size_display),
        url,
        sha256: None,
    }
}

impl WhisperModel {
    /// The fixed catalog of known models, in display order.
    pub fn available_models() -> (r: Vec<WhisperModel>)
        ensures
            r@.len() == catalog_ids().len(),
            forall|i: int| 0 <= i < r@.len() ==> is_catalog_entry(#[trigger] r@[i], i),
    {
        let mut r: Vec<WhisperModel> = Vec::new();
        r.push(catalog_entry("tiny", "Tiny", "tiny", 77_700_000, "78 MB"));
        r.push(catalog_entry("base", "Base", "base", 148_000_000, "148 MB"));
        r.push(catalog_entry("small", "Small", "small", 488_000_000, "488 MB"));
        r.push(catalog_entry("medium", "Medium", "medium", 1_530_000_000, "1.5 GB"));
        r.push(catalog_entry("large-v1", "Large v1", "largeV1", 3_090_000_000, "3.1 GB"));
        r.push(catalog_entry("large-v2", "Large v2", "largeV2", 3_090_000_000, "3.1 GB"));
        r.push(catalog_entry("large-v3", "Large v3", "largeV3", 3_100_000_000, "3.1 GB"));
        r.push(
            catalog_entry("large-v3-turbo", "Large v3 Turbo", "largeV3Turbo", 1_620_000_000, "1.6 GB"),
        );
        assert(r@.len() == 8);
        r
    }
}

/// The catalog entry with this id, if any.
pub fn find_model(id: &str) -> (r: Option<WhisperModel>)
    ensures
        r is Some <==> catalog_ids().contains(id@),
        r matches Some(m) ==> exists|i: int| 0 <= i < catalog_ids().len() && is_catalog_entry(m, i),
        r matches Some(m) ==> m.id@ == id@,
{
    let mut models = WhisperModel::available_models();
    let n = models.len();
    let mut i: usize = 0;
    while i < n
        invariant
            i <= n,
            n == models@.len(),
            n == catalog_ids().len(),
            forall|k: int| 0 <= k < n ==> is_catalog_entry(#[trigger] models@[k], k),
            forall|k: int| 0 <= k < i ==> catalog_ids()[k] != id@,
        decreases n - i,
    {
        if same_text(models[i].id.as_str(), id) {
            let ghost k = i as int;
            let m = models.remove(i);
            assert(is_catalog_entry(m, k));
            assert(catalog_ids()[k] == id@);
            return Some(m);
        }
        i = i + 1;
    }
    assert forall|k: int| 0 <= k < catalog_ids().len() implies catalog_ids()[k] != id@ by {}
    None
}

/// The model id that a file name of the model directory stands for: the
/// name is `ggml-<id>.bin`.
pub open spec fn model_id_of_file(name: Seq<char>) -> Option<Seq<char>> {
    if name.len() >= 9 && name.subrange(0, 5) == "ggml-"@ && name.subrange(
        name.len() - 4,
        name.len() as int,
    ) == ".bin"@ {
        Some(name.subrange(5, name.len() - 4))
    } else {
        None
    }
}

/// A file name stands for a model id exactly when it is that model's file
/// name; so distinct file names never stand for the same id.
pub proof fn lemma_model_id_of_file_exact(name: Seq<char>, id: Seq<char>)
    ensures
        model_id_of_file(name) == Some(id) <==> name == model_file_name(id),
{
    reveal_strlit("ggml-");
    reveal_strlit(".bin");
    if model_id_of_file(name) == Some(id) {
        assert(name =~= "ggml-"@ + id + ".bin"@);
    }
    if name == model_file_name(id) {
        assert(name.subrange(0, 5) =~= "ggml-"@);
        assert(name.subrange(name.len() - 4, name.len() as int) =~= ".bin"@);
        assert(name.subrange(5, name.len() - 4) =~= id);
    }
}

/// The model id of a file of the model directory, as [`model_id_of_file`] states.
pub fn model_id_from_file_name(name: &str) -> (r: Option<String>)
    ensures
        match r {
            Some(id) => model_id_of_file(name@) == Some(id@),
            None => model_id_of_file(name@) is None,
        },
{
    proof {
        reveal_strlit(".bin");
        reveal_strlit("ggml-");
    }
    let n = name.unicode_len();
    if !(n >= 9 && starts_with_text(name, "ggml-") && ends_with_text(name, ".bin")) {
        return None;
    }
    Some(name.substring_char(5, n - 4).to_owned())
}

/// The installed model ids for the file names found in a model directory, in order.
pub open spec fn installed_ids(names: Seq<Seq<char>>) -> Seq<Seq<char>>
    decreases names.len(),
{
    if names.len() == 0 {
        Seq::empty()
    } else {
        let prev = installed_ids(names.drop_last());
        match model_id_of_file(names.last()) {
            Some(id) => prev.push(id),
            None => prev,
        }
    }
}

/// A catalog model with whether it is installed, and where.
#[derive(Debug, Clone)]
pub struct ModelStatus {
    pub id: String,
    pub name: String,
    pub description: String,
    pub size_display: String,
    pub installed: bool,
    pub path: Option<String>,
}

/// Whether `v` holds an item with the text of `s`.
pub fn holds_text(v: &Vec<String>, s: &str) -> (r: bool)
    ensures
        r == texts(v@).contains(s@),
{
    let mut i: usize = 0;
    while i < v.len()
        invariant
            i <= v@.len(),
            forall|j: int| 0 <= j < i ==> v@[j]@ != s@,
        decreases v@.len() - i,
    {
        if same_text(v[i].as_str(), s) {
            assert(texts(v@)[i as int] == s@);
            return true;
        }
        i = i + 1;
    }
    assert forall|j: int| 0 <= j < texts(v@).len() implies texts(v@)[j] != s@ by {
        assert(texts(v@)[j] == v@[j]@);
    }
    false
}

/// The directory where models are stored, and the naming rules inside it.
#[derive(Debug, Clone)]
pub struct DownloadService {
    pub models_dir: String,
}

/// A change to the file system that the store asks its caller to make.
#[derive(Debug, Clone)]
pub enum FileAction {
    /// Remove the file at this path.
    Remove(String),
    /// Rename the first path to the second in one step.
    Rename(String, String),
    /// Leave the file system as it is.
    Keep,
}

/// A file-system change, as a value of the model.
pub enum FileEffect {
    Remove(Seq<char>),
    Rename(Seq<char>, Seq<char>),
    Keep,
}

impl View for FileAction {
    type V = FileEffect;

    open spec fn view(&self) -> FileEffect {
        match self {
            FileAction::Remove(p) => FileEffect::Remove(p@),
            FileAction::Rename(a, b) => FileEffect::Rename(a@, b@),
            FileAction::Keep => FileEffect::Keep,
        }
    }
}

/// The set of existing paths after an action.
pub open spec fn apply_effect(files: Set<Seq<char>>, e: FileEffect) -> Set<Seq<char>> {
    match e {
        FileEffect::Remove(p) => files.remove(p),
        FileEffect::Rename(a, b) => if files.contains(a) {
            files.remove(a).insert(b)
        } else {
            files
        },
        FileEffect::Keep => files,
    }
}

/// What deleting a model does: remove its file when it is present.
pub open spec fn delete_effect(path: Seq<char>, present: bool) -> FileEffect {
    if present {
        FileEffect::Remove(path)
    } else {
        FileEffect::Keep
    }
}

/// The in-flight name of a download: the final path with `.tmp` appended.
pub open spec fn partial_path(path: Seq<char>) -> Seq<char> {
    path + ".tmp"@
}

/// Progress of one model download. `percent` is downloaded over total, and may
/// pass 100 when the transfer is larger than the declared size.
#[derive(Debug, Clone)]
pub struct DownloadProgress {
    pub downloaded: u64,
    pub total: u64,
    pub percent: u64,
    pub model_id: String,
}

/// Whether a download is still receiving, has been moved into place, or failed.
#[derive(Debug, Clone, Copy, PartialEq, Eq, Structural)]
pub enum DownloadState {
    Receiving,
    Finished,
    Failed,
}

/// A model download under way.
#[derive(Debug, Clone)]
pub struct DownloadSession {
    pub model_id: String,
    /// Where the body is fetched from.
    pub url: String,
    /// Where the body is written while it arrives.
    pub temp_path: String,
    /// The canonical path of the model.
    pub final_path: String,
    /// The size the percentages are taken against.
    pub total: u64,
    pub downloaded: u64,
    pub state: DownloadState,
}

/// Percentage of `total` that `downloaded` makes, not clamped; 100 when `total` is 0.
pub open spec fn download_percent(downloaded: nat, total: nat) -> nat {
    if total == 0 {
        100
    } else {
        downloaded * 100 / total
    }
}

/// The download percentage, saturated at `u64::MAX`.
pub fn download_percent_of(downloaded: u64, total: u64) -> (r: u64)
    ensures
        r == if download_percent(downloaded as nat, total as nat) <= u64::MAX {
            download_percent(downloaded as nat, total as nat)
        } else {
            u64::MAX as nat
        },
{
    if total == 0 {
        return 100;
    }
    let p: u128 = downloaded as u128 * 100 / total as u128;
    if p > u64::MAX as u128 {
        u64::MAX
    } else {
        p as u64
    }
}

impl DownloadService {
    /// The store over the models directory of the application's data directory.
    pub fn new() -> (r: Result<DownloadService, AppError>)
        ensures
            r matches Ok(s) ==> under_app_dir(s.models_dir@, "models"@),
            r is Err ==> r->Err_0 is InvalidPath,
    {
        match Self::get_models_directory() {
            Ok(d) => Ok(DownloadService { models_dir: d }),
            Err(e) => Err(e),
        }
    }

    /// The store over a given models directory.
    pub fn with_directory(models_dir: String) -> (r: DownloadService)
        ensures
            r.models_dir@ == models_dir@,
    {
        DownloadService { models_dir }
    }

    /// `models` under the application's data directory.
    pub fn get_models_directory() -> (r: Result<String, AppError>)
        ensures
            r matches Ok(p) ==> under_app_dir(p@, "models"@),
            r is Err ==> r->Err_0 is InvalidPath,
    {
        app_subdirectory("models")
    }

    /// The canonical path of a model; it does not say whether the file exists.
    pub fn get_model_path(&self, model_id: &str) -> (r: String)
        ensures
            r@ == path_joined(self.models_dir@, model_file_name(model_id@)),
    {
        let name = model_file_name_of(model_id);
        join_path(self.models_dir.as_str(), name.as_str())
    }

    /// The installed model ids among the file names of the model directory.
    pub fn get_installed_models(file_names: &Vec<String>) -> (r: Vec<String>)
        ensures
            texts(r@) == installed_ids(texts(file_names@)),
    {
        let mut r: Vec<String> = Vec::new();
        let mut i: usize = 0;
        assert(texts(file_names@).subrange(0, 0) =~= Seq::<Seq<char>>::empty());
        assert(texts(r@) =~= Seq::<Seq<char>>::empty());
        while i < file_names.len()
            invariant
                i <= file_names@.len(),
                texts(r@) == installed_ids(texts(file_names@).subrange(0, i as int)),
            decreases file_names@.len() - i,
        {
            let ghost prev = texts(r@);
            let ghost names = texts(file_names@);
            assert(names.subrange(0, i + 1).drop_last() =~= names.subrange(0, i as int));
            assert(names.subrange(0, i + 1).last() == file_names@[i as int]@);
            match model_id_from_file_name(file_names[i].as_str()) {
                Some(id) => {
                    r.push(id);
                    assert(texts(r@) =~= prev.push(r@.last()@));
                },
                None => {},
            }
            i = i + 1;
        }
        assert(texts(file_names@).subrange(0, i as int) =~= texts(file_names@));
        r
    }

    /// Each catalog model, in catalog order, with whether its id is among
    /// the `installed` ids and, if so, its path.
    pub fn models_status(&self, installed: &Vec<String>) -> (r: Vec<ModelStatus>)
        ensures
            r@.len() == catalog_ids().len(),
            forall|i: int|
                0 <= i < r@.len() ==> {
                    let m = #[trigger] r@[i];
                    &&& m.id@ == catalog_ids()[i]
                    &&& m.name@ == catalog_names()[i]
                    &&& m.description@ == catalog_descriptions()[i]
                    &&& m.size_display@ == catalog_size_displays()[i]
                    &&& m.installed == texts(installed@).contains(catalog_ids()[i])
                    &&& match m.path {
                        Some(p) => m.installed && p@ == path_joined(
                            self.models_dir@,
                            model_file_name(catalog_ids()[i]),
                        ),
                        None => !m.installed,
                    }
                },
    {
        let models = WhisperModel::available_models();
        let mut r: Vec<ModelStatus> = Vec::new();
        let mut i: usize = 0;
        while i < models.len()
            invariant
                i <= models@.len(),
                models@.len() == catalog_ids().len(),
                r@.len() == i,
                forall|k: int| 0 <= k < models@.len() ==> is_catalog_entry(#[trigger] models@[k], k),
                forall|k: int|
                    0 <= k < i ==> {
                        let m = #[trigger] r@[k];
                        &&& m.id@ == catalog_ids()[k]
                        &&& m.name@ == catalog_names()[k]
                        &&& m.description@ == catalog_descriptions()[k]
                        &&& m.size_display@ == catalog_size_displays()[k]
                        &&& m.installed == texts(installed@).contains(catalog_ids()[k])
                        &&& match m.path {
                            Some(p) => m.installed && p@ == path_joined(
                                self.models_dir@,
                                model_file_name(catalog_ids()[k]),
                            ),
                            None => !m.installed,
                        }
                    },
            decreases models@.len() - i,
        {
            let m = &models[i];
            assert(is_catalog_entry(models@[i as int], i as int));
            let is_installed = holds_text(installed, m.id.as_str());
            let path = if is_installed {
                Some(self.get_model_path(m.id.as_str()))
            } else {
                None
            };
            r.push(
                ModelStatus {
                    id: m.id.clone(),
                    name: m.name.clone(),
                    description: m.description.clone(),
                    size_display: m.size_display.clone(),
                    installed: is_installed,
                    path,
                },
            );
            i = i + 1;
        }
        r
    }

    /// What deleting a model asks of the file system: removing its file when
    /// `present`, nothing otherwise. Deleting an absent model is not an error.
    pub fn delete_model(&self, model_id: &str, present: bool) -> (r: FileAction)
        ensures
            r@ == delete_effect(path_joined(self.models_dir@, model_file_name(model_id@)), present),
    {
        if present {
            FileAction::Remove(self.get_model_path(model_id))
        } else {
            FileAction::Keep
        }
    }

    /// Starts downloading a catalog model: it is fetched from its catalog URL
    /// into the partial path, and its catalog size is the total until the
    /// response declares one.
    pub fn download_model(&self, model_id: &str) -> (r: Result<DownloadSession, AppError>)
        ensures
            r is Ok <==> catalog_ids().contains(model_id@),
            r matches Err(e) ==> e is ModelNotFound && e->ModelNotFound_0@ == model_id@,
            r matches Ok(s) ==> {
                &&& s.model_id@ == model_id@
                &&& s.url@ == model_url(model_id@)
                &&& s.final_path@ == path_joined(self.models_dir@, model_file_name(model_id@))
                &&& s.temp_path@ == partial_path(s.final_path@)
                &&& s.downloaded == 0
                &&& s.state == DownloadState::Receiving
                &&& exists|i: int|
                    0 <= i < catalog_ids().len() && catalog_ids()[i] == model_id@ && s.total
                        == catalog_sizes()[i]
            },
    {
        match find_model(model_id) {
            None => Err(AppError::ModelNotFound(String::from_str(model_id))),
            Some(m) => {
                let final_path = self.get_model_path(model_id);
                let mut temp_path = final_path.clone();
                temp_path.append(".tmp");
                Ok(
                    DownloadSession {
                        model_id: String::from_str(model_id),
                        url: m.url,
                        temp_path,
                        final_path,
                        total: m.size_bytes,
                        downloaded: 0,
                        state: DownloadState::Receiving,
                    },
                )
            },
        }
    }
}

/// Whether an HTTP response may be downloaded: a 2xx status; any other is a
/// `Download` error.
pub fn check_download_status(status: u16) -> (r: Result<(), AppError>)
    ensures
        (200 <= status < 300) <==> r is Ok,
        r matches Err(e) ==> e is Download,
{
    if 200 <= status && status < 300 {
        Ok(())
    } else {
        Err(AppError::Download(String::from_str("the server did not answer with success")))
    }
}

impl DownloadSession {
    /// Takes the size the response declares, when it declares one.
    pub fn on_response(&mut self, content_length: Option<u64>)
        ensures
            final(self).total == match content_length {
                Some(n) => n,
                None => old(self).total,
            },
            final(self).downloaded == old(self).downloaded,
            final(self).state == old(self).state,
            final(self).temp_path@ == old(self).temp_path@,
            final(self).final_path@ == old(self).final_path@,
            final(self).model_id@ == old(self).model_id@,
    {
        match content_length {
            Some(n) => {
                self.total = n;
            },
            None => {},
        }
    }

    /// Counts a received chunk and reports the progress so far. The count
    /// saturates rather than wraps, so it never goes back.
    pub fn on_chunk(&mut self, len: u64) -> (r: DownloadProgress)
        requires
            old(self).state == DownloadState::Receiving,
        ensures
            final(self).downloaded == if old(self).downloaded as nat + len as nat <= u64::MAX {
                (old(self).downloaded + len) as u64
            } else {
                u64::MAX
            },
            final(self).downloaded >= old(self).downloaded,
            final(self).total == old(self).total,
            final(self).state == old(self).state,
            final(self).temp_path@ == old(self).temp_path@,
            final(self).final_path@ == old(self).final_path@,
            final(self).model_id@ == old(self).model_id@,
            r.downloaded == final(self).downloaded,
            r.total == final(self).total,
            r.model_id@ == final(self).model_id@,
            r.percent == if download_percent(r.downloaded as nat, r.total as nat) <= u64::MAX {
                download_percent(r.downloaded as nat, r.total as nat)
            } else {
                u64::MAX as nat
            },
    {
        self.downloaded = self.downloaded.saturating_add(len);
        DownloadProgress {
            downloaded: self.downloaded,
            total: self.total,
            percent: download_percent_of(self.downloaded, self.total),
            model_id: self.model_id.clone(),
        }
    }

    /// The body is complete: the partial file is renamed to the canonical path.
    pub fn finish(&mut self) -> (r: FileAction)
        requires
            old(self).state == DownloadState::Receiving,
        ensures
            r@ == FileEffect::Rename(old(self).temp_path@, old(self).final_path@),
            final(self).state == DownloadState::Finished,
            final(self).final_path@ == old(self).final_path@,
    {
        self.state = DownloadState::Finished;
        FileAction::Rename(self.temp_path.clone(), self.final_path.clone())
    }

    /// The download failed or was cancelled: the partial file is removed.
    pub fn fail(&mut self) -> (r: FileAction)
        requires
            old(self).state == DownloadState::Receiving,
        ensures
            r@ == FileEffect::Remove(old(self).temp_path@),
            final(self).state == DownloadState::Failed,
            final(self).temp_path@ == old(self).temp_path@,
            final(self).final_path@ == old(self).final_path@,
    {
        self.state = DownloadState::Failed;
        FileAction::Remove(self.temp_path.clone())
    }
}

/// Deleting a model twice does what deleting it once does, and the second
/// delete asks for nothing: the model's file is absent after either.
pub proof fn lemma_delete_idempotent(files: Set<Seq<char>>, path: Seq<char>)
    ensures
        ({
            let once = apply_effect(files, delete_effect(path, files.contains(path)));
            let twice = apply_effect(once, delete_effect(path, once.contains(path)));
            &&& !once.contains(path)
            &&& delete_effect(path, once.contains(path)) == FileEffect::Keep
            &&& twice == once
        }),
{
}

/// A download that fails leaves neither the model under its canonical path nor
/// the partial file, when the model was not there before it began.
pub proof fn lemma_failed_download_leaves_no_model(files: Set<Seq<char>>, final_path: Seq<char>)
    requires
        !files.contains(final_path),
    ensures
        ({
            let after = apply_effect(files, FileEffect::Remove(partial_path(final_path)));
            !after.contains(final_path) && !after.contains(partial_path(final_path))
        }),
{
}

} // verus!
