//! File-system paths as text, and the application's directories.
use vstd::prelude::*;
use crate::error::AppError;
use crate::text::opt_text;

verus! {

/// The path `name` under `dir`, as `Path::join` forms it.
pub uninterp spec fn path_joined(dir: Seq<char>, name: Seq<char>) -> Seq<char>;

/// Relies on std::path::Path::join: the path of `name` under `dir`. Both are
/// UTF-8, so the joined path converts back to text without loss.
#[verifier::external_body]
pub(crate) fn join_path(dir: &str, name: &str) -> (r: String)
    ensures
        r@ == path_joined(dir@, name@),
{
    std::path::Path::new(dir).join(name).to_string_lossy().into_owned()
}

/// Relies on dirs::data_local_dir: the user's local data directory, when the
/// platform has one. It depends on the environment, so nothing is known of it.
#[verifier::external_body]
pub(crate) fn local_data_dir() -> Option<String> {
    dirs::data_local_dir().map(|p| p.to_string_lossy().into_owned())
}

/// The application's private directory under a local data directory `data`;
/// without one, the path cannot be formed.
pub fn app_data_directory_from(data: Option<String>) -> (r: Result<String, AppError>)
    ensures
        match data {
            Some(d) => r matches Ok(p) && p@ == path_joined(d@, "clip-flow"@),
            None => r matches Err(e) && e is InvalidPath,
        },
{
    match data {
        Some(d) => Ok(join_path(d.as_str(), "clip-flow")),
        None => Err(AppError::InvalidPath(String::from_str("Cannot find data directory"))),
    }
}

/// The application's private directory under the user's local data directory.
pub fn app_data_directory() -> (r: Result<String, AppError>)
    ensures
        r matches Ok(p) ==> exists|a: Seq<char>| p@ == path_joined(a, "clip-flow"@),
        r matches Err(e) ==> e is InvalidPath,
{
    let data = local_data_dir();
    let ghost d = opt_text(data);
    let r = app_data_directory_from(data);
    proof {
        if let Some(a) = d {
            assert(r->Ok_0@ == path_joined(a, "clip-flow"@));
        }
    }
    r
}

/// The directory `name` under the application's private directory.
pub open spec fn under_app_dir(p: Seq<char>, name: Seq<char>) -> bool {
    exists|a: Seq<char>| p == path_joined(path_joined(a, "clip-flow"@), name)
}

/// The directory `name` under the application's private directory.
pub fn app_subdirectory(name: &str) -> (r: Result<String, AppError>)
    ensures
        r matches Ok(p) ==> under_app_dir(p@, name@),
        r matches Err(e) ==> e is InvalidPath,
{
    match app_data_directory() {
        Ok(d) => {
            let ghost a = choose|a: Seq<char>| d@ == path_joined(a, "clip-flow"@);
            let r = join_path(d.as_str(), name);
            assert(r@ == path_joined(path_joined(a, "clip-flow"@), name@));
            Ok(r)
        },
        Err(e) => Err(e),
    }
}

/// The path with its extension replaced, as `Path::with_extension` forms it.
pub uninterp spec fn path_with_ext(p: Seq<char>, ext: Seq<char>) -> Seq<char>;

/// Relies on std::path::Path::with_extension with the extension `json`,
/// which holds no path separator: `p` with the extension of its file name
/// set to `json`. The path is UTF-8, so the result converts back to text
/// without loss.
#[verifier::external_body]
pub(crate) fn with_json_extension(p: &str) -> (r: String)
    ensures
        r@ == path_with_ext(p@, "json"@),
{
    std::path::Path::new(p).with_extension("json").to_string_lossy().into_owned()
}

/// The extension of the path's file name, as `Path::extension` finds it.
pub uninterp spec fn extension_of(p: Seq<char>) -> Option<Seq<char>>;

/// Relies on std::path::Path::extension: the text after the last `.` of the
/// file name, if the name has one that is not its first character. The path
/// is UTF-8, so the extension is too.
#[verifier::external_body]
pub(crate) fn path_extension(p: &str) -> (r: Option<String>)
    ensures
        match r {
            Some(e) => extension_of(p@) == Some(e@),
            None => extension_of(p@) is None,
        },
{
    std::path::Path::new(p).extension().map(|e| e.to_string_lossy().into_owned())
}

} // verus!
