//! Where the external binaries are looked for: an ordered list of candidate
//! paths built at run time from a per-platform table, and the first of them
//! that exists.
use vstd::prelude::*;
use vstd::string::*;
use crate::paths::{join_path, path_joined};
use crate::text::texts;

verus! {

/// The operating system the candidates are built for.
#[derive(Debug, Clone, Copy, PartialEq, Eq, Structural)]
pub enum Platform {
    Windows,
    MacOs,
    Linux,
    Other,
}

/// What the candidate table is filled from.
#[derive(Debug, Clone)]
pub struct LocatorEnv {
    pub platform: Platform,
    /// The directory of the running executable.
    pub exe_dir: Option<String>,
    /// The user's local data directory.
    pub data_local_dir: Option<String>,
    /// The program-files directory (Windows).
    pub program_files: Option<String>,
}

/// A binary's file name on the platform.
pub open spec fn exe_name(base: Seq<char>, p: Platform) -> Seq<char> {
    if p == Platform::Windows {
        base + ".exe"@
    } else {
        base
    }
}

pub open spec fn under(dir: Option<String>, parts: Seq<Seq<char>>) -> Seq<Seq<char>> {
    match dir {
        Some(d) => seq![joined_all(d@, parts)],
        None => Seq::empty(),
    }
}

/// `dir` joined with each part in turn.
pub open spec fn joined_all(dir: Seq<char>, parts: Seq<Seq<char>>) -> Seq<char>
    decreases parts.len(),
{
    if parts.len() == 0 {
        dir
    } else {
        path_joined(joined_all(dir, parts.drop_last()), parts.last())
    }
}

/// The installed locations of a media tool (`ffmpeg`, `ffprobe`) on the platform.
pub open spec fn media_tool_paths(env: LocatorEnv, tool: Seq<char>) -> Seq<Seq<char>> {
    match env.platform {
        Platform::MacOs => seq!["/opt/homebrew/bin/"@ + tool, "/usr/local/bin/"@ + tool],
        Platform::Windows => under(env.program_files, seq!["ffmpeg"@, "bin"@, tool + ".exe"@]) + under(
            env.data_local_dir,
            seq!["ffmpeg"@, "bin"@, tool + ".exe"@],
        ),
        Platform::Linux => seq!["/usr/bin/"@ + tool, "/usr/local/bin/"@ + tool],
        Platform::Other => Seq::empty(),
    }
}

/// The installed locations of the transcription engine on the platform,
/// including the legacy binary name.
pub open spec fn engine_paths(env: LocatorEnv) -> Seq<Seq<char>> {
    let base = exe_name("whisper-cpp"@, env.platform);
    let cli = exe_name("whisper-cli"@, env.platform);
    let common = under(env.exe_dir, seq![base]) + under(
        env.data_local_dir,
        seq!["clip-flow"@, "bin"@, base],
    );
    match env.platform {
        Platform::Windows => common + under(env.program_files, seq!["whisper-cpp"@, cli]) + under(
            env.program_files,
            seq!["whisper-cpp"@, base],
        ) + under(env.data_local_dir, seq!["whisper-cpp"@, cli]) + under(
            env.data_local_dir,
            seq!["whisper-cpp"@, base],
        ),
        Platform::MacOs => common + seq![
            "/opt/homebrew/bin/whisper-cli"@,
            "/usr/local/bin/whisper-cli"@,
            "/opt/homebrew/bin/whisper-cpp"@,
            "/usr/local/bin/whisper-cpp"@,
        ],
        _ => common,
    }
}

/// The engine names that are looked up on the search path, in order.
pub open spec fn engine_search_names_of(p: Platform) -> Seq<Seq<char>> {
    seq![exe_name("whisper-cli"@, p), exe_name("whisper-cpp"@, p), "main"@]
}

/// `base`, with `.exe` on Windows.
pub fn executable_name(base: &str, platform: Platform) -> (r: String)
    ensures
        r@ == exe_name(base@, platform),
{
    let mut r = String::from_str(base);
    if platform == Platform::Windows {
        r.append(".exe");
    }
    r
}

fn join_under(dir: &Option<String>, parts: &Vec<String>) -> (r: Vec<String>)
    ensures
        texts(r@) == under(*dir, texts(parts@)),
{
    let mut r: Vec<String> = Vec::new();
    match dir {
        Some(d) => {
            let mut acc = d.clone();
            let mut i: usize = 0;
            assert(texts(parts@).subrange(0, 0) =~= Seq::<Seq<char>>::empty());
            while i < parts.len()
                invariant
                    i <= parts@.len(),
                    acc@ == joined_all(d@, texts(parts@).subrange(0, i as int)),
                decreases parts@.len() - i,
            {
                assert(texts(parts@).subrange(0, i + 1).drop_last() =~= texts(parts@).subrange(
                    0,
                    i as int,
                ));
                acc = join_path(acc.as_str(), parts[i].as_str());
                i = i + 1;
            }
            assert(texts(parts@).subrange(0, i as int) =~= texts(parts@));
            r.push(acc);
            assert(texts(r@) =~= seq![acc@]);
        },
        None => {
            assert(texts(r@) =~= Seq::<Seq<char>>::empty());
        },
    }
    r
}

fn strings(a: &str, b: &str, c: &str) -> (r: Vec<String>)
    ensures
        texts(r@) == seq![a@, b@, c@],
{
    let mut r: Vec<String> = Vec::new();
    r.push(String::from_str(a));
    r.push(String::from_str(b));
    r.push(String::from_str(c));
    assert(texts(r@) =~= seq![a@, b@, c@]);
    r
}

fn pair(a: &str, b: &str) -> (r: Vec<String>)
    ensures
        texts(r@) == seq![a@, b@],
{
    let mut r: Vec<String> = Vec::new();
    r.push(String::from_str(a));
    r.push(String::from_str(b));
    assert(texts(r@) =~= seq![a@, b@]);
    r
}

fn concat(a: Vec<String>, b: Vec<String>) -> (r: Vec<String>)
    ensures
        texts(r@) == texts(a@) + texts(b@),
{
    let mut a = a;
    let mut b = b;
    let ghost a0 = a@;
    let ghost b0 = b@;
    a.append(&mut b);
    assert(texts(a@) =~= texts(a0) + texts(b0));
    a
}

fn prefixed_path(prefix: &str, tool: &str) -> (r: String)
    ensures
        r@ == prefix@ + tool@,
{
    let mut r = String::from_str(prefix);
    r.append(tool);
    r
}

/// Where to look for a media tool: its installed locations on the platform,
/// then `path_hits`, the tool as found on the search path.
pub fn media_tool_candidates(env: &LocatorEnv, tool: &str, path_hits: Vec<String>) -> (r: Vec<
    String,
>)
    ensures
        texts(r@) == media_tool_paths(*env, tool@) + texts(path_hits@),
{
    let installed: Vec<String> = match env.platform {
        Platform::MacOs => {
            let mut v: Vec<String> = Vec::new();
            v.push(prefixed_path("/opt/homebrew/bin/", tool));
            v.push(prefixed_path("/usr/local/bin/", tool));
            assert(texts(v@) =~= media_tool_paths(*env, tool@));
            v
        },
        Platform::Windows => {
            let exe = prefixed_path(tool, ".exe");
            let parts = strings("ffmpeg", "bin", exe.as_str());
            let a = join_under(&env.program_files, &parts);
            let b = join_under(&env.data_local_dir, &parts);
            concat(a, b)
        },
        Platform::Linux => {
            let mut v: Vec<String> = Vec::new();
            v.push(prefixed_path("/usr/bin/", tool));
            v.push(prefixed_path("/usr/local/bin/", tool));
            assert(texts(v@) =~= media_tool_paths(*env, tool@));
            v
        },
        Platform::Other => {
            let v: Vec<String> = Vec::new();
            assert(texts(v@) =~= media_tool_paths(*env, tool@));
            v
        },
    };
    concat(installed, path_hits)
}

/// The engine names to look up on the search path: the current binary name,
/// the older one, and the name of a build from source.
pub fn engine_search_names(platform: Platform) -> (r: Vec<String>)
    ensures
        texts(r@) == engine_search_names_of(platform),
{
    let mut r: Vec<String> = Vec::new();
    r.push(executable_name("whisper-cli", platform));
    r.push(executable_name("whisper-cpp", platform));
    r.push(String::from_str("main"));
    assert(texts(r@) =~= engine_search_names_of(platform));
    r
}

/// Where to look for the transcription engine: its installed locations on
/// the platform, then `path_hits`, the names of [`engine_search_names`] as
/// found on the search path.
pub fn engine_candidates(env: &LocatorEnv, path_hits: Vec<String>) -> (r: Vec<String>)
    ensures
        texts(r@) == engine_paths(*env) + texts(path_hits@),
{
    let base = executable_name("whisper-cpp", env.platform);
    let cli = executable_name("whisper-cli", env.platform);
    let mut one: Vec<String> = Vec::new();
    one.push(base.clone());
    assert(texts(one@) =~= seq![base@]);
    let a = join_under(&env.exe_dir, &one);
    let b = join_under(&env.data_local_dir, &strings("clip-flow", "bin", base.as_str()));
    let common = concat(a, b);
    let installed = match env.platform {
        Platform::Windows => {
            let w_cli = pair("whisper-cpp", cli.as_str());
            let w_base = pair("whisper-cpp", base.as_str());
            let c = concat(common, join_under(&env.program_files, &w_cli));
            let c = concat(c, join_under(&env.program_files, &w_base));
            let c = concat(c, join_under(&env.data_local_dir, &w_cli));
            concat(c, join_under(&env.data_local_dir, &w_base))
        },
        Platform::MacOs => {
            let mut v: Vec<String> = Vec::new();
            v.push(String::from_str("/opt/homebrew/bin/whisper-cli"));
            v.push(String::from_str("/usr/local/bin/whisper-cli"));
            v.push(String::from_str("/opt/homebrew/bin/whisper-cpp"));
            v.push(String::from_str("/usr/local/bin/whisper-cpp"));
            let ghost t = texts(v@);
            assert(t =~= seq![
                "/opt/homebrew/bin/whisper-cli"@,
                "/usr/local/bin/whisper-cli"@,
                "/opt/homebrew/bin/whisper-cpp"@,
                "/usr/local/bin/whisper-cpp"@,
            ]);
            concat(common, v)
        },
        _ => common,
    };
    concat(installed, path_hits)
}

/// The index of the first candidate that exists.
pub fn first_existing(exists: &Vec<bool>) -> (r: Option<usize>)
    ensures
        match r {
            Some(i) => i < exists@.len() && exists@[i as int] && forall|j: int|
                0 <= j < i ==> !exists@[j],
            None => forall|j: int| 0 <= j < exists@.len() ==> !exists@[j],
        },
{
    let mut i: usize = 0;
    while i < exists.len()
        invariant
            i <= exists@.len(),
            forall|j: int| 0 <= j < i ==> !exists@[j],
        decreases exists@.len() - i,
    {
        if exists[i] {
            return Some(i);
        }
        i = i + 1;
    }
    None
}

/// The first candidate that exists, given whether each one does; `None`
/// means the tool is not available.
pub fn locate(candidates: &Vec<String>, exists: &Vec<bool>) -> (r: Option<String>)
    requires
        candidates@.len() == exists@.len(),
    ensures
        match r {
            Some(p) => exists|i: int|
                0 <= i < exists@.len() && exists@[i] && p@ == candidates@[i]@ && forall|j: int|
                    0 <= j < i ==> !exists@[j],
            None => forall|j: int| 0 <= j < exists@.len() ==> !exists@[j],
        },
{
    match first_existing(exists) {
        Some(i) => Some(candidates[i].clone()),
        None => None,
    }
}

} // verus!
