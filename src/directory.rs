//! Media discovery: which files count as media, and the entries a directory
//! scan reports.
use vstd::prelude::*;
use vstd::multiset::Multiset;
use vstd::string::*;
use crate::paths::{extension_of, path_extension};
use crate::text::{lower_of, same_text, to_lower};

verus! {

/// A media file found by a scan.
#[derive(Debug, Clone)]
pub struct FileEntry {
    pub path: String,
    pub name: String,
    pub size: u64,
    pub is_dir: bool,
    /// Seconds since the Unix epoch.
    pub modified: Option<u64>,
    pub extension: Option<String>,
}

/// A node of a scanned directory tree.
#[derive(Debug)]
pub struct DirectoryNode {
    pub path: String,
    pub name: String,
    pub is_dir: bool,
    pub size: u64,
    pub modified: Option<u64>,
    pub extension: Option<String>,
    pub children: Vec<DirectoryNode>,
}

/// A change seen in a watched directory.
#[derive(Debug, Clone)]
pub enum FileEvent {
    Created(String),
    Modified(String),
    Removed(String),
}

/// The media extensions, in lower case: video, then audio.
pub open spec fn supported_extensions() -> Seq<Seq<char>> {
    seq![
        "mp4"@,
        "mkv"@,
        "avi"@,
        "mov"@,
        "webm"@,
        "flv"@,
        "wmv"@,
        "mp3"@,
        "wav"@,
        "m4a"@,
        "flac"@,
        "aac"@,
        "ogg"@,
        "wma"@,
    ]
}

/// Whether a lower-case extension is a media extension.
pub fn is_supported_extension(ext: &str) -> (r: bool)
    ensures
        r == supported_extensions().contains(ext@),
{
    let r = same_text(ext, "mp4") || same_text(ext, "mkv") || same_text(ext, "avi") || same_text(
        ext,
        "mov",
    ) || same_text(ext, "webm") || same_text(ext, "flv") || same_text(ext, "wmv") || same_text(
        ext,
        "mp3",
    ) || same_text(ext, "wav") || same_text(ext, "m4a") || same_text(ext, "flac") || same_text(
        ext,
        "aac",
    ) || same_text(ext, "ogg") || same_text(ext, "wma");
    proof {
        let s = supported_extensions();
        if r {
            assert(ext@ == s[0] || ext@ == s[1] || ext@ == s[2] || ext@ == s[3] || ext@ == s[4]
                || ext@ == s[5] || ext@ == s[6] || ext@ == s[7] || ext@ == s[8] || ext@ == s[9]
                || ext@ == s[10] || ext@ == s[11] || ext@ == s[12] || ext@ == s[13]);
        } else {
            assert forall|i: int| 0 <= i < s.len() implies s[i] != ext@ by {}
        }
    }
    r
}

/// Whether the path's extension, in lower case, is a media extension.
pub fn is_supported_media(path: &str) -> (r: bool)
    ensures
        r == match extension_of(path@) {
            Some(e) => supported_extensions().contains(lower_of(e)),
            None => false,
        },
{
    match path_extension(path) {
        Some(e) => is_supported_extension(to_lower(e.as_str()).as_str()),
        None => false,
    }
}

/// Whether a directory tree shows an entry: hidden names (starting with `.`)
/// are left out, and so are files that are not media.
pub open spec fn shown_in_tree(name: Seq<char>, is_file: bool, path: Seq<char>) -> bool {
    !(name.len() > 0 && name[0] == '.') && (!is_file || match extension_of(path) {
        Some(e) => supported_extensions().contains(lower_of(e)),
        None => false,
    })
}

/// Whether a directory tree shows the entry `name` at `path`, as [`shown_in_tree`] states.
pub fn keep_in_tree(name: &str, is_file: bool, path: &str) -> (r: bool)
    ensures
        r == shown_in_tree(name@, is_file, path@),
{
    if name.unicode_len() > 0 && name.get_char(0) == '.' {
        return false;
    }
    !is_file || is_supported_media(path)
}

/// Lexicographic order of texts by character, the order of `str`'s `cmp`.
pub open spec fn text_le(a: Seq<char>, b: Seq<char>) -> bool
    decreases a.len(),
{
    if a.len() == 0 {
        true
    } else if b.len() == 0 {
        false
    } else if a[0] != b[0] {
        a[0] < b[0]
    } else {
        text_le(a.drop_first(), b.drop_first())
    }
}

pub proof fn lemma_text_le_total(a: Seq<char>, b: Seq<char>)
    ensures
        text_le(a, b) || text_le(b, a),
    decreases a.len(),
{
    if a.len() > 0 && b.len() > 0 && a[0] == b[0] {
        lemma_text_le_total(a.drop_first(), b.drop_first());
    }
}

pub proof fn lemma_text_le_transitive(a: Seq<char>, b: Seq<char>, c: Seq<char>)
    requires
        text_le(a, b),
        text_le(b, c),
    ensures
        text_le(a, c),
    decreases a.len(),
{
    if a.len() > 0 && b.len() > 0 && c.len() > 0 && a[0] == b[0] && b[0] == c[0] {
        lemma_text_le_transitive(a.drop_first(), b.drop_first(), c.drop_first());
    }
}

/// Whether `a` may stand before `b` among a node's children: directories
/// first, then names in lower case, in text order.
pub open spec fn tree_le(a: DirectoryNode, b: DirectoryNode) -> bool {
    (a.is_dir && !b.is_dir) || (a.is_dir == b.is_dir && text_le(lower_of(a.name@), lower_of(b.name@)))
}

proof fn lemma_tree_le_total(a: DirectoryNode, b: DirectoryNode)
    ensures
        tree_le(a, b) || tree_le(b, a),
{
    lemma_text_le_total(lower_of(a.name@), lower_of(b.name@));
}

proof fn lemma_tree_le_transitive(a: DirectoryNode, b: DirectoryNode, c: DirectoryNode)
    requires
        tree_le(a, b),
        tree_le(b, c),
    ensures
        tree_le(a, c),
{
    if a.is_dir == b.is_dir && b.is_dir == c.is_dir {
        lemma_text_le_transitive(lower_of(a.name@), lower_of(b.name@), lower_of(c.name@));
    }
}

pub open spec fn tree_sorted(s: Seq<DirectoryNode>) -> bool {
    forall|i: int, j: int| 0 <= i < j < s.len() ==> tree_le(#[trigger] s[i], #[trigger] s[j])
}

/// Whether `a` comes no later than `b` in text order.
pub fn text_le_exec(a: &str, b: &str) -> (r: bool)
    ensures
        r == text_le(a@, b@),
{
    let n = a.unicode_len();
    let m = b.unicode_len();
    let mut i: usize = 0;
    assert(a@.subrange(0, n as int) =~= a@);
    assert(b@.subrange(0, m as int) =~= b@);
    while i < n && i < m && a.get_char(i) == b.get_char(i)
        invariant
            i <= n,
            i <= m,
            n == a@.len(),
            m == b@.len(),
            text_le(a@, b@) == text_le(a@.subrange(i as int, n as int), b@.subrange(i as int, m as int)),
        decreases n - i,
    {
        assert(a@.subrange(i as int, n as int).drop_first() =~= a@.subrange(i + 1, n as int));
        assert(b@.subrange(i as int, m as int).drop_first() =~= b@.subrange(i + 1, m as int));
        i = i + 1;
    }
    if i == n {
        return true;
    }
    if i == m {
        return false;
    }
    a.get_char(i) < b.get_char(i)
}

fn tree_le_exec(a: &DirectoryNode, b: &DirectoryNode) -> (r: bool)
    ensures
        r == tree_le(*a, *b),
{
    if a.is_dir != b.is_dir {
        return a.is_dir;
    }
    let la = to_lower(a.name.as_str());
    let lb = to_lower(b.name.as_str());
    text_le_exec(la.as_str(), lb.as_str())
}

/// The children of a tree node in display order: directories first, then
/// by lower-case name; the same nodes, each as often as before.
pub fn sort_tree_children(children: Vec<DirectoryNode>) -> (r: Vec<DirectoryNode>)
    ensures
        tree_sorted(r@),
        r@.to_multiset() == children@.to_multiset(),
{
    broadcast use vstd::seq_lib::to_multiset_insert, vstd::seq_lib::to_multiset_remove;

    let mut rest = children;
    let mut out: Vec<DirectoryNode> = Vec::new();
    proof {
        assert(out@.to_multiset() =~= Multiset::<DirectoryNode>::empty()) by {
            out@.to_multiset_ensures();
        }
    }
    while rest.len() > 0
        invariant
            tree_sorted(out@),
            out@.to_multiset().add(rest@.to_multiset()) == children@.to_multiset(),
        decreases rest@.len(),
    {
        let ghost before = rest@;
        let node = rest.pop().unwrap();
        proof {
            assert(before =~= rest@.push(node));
            rest@.to_multiset_ensures();
        }
        let mut p: usize = 0;
        while p < out.len() && tree_le_exec(&out[p], &node)
            invariant
                p <= out@.len(),
                forall|k: int| 0 <= k < p ==> tree_le(#[trigger] out@[k], node),
            decreases out@.len() - p,
        {
            p = p + 1;
        }
        proof {
            if p < out@.len() {
                lemma_tree_le_total(out@[p as int], node);
                assert forall|k: int| p <= k < out@.len() implies tree_le(node, #[trigger] out@[k]) by {
                    if k > p {
                        lemma_tree_le_transitive(node, out@[p as int], out@[k]);
                    }
                }
            }
        }
        let ghost old_out = out@;
        out.insert(p, node);
        proof {
            assert forall|i: int, j: int| 0 <= i < j < out@.len() implies tree_le(#[trigger] out@[i], #[trigger] out@[j]) by {
                if i < p && j == p {
                } else if i == p && j > p {
                    assert(out@[j] == old_out[j - 1]);
                } else if i < p && j > p {
                    assert(out@[j] == old_out[j - 1]);
                    assert(out@[i] == old_out[i]);
                } else if j < p {
                    assert(out@[i] == old_out[i]);
                    assert(out@[j] == old_out[j]);
                } else {
                    assert(out@[i] == old_out[i - 1]);
                    assert(out@[j] == old_out[j - 1]);
                }
            }
            assert(out@ == old_out.insert(p as int, node));
            vstd::seq_lib::to_multiset_insert(old_out, p as int, node);
        }
    }
    proof {
        rest@.to_multiset_ensures();
        assert(rest@.to_multiset() =~= Multiset::<DirectoryNode>::empty());
    }
    out
}

} // verus!
