//! The folders to process, in order, with their status.

use vstd::prelude::*;
use crate::cache::CacheError;

verus! {

#[derive(Clone, Copy, Debug, PartialEq, Eq, Structural)]
pub enum FolderStatus {
    Pending,
    Processing,
    Complete,
    Error,
}

/// Why a folder produced no complete output.
#[derive(Clone, Copy, Debug, PartialEq, Eq, Structural)]
pub enum FolderFailure {
    /// The folder holds no image file.
    NoImages,
    /// The output directory could not be created.
    OutputDirectory,
    /// The image file at this position could not be decoded.
    Decode { index: usize },
    /// The frames could not be taken as one sequence.
    Cache(CacheError),
    /// This many frames failed to composite or be written.
    FramesFailed { count: usize },
}

/// One folder of the queue.
#[derive(Clone, Debug)]
pub struct FolderInfo {
    pub path: String,
    pub name: String,
    pub file_count: usize,
    pub status: FolderStatus,
    pub files_done: usize,
    pub failure: Option<FolderFailure>,
}

/// The position of the last `.` of a file name, -1 where there is none.
pub open spec fn last_dot(s: Seq<char>) -> int
    decreases s.len(),
{
    if s.len() == 0 {
        -1
    } else if s.last() == '.' {
        s.len() - 1
    } else {
        last_dot(s.drop_last())
    }
}

/// The extension of a file name: what follows its last `.`, where that dot
/// is not the name's first character.
pub open spec fn extension(s: Seq<char>) -> Option<Seq<char>> {
    let d = last_dot(s);
    if d <= 0 {
        None
    } else {
        Some(s.subrange(d + 1, s.len() as int))
    }
}

pub open spec fn ascii_lower(c: char) -> char {
    if 'A' <= c && c <= 'Z' {
        ((c as int) + 32) as char
    } else {
        c
    }
}

pub open spec fn eq_ignore_ascii_case(a: Seq<char>, b: Seq<char>) -> bool {
    &&& a.len() == b.len()
    &&& forall|i: int| 0 <= i < a.len() ==> ascii_lower(#[trigger] a[i]) == ascii_lower(b[i])
}

/// png, jpg, jpeg, bmp, tga or gif, in any case of ASCII letters.
pub open spec fn is_image_extension(e: Seq<char>) -> bool {
    ||| eq_ignore_ascii_case(e, "png"@)
    ||| eq_ignore_ascii_case(e, "jpg"@)
    ||| eq_ignore_ascii_case(e, "jpeg"@)
    ||| eq_ignore_ascii_case(e, "bmp"@)
    ||| eq_ignore_ascii_case(e, "tga"@)
    ||| eq_ignore_ascii_case(e, "gif"@)
}

pub open spec fn has_image_extension(name: Seq<char>) -> bool {
    extension(name) matches Some(e) && is_image_extension(e)
}

proof fn lemma_last_dot(s: Seq<char>, i: int)
    requires
        0 <= i <= s.len(),
        forall|k: int| i <= k < s.len() ==> #[trigger] s[k] != '.',
        i == 0 || s[i - 1] == '.',
    ensures
        last_dot(s) == i - 1,
    decreases s.len(),
{
    if s.len() > i {
        assert(s.last() != '.');
        let t = s.drop_last();
        assert forall|k: int| i <= k < t.len() implies #[trigger] t[k] != '.' by {
            assert(t[k] == s[k]);
        }
        lemma_last_dot(t, i);
    }
}

fn lower_char(c: char) -> (r: char)
    ensures
        r == ascii_lower(c),
{
    if 'A' <= c && c <= 'Z' {
        ((c as u8) + 32) as char
    } else {
        c
    }
}

/// Whether `s` from character `from` on equals `name`, ignoring ASCII case.
fn tail_matches(s: &str, from: usize, name: &str) -> (r: bool)
    requires
        from <= s@.len(),
    ensures
        r == eq_ignore_ascii_case(s@.subrange(from as int, s@.len() as int), name@),
{
    let n = s.unicode_len();
    let m = name.unicode_len();
    let ghost t = s@.subrange(from as int, n as int);
    if n - from != m {
        return false;
    }
    let mut k: usize = 0;
    while k < m
        invariant
            n == s@.len(),
            m == name@.len(),
            from + m == n,
            t == s@.subrange(from as int, n as int),
            k <= m,
            forall|j: int| 0 <= j < k ==> ascii_lower(#[trigger] t[j]) == ascii_lower(name@[j]),
        decreases m - k,
    {
        let a = lower_char(s.get_char(from + k));
        let b = lower_char(name.get_char(k));
        assert(t[k as int] == s@[from + k]);
        if a != b {
            return false;
        }
        k = k + 1;
    }
    true
}

/// Whether a file name has one of the extensions of the images taken as
/// frames: png, jpg, jpeg, bmp, tga or gif, in any case.
pub fn is_image_file(file_name: &str) -> (r: bool)
    ensures
        r == has_image_extension(file_name@),
{
    let n = file_name.unicode_len();
    let mut i: usize = n;
    while i > 0 && file_name.get_char(i - 1) != '.'
        invariant
            n == file_name@.len(),
            i <= n,
            forall|k: int| i <= k < n ==> #[trigger] file_name@[k] != '.',
        decreases i,
    {
        i = i - 1;
    }
    proof {
        lemma_last_dot(file_name@, i as int);
    }
    if i <= 1 {
        return false;
    }
    tail_matches(file_name, i, "png") || tail_matches(file_name, i, "jpg")
        || tail_matches(file_name, i, "jpeg") || tail_matches(file_name, i, "bmp")
        || tail_matches(file_name, i, "tga") || tail_matches(file_name, i, "gif")
}

impl FolderInfo {
    /// A folder that is still to be processed.
    pub fn new(path: String, name: String, file_count: usize) -> (r: FolderInfo)
        ensures
            r.path == path,
            r.name == name,
            r.file_count == file_count,
            r.status == FolderStatus::Pending,
            r.files_done == 0,
            r.failure is None,
    {
        FolderInfo { path, name, file_count, status: FolderStatus::Pending, files_done: 0, failure: None }
    }
}

} // verus!
