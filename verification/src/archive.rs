use vstd::prelude::*;

use crate::ArchiveKind;
use crate::seq_ends_with;

verus! {

/// The characters after the last occurrence of `c`; all of `s` when `c` does
/// not occur.
pub open spec fn after_last(s: Seq<char>, c: char) -> Seq<char>
    decreases s.len(),
{
    if s.len() == 0 {
        s
    } else if s.last() == c {
        Seq::empty()
    } else {
        after_last(s.drop_last(), c).push(s.last())
    }
}

/// `s` without its trailing separators.
pub open spec fn trim_trailing(s: Seq<char>, c: char) -> Seq<char>
    decreases s.len(),
{
    if s.len() > 0 && s.last() == c {
        trim_trailing(s.drop_last(), c)
    } else {
        s
    }
}

/// The final segment of a path: what follows the last `'/'`, trailing
/// separators dropped first.
pub open spec fn file_name_of(path: Seq<char>) -> Seq<char> {
    after_last(trim_trailing(path, '/'), '/')
}

/// The extension of a file name: what follows its last `'.'`; none when there
/// is no dot, or when the only dot is the leading character of a dotfile.
pub open spec fn extension_of(f: Seq<char>) -> Option<Seq<char>> {
    if f.contains('.') {
        let e = after_last(f, '.');
        if e.len() + 1 == f.len() {
            None
        } else {
            Some(e)
        }
    } else {
        None
    }
}

/// Classification of an artifact by the extension of its final path segment:
/// `zip` names a Zip archive, `tar` a Tar archive, `gz` and `tgz` a
/// gzip-compressed Tar archive; everything else is a plain file.
pub open spec fn classify_chars(path: Seq<char>) -> ArchiveKind {
    match extension_of(file_name_of(path)) {
        Some(e) => {
            if e == seq!['z', 'i', 'p'] {
                ArchiveKind::Zip
            } else if e == seq!['t', 'a', 'r'] {
                ArchiveKind::Tar
            } else if e == seq!['g', 'z'] || e == seq!['t', 'g', 'z'] {
                ArchiveKind::TarGz
            } else {
                ArchiveKind::PlainFile
            }
        },
        None => ArchiveKind::PlainFile,
    }
}

pub proof fn lemma_after_last_at(s: Seq<char>, c: char, i: int)
    requires
        0 <= i < s.len(),
        s[i] == c,
        forall|j: int| i < j < s.len() ==> s[j] != c,
    ensures
        after_last(s, c) == s.subrange(i + 1, s.len() as int),
    decreases s.len(),
{
    if i == s.len() - 1 {
        assert(after_last(s, c) =~= s.subrange(i + 1, s.len() as int));
    } else {
        lemma_after_last_at(s.drop_last(), c, i);
        assert(after_last(s, c) =~= s.subrange(i + 1, s.len() as int));
    }
}

pub proof fn lemma_after_last_none(s: Seq<char>, c: char)
    requires
        forall|j: int| 0 <= j < s.len() ==> s[j] != c,
    ensures
        after_last(s, c) == s,
    decreases s.len(),
{
    if s.len() > 0 {
        lemma_after_last_none(s.drop_last(), c);
        assert(after_last(s, c) =~= s);
    }
}

pub proof fn lemma_trim_trailing_at(s: Seq<char>, c: char, e: int)
    requires
        0 <= e <= s.len(),
        forall|j: int| e <= j < s.len() ==> s[j] == c,
        e > 0 ==> s[e - 1] != c,
    ensures
        trim_trailing(s, c) == s.take(e),
    decreases s.len(),
{
    if s.len() > 0 && s.last() == c {
        lemma_trim_trailing_at(s.drop_last(), c, e);
        assert(s.drop_last().take(e) =~= s.take(e));
    } else {
        assert(trim_trailing(s, c) =~= s.take(e));
    }
}

/// Finds the final path segment of `path`: the character range it occupies.
fn file_name_range(path: &str) -> (r: (usize, usize))
    ensures
        r.0 <= r.1 <= path@.len(),
        path@.subrange(r.0 as int, r.1 as int) == file_name_of(path@),
{
    let n = path.unicode_len();
    let mut end: usize = n;
    while end > 0 && path.get_char(end - 1) == '/'
        invariant
            end <= n,
            n == path@.len(),
            forall|j: int| end <= j < n ==> path@[j] == '/',
        decreases end,
    {
        end -= 1;
    }
    proof {
        lemma_trim_trailing_at(path@, '/', end as int);
    }
    let ghost trimmed = path@.take(end as int);
    let mut start: usize = end;
    while start > 0 && path.get_char(start - 1) != '/'
        invariant
            start <= end <= n,
            n == path@.len(),
            forall|j: int| start <= j < end ==> path@[j] != '/',
        decreases start,
    {
        start -= 1;
    }
    proof {
        if start > 0 {
            lemma_after_last_at(trimmed, '/', start - 1);
        } else {
            lemma_after_last_none(trimmed, '/');
        }
        assert(trimmed.subrange(start as int, end as int) =~= path@.subrange(
            start as int,
            end as int,
        ));
        if start == 0 {
            assert(path@.subrange(0, end as int) =~= trimmed);
        }
    }
    (start, end)
}

/// The final path segment of `path` as its own string.
pub fn file_name(path: &str) -> (r: String)
    ensures
        r@ == file_name_of(path@),
{
    let (start, end) = file_name_range(path);
    path.substring_char(start, end).to_owned()
}

/// The extension of the file name `f`, when it has one: the index its
/// characters start at.
pub fn extension_range(f: &str) -> (r: Option<usize>)
    ensures
        match r {
            Some(i) => i <= f@.len() && extension_of(f@) == Some(
                f@.subrange(i as int, f@.len() as int),
            ),
            None => extension_of(f@) is None,
        },
{
    let n = f.unicode_len();
    let mut i: usize = n;
    while i > 0 && f.get_char(i - 1) != '.'
        invariant
            i <= n,
            n == f@.len(),
            forall|j: int| i <= j < n ==> f@[j] != '.',
        decreases i,
    {
        i -= 1;
    }
    if i == 0 {
        proof {
            assert(!f@.contains('.')) by {
                if f@.contains('.') {
                    let k = choose|k: int| 0 <= k < f@.len() && f@[k] == '.';
                    assert(f@[k] != '.');
                }
            }
        }
        None
    } else {
        proof {
            lemma_after_last_at(f@, '.', i - 1);
            assert(f@.contains('.')) by {
                assert(f@[i - 1] == '.');
            }
        }
        if i == 1 {
            None
        } else {
            Some(i)
        }
    }
}

/// Classifies an artifact path by the extension of its final segment.
pub fn classify_archive_kind(path: &str) -> (k: ArchiveKind)
    ensures
        k == classify_chars(path@),
{
    proof {
        reveal_strlit("zip");
        reveal_strlit("tar");
        reveal_strlit("gz");
        reveal_strlit("tgz");
        assert("zip"@ =~= seq!['z', 'i', 'p']);
        assert("tar"@ =~= seq!['t', 'a', 'r']);
        assert("gz"@ =~= seq!['g', 'z']);
        assert("tgz"@ =~= seq!['t', 'g', 'z']);
    }
    let fname = file_name(path);
    let f = fname.as_str();
    match extension_range(f) {
        None => ArchiveKind::PlainFile,
        Some(i) => {
            let ext = f.substring_char(i, f.unicode_len());
            if crate::text::str_eq(ext, "zip") {
                ArchiveKind::Zip
            } else if crate::text::str_eq(ext, "tar") {
                ArchiveKind::Tar
            } else if crate::text::str_eq(ext, "gz") || crate::text::str_eq(ext, "tgz") {
                ArchiveKind::TarGz
            } else {
                ArchiveKind::PlainFile
            }
        },
    }
}

} // verus!
