use vstd::prelude::*;

use crate::archive::after_last;
use crate::archive::trim_trailing;
use crate::text::str_eq;

verus! {

/// Whitespace, as the header scan skips it: the ASCII whitespace
/// characters, which are all a header field can carry.
pub open spec fn is_ws(c: char) -> bool {
    c == ' ' || c == '\t' || c == '\n' || c == '\r'
}

/// `s` without its leading whitespace.
pub open spec fn trim_start_ws(s: Seq<char>) -> Seq<char>
    decreases s.len(),
{
    if s.len() > 0 && is_ws(s[0]) {
        trim_start_ws(s.skip(1))
    } else {
        s
    }
}

/// The characters before the first occurrence of `c`; all of `s` when `c`
/// does not occur.
pub open spec fn before_first(s: Seq<char>, c: char) -> Seq<char>
    decreases s.len(),
{
    if s.len() == 0 {
        s
    } else if s[0] == c {
        Seq::empty()
    } else {
        seq![s[0]] + before_first(s.skip(1), c)
    }
}

/// The characters after the first occurrence of `c`; empty when `c` does not
/// occur.
pub open spec fn after_first(s: Seq<char>, c: char) -> Seq<char>
    decreases s.len(),
{
    if s.len() == 0 {
        s
    } else if s[0] == c {
        s.skip(1)
    } else {
        after_first(s.skip(1), c)
    }
}

/// `s` without its leading occurrences of `c`.
pub open spec fn trim_leading(s: Seq<char>, c: char) -> Seq<char>
    decreases s.len(),
{
    if s.len() > 0 && s[0] == c {
        trim_leading(s.skip(1), c)
    } else {
        s
    }
}

/// The file name one `;`-separated part of a `Content-Disposition` header
/// offers: when the part, its leading whitespace dropped, starts with
/// `filename=`, the text between the first and second `=` with surrounding
/// quotes trimmed; nothing otherwise.
pub open spec fn filename_value(part: Seq<char>) -> Option<Seq<char>> {
    let t = trim_start_ws(part);
    if t.len() >= 9 && t.take(9) == "filename="@ {
        Some(trim_leading(trim_trailing(before_first(t.skip(9), '='), '"'), '"'))
    } else {
        None
    }
}

proof fn lemma_after_first_shorter(s: Seq<char>, c: char)
    requires
        s.contains(c),
    ensures
        after_first(s, c).len() < s.len(),
    decreases s.len(),
{
    if s[0] != c {
        assert(s.skip(1).contains(c)) by {
            let k = choose|k: int| 0 <= k < s.len() && s[k] == c;
            assert(s.skip(1)[k - 1] == c);
        }
        lemma_after_first_shorter(s.skip(1), c);
    }
}

#[via_fn]
proof fn cd_scan_decreases(cd: Seq<char>) {
    if cd.contains(';') {
        lemma_after_first_shorter(cd, ';');
    }
}

/// The file name a `Content-Disposition` header carries: its parts, separated
/// by `;`, are tried in order, and the first part offering a file name wins.
pub open spec fn cd_filename_spec(cd: Seq<char>) -> Option<Seq<char>>
    decreases cd.len(),
    via cd_scan_decreases
{
    match filename_value(before_first(cd, ';')) {
        Some(v) => Some(v),
        None => {
            if cd.contains(';') {
                cd_filename_spec(after_first(cd, ';'))
            } else {
                None
            }
        },
    }
}

/// The name the downloaded artifact is saved under: what the
/// `Content-Disposition` header offers when it offers one, else the final
/// `/`-separated segment of the URL.
pub open spec fn download_name(url: Seq<char>, cd: Option<Seq<char>>) -> Seq<char> {
    match cd {
        Some(h) => match cd_filename_spec(h) {
            Some(v) => v,
            None => after_last(url, '/'),
        },
        None => after_last(url, '/'),
    }
}

proof fn lemma_before_after_first_at(s: Seq<char>, c: char, i: int)
    requires
        0 <= i < s.len(),
        s[i] == c,
        forall|j: int| 0 <= j < i ==> s[j] != c,
    ensures
        before_first(s, c) == s.take(i),
        after_first(s, c) == s.skip(i + 1),
    decreases i,
{
    if i == 0 {
        assert(before_first(s, c) =~= s.take(0));
    } else {
        assert(forall|j: int| 0 <= j < i - 1 ==> s.skip(1)[j] != c);
        assert(s.skip(1)[i - 1] == c);
        lemma_before_after_first_at(s.skip(1), c, i - 1);
        assert(before_first(s, c) =~= s.take(i)) by {
            assert(before_first(s, c) == seq![s[0]] + s.skip(1).take(i - 1));
        }
        assert(s.skip(1).skip(i) =~= s.skip(i + 1));
    }
}

proof fn lemma_before_first_none(s: Seq<char>, c: char)
    requires
        forall|j: int| 0 <= j < s.len() ==> s[j] != c,
    ensures
        before_first(s, c) == s,
        !s.contains(c),
    decreases s.len(),
{
    if s.len() > 0 {
        assert(forall|j: int| 0 <= j < s.skip(1).len() ==> s.skip(1)[j] != c);
        lemma_before_first_none(s.skip(1), c);
        assert(before_first(s, c) =~= s);
    }
    if s.contains(c) {
        let k = choose|k: int| 0 <= k < s.len() && s[k] == c;
        assert(s[k] != c);
    }
}

proof fn lemma_trim_start_ws_at(s: Seq<char>, k: int)
    requires
        0 <= k <= s.len(),
        forall|j: int| 0 <= j < k ==> is_ws(s[j]),
        k < s.len() ==> !is_ws(s[k]),
    ensures
        trim_start_ws(s) == s.skip(k),
    decreases k,
{
    if k == 0 {
        assert(trim_start_ws(s) =~= s.skip(0));
    } else {
        assert(forall|j: int| 0 <= j < k - 1 ==> is_ws(s.skip(1)[j]));
        lemma_trim_start_ws_at(s.skip(1), k - 1);
        assert(s.skip(1).skip(k - 1) =~= s.skip(k));
    }
}

proof fn lemma_trim_leading_at(s: Seq<char>, c: char, k: int)
    requires
        0 <= k <= s.len(),
        forall|j: int| 0 <= j < k ==> s[j] == c,
        k < s.len() ==> s[k] != c,
    ensures
        trim_leading(s, c) == s.skip(k),
    decreases k,
{
    if k == 0 {
        assert(trim_leading(s, c) =~= s.skip(0));
    } else {
        assert(forall|j: int| 0 <= j < k - 1 ==> s.skip(1)[j] == c);
        lemma_trim_leading_at(s.skip(1), c, k - 1);
        assert(s.skip(1).skip(k - 1) =~= s.skip(k));
    }
}

fn ws_char(c: char) -> (r: bool)
    ensures
        r == is_ws(c),
{
    c == ' ' || c == '\t' || c == '\n' || c == '\r'
}

/// The file name one header part offers, when it offers one.
fn part_filename(part: &str) -> (r: Option<String>)
    ensures
        match r {
            Some(v) => filename_value(part@) == Some(v@),
            None => filename_value(part@) is None,
        },
{
    let n = part.unicode_len();
    let mut k: usize = 0;
    while k < n && ws_char(part.get_char(k))
        invariant
            k <= n,
            n == part@.len(),
            forall|j: int| 0 <= j < k ==> is_ws(part@[j]),
        decreases n - k,
    {
        k += 1;
    }
    proof {
        lemma_trim_start_ws_at(part@, k as int);
    }
    let ghost t = part@.skip(k as int);
    if n - k < 9 {
        return None;
    }
    if !str_eq(part.substring_char(k, k + 9), "filename=") {
        proof {
            assert(part@.subrange(k as int, k + 9int) =~= t.take(9));
        }
        return None;
    }
    proof {
        assert(part@.subrange(k as int, k + 9int) =~= t.take(9));
    }
    // the value: from after `filename=` to the next `=` or the end
    let vstart = k + 9;
    let mut ve: usize = vstart;
    while ve < n && part.get_char(ve) != '='
        invariant
            vstart <= ve <= n,
            n == part@.len(),
            forall|j: int| vstart <= j < ve ==> part@[j] != '=',
        decreases n - ve,
    {
        ve += 1;
    }
    let ghost tail = t.skip(9);
    proof {
        assert(tail =~= part@.skip(vstart as int));
        if ve < n {
            assert(tail[ve - vstart] == '=');
            assert(forall|j: int| 0 <= j < ve - vstart ==> tail[j] != '=');
            lemma_before_after_first_at(tail, '=', ve - vstart);
        } else {
            assert(forall|j: int| 0 <= j < tail.len() ==> tail[j] != '=');
            lemma_before_first_none(tail, '=');
        }
        assert(before_first(tail, '=') =~= part@.subrange(vstart as int, ve as int));
    }
    // trim the surrounding quotes
    let ghost raw = part@.subrange(vstart as int, ve as int);
    let mut hi: usize = ve;
    while hi > vstart && part.get_char(hi - 1) == '"'
        invariant
            vstart <= hi <= ve,
            n == part@.len(),
            ve <= n,
            forall|j: int| hi <= j < ve ==> part@[j] == '"',
        decreases hi,
    {
        hi -= 1;
    }
    proof {
        crate::archive::lemma_trim_trailing_at(raw, '"', hi - vstart);
    }
    let ghost trimmed_r = raw.take(hi - vstart);
    let mut lo: usize = vstart;
    while lo < hi && part.get_char(lo) == '"'
        invariant
            vstart <= lo <= hi,
            n == part@.len(),
            hi <= ve <= n,
            forall|j: int| vstart <= j < lo ==> part@[j] == '"',
        decreases hi - lo,
    {
        lo += 1;
    }
    proof {
        assert(trimmed_r =~= part@.subrange(vstart as int, hi as int));
        lemma_trim_leading_at(trimmed_r, '"', lo - vstart);
        assert(trimmed_r.skip(lo - vstart) =~= part@.subrange(lo as int, hi as int));
    }
    Some(part.substring_char(lo, hi).to_owned())
}

/// The file name a `Content-Disposition` header offers, when it offers one.
pub fn cd_filename(cd: &str) -> (r: Option<String>)
    ensures
        match r {
            Some(v) => cd_filename_spec(cd@) == Some(v@),
            None => cd_filename_spec(cd@) is None,
        },
{
    let mut rest: String = cd.to_owned();
    loop
        invariant
            cd_filename_spec(cd@) == cd_filename_spec(rest@),
        decreases rest@.len(),
    {
        let r = rest.as_str();
        let n = r.unicode_len();
        let mut j: usize = 0;
        while j < n && r.get_char(j) != ';'
            invariant
                j <= n,
                n == r@.len(),
                forall|k: int| 0 <= k < j ==> r@[k] != ';',
            decreases n - j,
        {
            j += 1;
        }
        proof {
            if j < n {
                lemma_before_after_first_at(r@, ';', j as int);
            } else {
                lemma_before_first_none(r@, ';');
            }
            assert(before_first(r@, ';') =~= r@.subrange(0, j as int));
        }
        let part = r.substring_char(0, j);
        if let Some(v) = part_filename(part) {
            return Some(v);
        }
        if j == n {
            proof {
                assert(!r@.contains(';')) by {
                    if r@.contains(';') {
                        let k = choose|k: int| 0 <= k < r@.len() && r@[k] == ';';
                        assert(r@[k] != ';');
                    }
                }
            }
            return None;
        }
        proof {
            assert(r@[j as int] == ';');
            assert(r@.contains(';'));
            assert(after_first(r@, ';') =~= r@.subrange(j + 1int, n as int));
        }
        let next = r.substring_char(j + 1, n).to_owned();
        rest = next;
    }
}

/// The name the downloaded artifact is saved under: the header's offer when
/// there is one, else the final segment of the URL.
pub fn download_file_name(url: &str, content_disposition: Option<&str>) -> (r: String)
    ensures
        match content_disposition {
            Some(h) => r@ == download_name(url@, Some(h@)),
            None => r@ == download_name(url@, None::<Seq<char>>),
        },
{
    if let Some(h) = content_disposition {
        if let Some(v) = cd_filename(h) {
            return v;
        }
    }
    url_last_segment(url)
}

/// The final `/`-separated segment of a URL (empty when the URL ends with a
/// `/`).
fn url_last_segment(url: &str) -> (r: String)
    ensures
        r@ == after_last(url@, '/'),
{
    let n = url.unicode_len();
    let mut start: usize = n;
    while start > 0 && url.get_char(start - 1) != '/'
        invariant
            start <= n,
            n == url@.len(),
            forall|j: int| start <= j < n ==> url@[j] != '/',
        decreases start,
    {
        start -= 1;
    }
    proof {
        if start > 0 {
            crate::archive::lemma_after_last_at(url@, '/', start - 1);
        } else {
            crate::archive::lemma_after_last_none(url@, '/');
            assert(url@.subrange(0, n as int) =~= url@);
        }
    }
    url.substring_char(start, n).to_owned()
}

} // verus!
