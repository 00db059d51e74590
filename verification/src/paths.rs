//! Paths held as text, with the meaning that `std::path` gives them: on
//! Unix `/` separates components; on Windows `/` and `\\` both do, a path may
//! begin with a drive prefix such as `C:`, and `\\` is put between joined
//! parts. Of the Windows prefixes only the drive prefix is recognised; a
//! UNC (`\\server\share`) or verbatim (`\\?\`) prefix is read as plain
//! separators and components.
use vstd::prelude::*;
use crate::text;

verus! {

/// Whether `c` separates components.
pub open spec fn is_sep(c: char, windows: bool) -> bool {
    c == '/' || (windows && c == '\\')
}

/// The separator put between joined parts.
pub open spec fn main_sep(windows: bool) -> char {
    if windows {
        '\\'
    } else {
        '/'
    }
}

pub open spec fn is_ascii_letter(c: char) -> bool {
    ('a' <= c && c <= 'z') || ('A' <= c && c <= 'Z')
}

/// The length of the drive prefix (`C:`) that a Windows path begins with;
/// 0 where there is none, and always on Unix.
pub open spec fn drive_len(p: Seq<char>, windows: bool) -> int {
    if windows && p.len() >= 2 && is_ascii_letter(p[0]) && p[1] == ':' {
        2
    } else {
        0
    }
}

/// `base` joined with `rel` (`Path::join`): a `rel` with a drive prefix
/// replaces `base`; a `rel` that starts with a separator replaces all of
/// `base` but its drive prefix; otherwise the separator is put between
/// them, unless `base` is empty, ends with a separator or is a bare drive.
pub open spec fn join_path(base: Seq<char>, rel: Seq<char>, windows: bool) -> Seq<char> {
    if drive_len(rel, windows) > 0 {
        rel
    } else if rel.len() > 0 && is_sep(rel[0], windows) {
        base.take(drive_len(base, windows)) + rel
    } else if base.len() == 0 || is_sep(base.last(), windows) || (drive_len(base, windows)
        == base.len()) {
        base + rel
    } else {
        base + seq![main_sep(windows)] + rel
    }
}

/// `s` without its trailing slashes.
pub open spec fn rtrim_slash(s: Seq<char>) -> Seq<char>
    decreases s.len(),
{
    if s.len() > 0 && s.last() == '/' {
        rtrim_slash(s.drop_last())
    } else {
        s
    }
}

/// `s` without its trailing separators.
pub open spec fn rtrim_sep(s: Seq<char>, windows: bool) -> Seq<char>
    decreases s.len(),
{
    if s.len() > 0 && is_sep(s.last(), windows) {
        rtrim_sep(s.drop_last(), windows)
    } else {
        s
    }
}

/// The index of the last separator in `s`, or `-1`.
pub open spec fn last_sep(s: Seq<char>, windows: bool) -> int
    decreases s.len(),
{
    if s.len() == 0 {
        -1
    } else if is_sep(s.last(), windows) {
        s.len() - 1
    } else {
        last_sep(s.drop_last(), windows)
    }
}

/// The parent of a path (`Path::parent`): `None` where nothing but a drive
/// prefix and separators is left once trailing separators are removed;
/// otherwise, with the drive prefix kept in front, the text before the last
/// separator without its trailing separators, or the root separator where
/// that leaves nothing, or nothing where the rest is a single component.
pub open spec fn parent(p: Seq<char>, windows: bool) -> Option<Seq<char>> {
    let k = drive_len(p, windows);
    let pre = p.take(k);
    let q = rtrim_sep(p.skip(k), windows);
    if q.len() == 0 {
        None
    } else {
        let j = last_sep(q, windows);
        if j < 0 {
            Some(pre)
        } else {
            let head = rtrim_sep(q.take(j), windows);
            if head.len() == 0 {
                Some(pre + q.take(1))
            } else {
                Some(pre + head)
            }
        }
    }
}

/// The last part of `parts` that is neither empty nor `.`.
pub open spec fn last_named(parts: Seq<Seq<char>>) -> Option<Seq<char>>
    decreases parts.len(),
{
    if parts.len() == 0 {
        None
    } else if parts.last().len() == 0 || parts.last() == seq!['.'] {
        last_named(parts.drop_last())
    } else {
        Some(parts.last())
    }
}

/// `s` with every separator written as `/`.
pub open spec fn slashed(s: Seq<char>, windows: bool) -> Seq<char> {
    s.map_values(|c: char| if is_sep(c, windows) { '/' } else { c })
}

/// The final component of a path (`Path::file_name`), after its drive
/// prefix: `None` when there is none or it is `..`.
pub open spec fn file_name(p: Seq<char>, windows: bool) -> Option<Seq<char>> {
    match last_named(text::split_on(slashed(p.skip(drive_len(p, windows)), windows), '/')) {
        Some(x) => if x == seq!['.', '.'] {
            None
        } else {
            Some(x)
        },
        None => None,
    }
}

pub fn is_separator(c: char, windows: bool) -> (r: bool)
    ensures
        r == is_sep(c, windows),
{
    c == '/' || (windows && c == '\\')
}

fn drive_prefix_len(v: &Vec<char>, windows: bool) -> (n: usize)
    ensures
        n == drive_len(v@, windows),
{
    if windows && v.len() >= 2 && (('a' <= v[0] && v[0] <= 'z') || ('A' <= v[0] && v[0] <= 'Z'))
        && v[1] == ':' {
        2
    } else {
        0
    }
}

/// `Path::join`.
pub fn join(base: &str, rel: &str, windows: bool) -> (r: String)
    ensures
        r@ == join_path(base@, rel@, windows),
{
    let b = text::chars_of(base);
    let r = text::chars_of(rel);
    if drive_prefix_len(&r, windows) > 0 {
        return String::from_str(rel);
    }
    if r.len() > 0 && is_separator(r[0], windows) {
        let k = drive_prefix_len(&b, windows);
        let mut out = text::string_from(&b, 0, k);
        out.append(rel);
        return out;
    }
    let mut out = String::from_str(base);
    if !(b.len() == 0 || is_separator(b[b.len() - 1], windows) || drive_prefix_len(&b, windows)
        == b.len()) {
        out.push(if windows {
            '\\'
        } else {
            '/'
        });
    }
    out.append(rel);
    out
}

proof fn lemma_rtrim_step(s: Seq<char>, e: int)
    requires
        0 < e <= s.len(),
        s[e - 1] == '/',
    ensures
        rtrim_slash(s.take(e)) == rtrim_slash(s.take(e - 1)),
{
    assert(s.take(e).drop_last() =~= s.take(e - 1));
}

/// The length of `v[..e]` without its trailing slashes.
fn rtrim_len(v: &Vec<char>, e: usize) -> (n: usize)
    requires
        e <= v.len(),
    ensures
        n <= e,
        v@.take(n as int) == rtrim_slash(v@.take(e as int)),
{
    let mut n = e;
    while n > 0 && v[n - 1] == '/'
        invariant
            n <= e <= v.len(),
            rtrim_slash(v@.take(e as int)) == rtrim_slash(v@.take(n as int)),
        decreases n,
    {
        proof {
            lemma_rtrim_step(v@, n as int);
        }
        n = n - 1;
    }
    n
}

/// `str::trim_end_matches('/')`.
pub fn rtrim_slash_str(s: &str) -> (r: String)
    ensures
        r@ == rtrim_slash(s@),
{
    let v = text::chars_of(s);
    assert(v@.take(v.len() as int) =~= v@);
    let n = rtrim_len(&v, v.len());
    text::string_from(&v, 0, n)
}

proof fn lemma_rtrim_sep_step(s: Seq<char>, e: int, windows: bool)
    requires
        0 < e <= s.len(),
        is_sep(s[e - 1], windows),
    ensures
        rtrim_sep(s.take(e), windows) == rtrim_sep(s.take(e - 1), windows),
{
    assert(s.take(e).drop_last() =~= s.take(e - 1));
}

/// The length of `v[..e]` without its trailing separators.
fn rtrim_sep_len(v: &Vec<char>, e: usize, windows: bool) -> (n: usize)
    requires
        e <= v.len(),
    ensures
        n <= e,
        v@.take(n as int) == rtrim_sep(v@.take(e as int), windows),
{
    let mut n = e;
    while n > 0 && is_separator(v[n - 1], windows)
        invariant
            n <= e <= v.len(),
            rtrim_sep(v@.take(e as int), windows) == rtrim_sep(v@.take(n as int), windows),
        decreases n,
    {
        proof {
            lemma_rtrim_sep_step(v@, n as int, windows);
        }
        n = n - 1;
    }
    n
}

proof fn lemma_last_sep_step(s: Seq<char>, e: int, windows: bool)
    requires
        0 < e <= s.len(),
        !is_sep(s[e - 1], windows),
    ensures
        last_sep(s.take(e), windows) == last_sep(s.take(e - 1), windows),
{
    assert(s.take(e).drop_last() =~= s.take(e - 1));
}

/// `Path::parent`.
pub fn parent_of(p: &str, windows: bool) -> (r: Option<String>)
    ensures
        match parent(p@, windows) {
            Some(x) => r is Some && r->0@ == x,
            None => r is None,
        },
{
    let v = text::chars_of(p);
    let k = drive_prefix_len(&v, windows);
    let rest_s = text::string_from(&v, k, v.len());
    let rv = text::chars_of(rest_s.as_str());
    assert(rv@ =~= p@.skip(k as int));
    assert(rv@.take(rv.len() as int) =~= rv@);
    let n = rtrim_sep_len(&rv, rv.len(), windows);
    if n == 0 {
        return None;
    }
    let ghost q = rv@.take(n as int);
    let mut j = n;
    while j > 0 && !is_separator(rv[j - 1], windows)
        invariant
            j <= n <= rv.len(),
            q == rv@.take(n as int),
            last_sep(q, windows) == last_sep(rv@.take(j as int), windows),
        decreases j,
    {
        proof {
            lemma_last_sep_step(rv@, j as int, windows);
        }
        j = j - 1;
    }
    let pre = text::string_from(&v, 0, k);
    assert(pre@ == p@.take(k as int));
    if j == 0 {
        assert(last_sep(rv@.take(0), windows) == -1);
        return Some(pre);
    }
    assert(last_sep(q, windows) == j - 1);
    assert(q.take(j - 1) =~= rv@.take(j - 1));
    let m = rtrim_sep_len(&rv, j - 1, windows);
    if m == 0 {
        let root = text::string_from(&rv, 0, 1);
        assert(q.take(1) =~= rv@.subrange(0, 1));
        return Some(pre.concat(root.as_str()));
    }
    let head = text::string_from(&rv, 0, m);
    assert(head@ =~= rv@.take(m as int));
    Some(pre.concat(head.as_str()))
}

/// `Path::file_name`.
pub fn file_name_of(p: &str, windows: bool) -> (r: Option<String>)
    ensures
        match file_name(p@, windows) {
            Some(x) => r is Some && r->0@ == x,
            None => r is None,
        },
{
    let v = text::chars_of(p);
    let k = drive_prefix_len(&v, windows);
    let mut norm: Vec<char> = Vec::new();
    let mut i = k;
    assert(norm@ =~= slashed(v@.subrange(k as int, k as int), windows));
    while i < v.len()
        invariant
            k <= i <= v.len(),
            norm@ == slashed(v@.subrange(k as int, i as int), windows),
        decreases v.len() - i,
    {
        let c = if is_separator(v[i], windows) {
            '/'
        } else {
            v[i]
        };
        norm.push(c);
        assert(norm@ =~= slashed(v@.subrange(k as int, i + 1), windows));
        i = i + 1;
    }
    assert(v@.subrange(k as int, v.len() as int) =~= p@.skip(k as int));
    let ns = text::string_of(&norm);
    let parts = text::split_char(ns.as_str(), '/');
    let ghost ps = text::views(parts@);
    let mut n = parts.len();
    assert(ps.take(n as int) =~= ps);
    while n > 0 && (parts[n - 1].as_str().unicode_len() == 0 || text::str_eq(
        parts[n - 1].as_str(),
        ".",
    ))
        invariant
            n <= parts.len(),
            ps == text::views(parts@),
            last_named(ps) == last_named(ps.take(n as int)),
        decreases n,
    {
        proof {
            reveal_strlit(".");
            assert("."@ =~= seq!['.']);
            assert(ps[n - 1] == parts@[n - 1]@);
            assert(ps.take(n as int).last() == ps[n - 1]);
            assert(ps.take(n as int).drop_last() =~= ps.take(n - 1));
        }
        n = n - 1;
    }
    if n == 0 {
        return None;
    }
    proof {
        reveal_strlit(".");
        reveal_strlit("..");
        assert("."@ =~= seq!['.']);
        assert(".."@ =~= seq!['.', '.']);
        assert(ps[n - 1] == parts@[n - 1]@);
        assert(ps.take(n as int).last() == ps[n - 1]);
    }
    let last = &parts[n - 1];
    assert(last_named(ps.take(n as int)) == Some(last@));
    if text::str_eq(last.as_str(), "..") {
        None
    } else {
        Some(last.clone())
    }
}

} // verus!
