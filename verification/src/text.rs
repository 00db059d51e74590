//! Character-level text handling: trimming, splitting, searching, decimal
//! numbers. Every routine works on the `Seq<char>` view of its arguments.
use vstd::prelude::*;

verus! {

pub assume_specification[ String::push ](s: &mut String, ch: char)
    ensures
        final(s)@ == old(s)@.push(ch),
;

pub assume_specification[ String::pop ](s: &mut String) -> (r: Option<char>)
    ensures
        old(s)@.len() == 0 ==> r is None && final(s)@ == old(s)@,
        old(s)@.len() > 0 ==> r == Some(old(s)@.last()) && final(s)@ == old(s)@.drop_last(),
;

/// Whether `c` has the Unicode `White_Space` property, which is what
/// `char::is_whitespace` tests.
pub open spec fn is_ws(c: char) -> bool {
    ||| ('\u{9}' <= c && c <= '\u{d}')
    ||| c == ' '
    ||| c == '\u{85}'
    ||| c == '\u{a0}'
    ||| c == '\u{1680}'
    ||| ('\u{2000}' <= c && c <= '\u{200a}')
    ||| c == '\u{2028}'
    ||| c == '\u{2029}'
    ||| c == '\u{202f}'
    ||| c == '\u{205f}'
    ||| c == '\u{3000}'
}

pub fn is_whitespace(c: char) -> (r: bool)
    ensures
        r == is_ws(c),
{
    ('\u{9}' <= c && c <= '\u{d}') || c == ' ' || c == '\u{85}' || c == '\u{a0}' || c
        == '\u{1680}' || ('\u{2000}' <= c && c <= '\u{200a}') || c == '\u{2028}' || c
        == '\u{2029}' || c == '\u{202f}' || c == '\u{205f}' || c == '\u{3000}'
}

/// `s` without its leading whitespace.
pub open spec fn trim_start(s: Seq<char>) -> Seq<char>
    decreases s.len(),
{
    if s.len() > 0 && is_ws(s[0]) {
        trim_start(s.drop_first())
    } else {
        s
    }
}

/// `s` without its trailing whitespace.
pub open spec fn trim_end(s: Seq<char>) -> Seq<char>
    decreases s.len(),
{
    if s.len() > 0 && is_ws(s.last()) {
        trim_end(s.drop_last())
    } else {
        s
    }
}

/// `s` without leading and trailing whitespace (`str::trim`).
pub open spec fn trim(s: Seq<char>) -> Seq<char> {
    trim_end(trim_start(s))
}

/// Number of leading characters of `s` that differ from `c`.
pub open spec fn count_until(s: Seq<char>, c: char) -> nat
    decreases s.len(),
{
    if s.len() == 0 || s[0] == c {
        0
    } else {
        1 + count_until(s.drop_first(), c)
    }
}

/// Number of leading characters of `s` that are not whitespace.
pub open spec fn word_len(s: Seq<char>) -> nat
    decreases s.len(),
{
    if s.len() == 0 || is_ws(s[0]) {
        0
    } else {
        1 + word_len(s.drop_first())
    }
}

/// The pieces of `s` between occurrences of `c` (`str::split` on a char):
/// there is always at least one piece, and pieces may be empty.
pub open spec fn split_on(s: Seq<char>, c: char) -> Seq<Seq<char>>
    decreases s.len(),
{
    let k = count_until(s, c);
    if k >= s.len() {
        seq![s]
    } else {
        seq![s.take(k as int)] + split_on(s.skip(k + 1 as int), c)
    }
}

/// `s` without one trailing carriage return.
pub open spec fn strip_cr(s: Seq<char>) -> Seq<char> {
    if s.len() > 0 && s.last() == '\r' {
        s.drop_last()
    } else {
        s
    }
}

/// The lines of `s` (`str::lines`): split at `\n`, a `\r` right before a
/// `\n` is dropped, and a final line ending adds no empty line.
pub open spec fn lines(s: Seq<char>) -> Seq<Seq<char>>
    decreases s.len(),
{
    if s.len() == 0 {
        seq![]
    } else {
        let k = count_until(s, '\n');
        if k >= s.len() {
            seq![s]
        } else {
            seq![strip_cr(s.take(k as int))] + lines(s.skip(k + 1 as int))
        }
    }
}

pub proof fn lemma_count_until_le(s: Seq<char>, c: char)
    ensures
        count_until(s, c) <= s.len(),
        count_until(s, c) < s.len() ==> s[count_until(s, c) as int] == c,
        forall|i: int| 0 <= i < count_until(s, c) ==> s[i] != c,
    decreases s.len(),
{
    if s.len() > 0 && s[0] != c {
        lemma_count_until_le(s.drop_first(), c);
        assert forall|i: int| 0 <= i < count_until(s, c) implies s[i] != c by {
            if i > 0 {
                assert(s[i] == s.drop_first()[i - 1]);
            }
        }
    }
}

pub proof fn lemma_word_len_le(s: Seq<char>)
    ensures
        word_len(s) <= s.len(),
        word_len(s) < s.len() ==> is_ws(s[word_len(s) as int]),
        forall|i: int| 0 <= i < word_len(s) ==> !is_ws(s[i]),
    decreases s.len(),
{
    if s.len() > 0 && !is_ws(s[0]) {
        lemma_word_len_le(s.drop_first());
        assert forall|i: int| 0 <= i < word_len(s) implies !is_ws(s[i]) by {
            if i > 0 {
                assert(s[i] == s.drop_first()[i - 1]);
            }
        }
    }
}

pub proof fn lemma_trim_start(s: Seq<char>)
    ensures
        trim_start(s).len() <= s.len(),
        trim_start(s).len() > 0 ==> !is_ws(trim_start(s)[0]),
        trim_start(s) =~= s.skip(s.len() - trim_start(s).len()),
    decreases s.len(),
{
    if s.len() > 0 && is_ws(s[0]) {
        lemma_trim_start(s.drop_first());
    }
}

/// The maximal runs of non-whitespace characters of `s`
/// (`str::split_whitespace`).
pub open spec fn words(s: Seq<char>) -> Seq<Seq<char>>
    decreases s.len(),
{
    let t = trim_start(s);
    if t.len() == 0 {
        seq![]
    } else {
        proof {
            lemma_trim_start(s);
            lemma_word_len_le(t);
            assert(word_len(t) >= 1);
            assert(t.skip(word_len(t) as int).len() < s.len());
        }
        let k = word_len(t);
        seq![t.take(k as int)] + words(t.skip(k as int))
    }
}

pub open spec fn starts_with(s: Seq<char>, p: Seq<char>) -> bool {
    p.len() <= s.len() && s.take(p.len() as int) == p
}

pub open spec fn ends_with(s: Seq<char>, p: Seq<char>) -> bool {
    p.len() <= s.len() && s.skip(s.len() - p.len()) == p
}

pub open spec fn occurs_at(s: Seq<char>, p: Seq<char>, i: int) -> bool {
    0 <= i && i + p.len() <= s.len() && s.subrange(i, i + p.len()) == p
}

pub open spec fn contains(s: Seq<char>, p: Seq<char>) -> bool {
    exists|i: int| occurs_at(s, p, i)
}

/// `parts` joined with `sep` between neighbours (`[String]::join`).
pub open spec fn join(parts: Seq<Seq<char>>, sep: Seq<char>) -> Seq<char>
    decreases parts.len(),
{
    if parts.len() == 0 {
        Seq::empty()
    } else if parts.len() == 1 {
        parts[0]
    } else {
        join(parts.drop_last(), sep) + sep + parts.last()
    }
}

/// Views of a vector of strings.
pub open spec fn views(v: Seq<String>) -> Seq<Seq<char>> {
    v.map_values(|x: String| x@)
}

/// The decimal digit character for `d < 10`.
pub open spec fn digit_char(d: nat) -> char {
    ((d + 48) as u8) as char
}

/// The decimal representation of `n`, without leading zeros.
pub open spec fn decimal(n: nat) -> Seq<char>
    decreases n,
{
    if n < 10 {
        seq![digit_char(n)]
    } else {
        decimal(n / 10).push(digit_char(n % 10))
    }
}

pub open spec fn is_digit(c: char) -> bool {
    '0' <= c && c <= '9'
}

pub open spec fn digit_value(c: char) -> nat {
    (c as int - 48) as nat
}

/// The value of a run of decimal digits.
pub open spec fn digits_value(d: Seq<char>) -> nat
    decreases d.len(),
{
    if d.len() == 0 {
        0
    } else {
        digits_value(d.drop_last()) * 10 + digit_value(d.last())
    }
}

/// `s` without one leading `+`.
pub open spec fn unsigned_digits(s: Seq<char>) -> Seq<char> {
    if s.len() > 0 && s[0] == '+' {
        s.drop_first()
    } else {
        s
    }
}

/// What `str::parse` gives for an unsigned integer type whose largest value
/// is `max`: an optional `+`, then at least one decimal digit and nothing
/// else, of a value that fits.
pub open spec fn parse_unsigned(s: Seq<char>, max: nat) -> Option<nat> {
    let d = unsigned_digits(s);
    if d.len() > 0 && (forall|i: int| 0 <= i < d.len() ==> is_digit(#[trigger] d[i]))
        && digits_value(d) <= max {
        Some(digits_value(d))
    } else {
        None
    }
}

pub fn chars_of(s: &str) -> (v: Vec<char>)
    ensures
        v@ == s@,
{
    broadcast use vstd::string::group_string_axioms;

    let mut v: Vec<char> = Vec::new();
    for c in it: s.chars()
        invariant
            it.seq() == s@,
            v@ == it.seq().take(it.index() as int),
    {
        v.push(c);
    }
    v
}

/// The string made of `v[from..to]`.
pub fn string_from(v: &Vec<char>, from: usize, to: usize) -> (s: String)
    requires
        from <= to <= v.len(),
    ensures
        s@ == v@.subrange(from as int, to as int),
{
    let mut s = String::new();
    let mut i: usize = from;
    while i < to
        invariant
            from <= i <= to <= v.len(),
            s@ == v@.subrange(from as int, i as int),
        decreases to - i,
    {
        s.push(v[i]);
        i = i + 1;
        assert(s@ =~= v@.subrange(from as int, i as int));
    }
    s
}

pub fn string_of(v: &Vec<char>) -> (s: String)
    ensures
        s@ == v@,
{
    let s = string_from(v, 0, v.len());
    assert(v@.subrange(0, v@.len() as int) =~= v@);
    s
}

pub fn str_eq(a: &str, b: &str) -> (r: bool)
    ensures
        r == (a@ == b@),
{
    let x = chars_of(a);
    let y = chars_of(b);
    if x.len() != y.len() {
        assert(x@.len() != y@.len());
        return false;
    }
    let mut i: usize = 0;
    while i < x.len()
        invariant
            x@ == a@,
            y@ == b@,
            x.len() == y.len(),
            i <= x.len(),
            forall|k: int| 0 <= k < i ==> x@[k] == y@[k],
        decreases x.len() - i,
    {
        if x[i] != y[i] {
            assert(x@[i as int] != y@[i as int]);
            return false;
        }
        i = i + 1;
    }
    assert(x@ =~= y@);
    true
}

pub fn is_empty(s: &str) -> (r: bool)
    ensures
        r == (s@.len() == 0),
{
    let v = chars_of(s);
    v.len() == 0
}

proof fn lemma_trim_start_step(s: Seq<char>, a: int)
    requires
        0 <= a < s.len(),
        is_ws(s[a]),
    ensures
        trim_start(s.skip(a)) == trim_start(s.skip(a + 1)),
{
    assert(s.skip(a).drop_first() =~= s.skip(a + 1));
}

proof fn lemma_trim_end_step(s: Seq<char>, a: int, b: int)
    requires
        0 <= a < b <= s.len(),
        is_ws(s[b - 1]),
    ensures
        trim_end(s.subrange(a, b)) == trim_end(s.subrange(a, b - 1)),
{
    assert(s.subrange(a, b).drop_last() =~= s.subrange(a, b - 1));
}

/// `str::trim`.
pub fn trim_str(s: &str) -> (r: String)
    ensures
        r@ == trim(s@),
{
    let v = chars_of(s);
    let mut a: usize = 0;
    assert(v@.skip(0) =~= v@);
    while a < v.len() && is_whitespace(v[a])
        invariant
            a <= v.len(),
            trim_start(v@) == trim_start(v@.skip(a as int)),
        decreases v.len() - a,
    {
        proof {
            lemma_trim_start_step(v@, a as int);
        }
        a = a + 1;
    }
    assert(trim_start(v@) == v@.skip(a as int)) by {
        if a == v.len() {
            assert(v@.skip(a as int).len() == 0);
        }
    }
    assert(v@.skip(a as int) =~= v@.subrange(a as int, v.len() as int));
    let mut b: usize = v.len();
    while b > a && is_whitespace(v[b - 1])
        invariant
            a <= b <= v.len(),
            trim_end(v@.subrange(a as int, v.len() as int)) == trim_end(
                v@.subrange(a as int, b as int),
            ),
        decreases b,
    {
        proof {
            lemma_trim_end_step(v@, a as int, b as int);
        }
        b = b - 1;
    }
    assert(trim_end(v@.subrange(a as int, b as int)) == v@.subrange(a as int, b as int)) by {
        if b == a {
            assert(v@.subrange(a as int, b as int).len() == 0);
        } else {
            assert(v@.subrange(a as int, b as int).last() == v@[b - 1]);
        }
    }
    string_from(&v, a, b)
}

/// Whether `p` occurs in `v` at `i`.
fn occurs_at_exec(v: &Vec<char>, p: &Vec<char>, i: usize) -> (r: bool)
    requires
        i + p.len() <= v.len(),
    ensures
        r == occurs_at(v@, p@, i as int),
{
    let mut k: usize = 0;
    while k < p.len()
        invariant
            i + p.len() <= v.len(),
            k <= p.len(),
            forall|j: int| 0 <= j < k ==> v@[i + j] == p@[j],
        decreases p.len() - k,
    {
        if v[i + k] != p[k] {
            assert(v@.subrange(i as int, i + p.len())[k as int] != p@[k as int]);
            return false;
        }
        k = k + 1;
    }
    assert(v@.subrange(i as int, i + p.len()) =~= p@);
    true
}

/// `str::contains` with a string pattern.
pub fn contains_str(s: &str, p: &str) -> (r: bool)
    ensures
        r == contains(s@, p@),
{
    let v = chars_of(s);
    let q = chars_of(p);
    if q.len() > v.len() {
        assert(forall|i: int| !occurs_at(v@, q@, i));
        return false;
    }
    if q.len() == 0 {
        assert(v@.subrange(0, 0) =~= q@);
        assert(occurs_at(v@, q@, 0));
        return true;
    }
    let mut i: usize = 0;
    while i <= v.len() - q.len()
        invariant
            v@ == s@,
            q@ == p@,
            0 < q.len() <= v.len(),
            i <= v.len() - q.len() + 1,
            forall|j: int| 0 <= j < i ==> !occurs_at(v@, q@, j),
        decreases v.len() - i,
    {
        if occurs_at_exec(&v, &q, i) {
            assert(occurs_at(v@, q@, i as int));
            return true;
        }
        i = i + 1;
    }
    assert forall|j: int| !occurs_at(v@, q@, j) by {
        if 0 <= j && j >= i {
        }
    }
    false
}

/// `str::starts_with` with a string pattern.
pub fn starts_with_str(s: &str, p: &str) -> (r: bool)
    ensures
        r == starts_with(s@, p@),
{
    let v = chars_of(s);
    let q = chars_of(p);
    if q.len() > v.len() {
        return false;
    }
    let r = occurs_at_exec(&v, &q, 0);
    assert(v@.subrange(0, q@.len() as int) =~= v@.take(q@.len() as int));
    r
}

/// `str::ends_with` with a string pattern.
pub fn ends_with_str(s: &str, p: &str) -> (r: bool)
    ensures
        r == ends_with(s@, p@),
{
    let v = chars_of(s);
    let q = chars_of(p);
    if q.len() > v.len() {
        return false;
    }
    let r = occurs_at_exec(&v, &q, v.len() - q.len());
    assert(v@.subrange((v.len() - q.len()) as int, v.len() as int) =~= v@.skip(
        v@.len() - q@.len(),
    ));
    r
}

proof fn lemma_count_until_step(s: Seq<char>, j: int, c: char)
    requires
        0 <= j < s.len(),
        s[j] != c,
    ensures
        count_until(s.skip(j), c) == 1 + count_until(s.skip(j + 1), c),
{
    assert(s.skip(j).drop_first() =~= s.skip(j + 1));
}

/// The index of the first `c` at or after `from`, or `v.len()`.
pub fn find_char_from(v: &Vec<char>, from: usize, c: char) -> (k: usize)
    requires
        from <= v.len(),
    ensures
        from <= k <= v.len(),
        k - from == count_until(v@.skip(from as int), c),
{
    let mut k = from;
    while k < v.len() && v[k] != c
        invariant
            from <= k <= v.len(),
            count_until(v@.skip(from as int), c) == (k - from) + count_until(
                v@.skip(k as int),
                c,
            ),
        decreases v.len() - k,
    {
        proof {
            lemma_count_until_step(v@, k as int, c);
        }
        k = k + 1;
    }
    k
}

/// `str::split` on a char.
pub fn split_char(s: &str, c: char) -> (r: Vec<String>)
    ensures
        views(r@) == split_on(s@, c),
        r.len() >= 1,
{
    let v = chars_of(s);
    let mut out: Vec<String> = Vec::new();
    let mut i: usize = 0;
    assert(v@.skip(0) =~= v@);
    assert(views(out@) =~= Seq::<Seq<char>>::empty());
    loop
        invariant
            v@ == s@,
            i <= v.len(),
            views(out@) + split_on(v@.skip(i as int), c) == split_on(v@, c),
        decreases v.len() - i,
    {
        let k = find_char_from(&v, i, c);
        let piece = string_from(&v, i, k);
        let ghost rest = v@.skip(i as int);
        assert(piece@ == rest.take((k - i) as int));
        let ghost before = views(out@);
        out.push(piece);
        assert(views(out@) =~= before.push(piece@));
        if k == v.len() {
            assert(rest.take((k - i) as int) =~= rest);
            assert(split_on(rest, c) == seq![rest]);
            assert(views(out@) =~= before + split_on(rest, c));
            assert(v@.skip(0) =~= v@);
            assert(views(out@).len() == out.len());
            return out;
        }
        assert(rest.skip(k - i + 1) =~= v@.skip(k + 1));
        assert(split_on(rest, c) == seq![rest.take((k - i) as int)] + split_on(
            rest.skip(k - i + 1),
            c,
        ));
        assert(views(out@) + split_on(v@.skip(k + 1), c) =~= before + split_on(rest, c));
        i = k + 1;
    }
}

/// `str::lines`.
pub fn lines_of(s: &str) -> (r: Vec<String>)
    ensures
        views(r@) == lines(s@),
{
    let v = chars_of(s);
    let mut out: Vec<String> = Vec::new();
    let mut i: usize = 0;
    assert(v@.skip(0) =~= v@);
    assert(views(out@) =~= Seq::<Seq<char>>::empty());
    while i < v.len()
        invariant
            v@ == s@,
            i <= v.len(),
            views(out@) + lines(v@.skip(i as int)) == lines(v@),
        decreases v.len() - i,
    {
        let k = find_char_from(&v, i, '\n');
        let ghost rest = v@.skip(i as int);
        let ghost before = views(out@);
        if k == v.len() {
            let piece = string_from(&v, i, k);
            assert(piece@ =~= rest);
            out.push(piece);
            assert(views(out@) =~= before.push(piece@));
            assert(lines(rest) == seq![rest]);
            assert(v@.skip(k as int) =~= Seq::<char>::empty());
            assert(views(out@) + lines(v@.skip(k as int)) =~= before + lines(rest));
            i = k;
        } else {
            let mut e = k;
            if e > i && v[e - 1] == '\r' {
                e = e - 1;
            }
            let piece = string_from(&v, i, e);
            assert(piece@ =~= strip_cr(rest.take((k - i) as int)));
            out.push(piece);
            assert(views(out@) =~= before.push(piece@));
            assert(rest.skip(k - i + 1) =~= v@.skip(k + 1));
            assert(lines(rest) == seq![strip_cr(rest.take((k - i) as int))] + lines(
                rest.skip(k - i + 1),
            ));
            assert(views(out@) + lines(v@.skip(k + 1)) =~= before + lines(rest));
            i = k + 1;
        }
    }
    assert(v@.skip(i as int) =~= Seq::<char>::empty());
    assert(views(out@) + lines(v@.skip(i as int)) =~= views(out@));
    out
}

proof fn lemma_words_ws_step(s: Seq<char>, a: int)
    requires
        0 <= a < s.len(),
        is_ws(s[a]),
    ensures
        words(s.skip(a)) == words(s.skip(a + 1)),
{
    lemma_trim_start_step(s, a);
}

proof fn lemma_word_len_step(s: Seq<char>, j: int)
    requires
        0 <= j < s.len(),
        !is_ws(s[j]),
    ensures
        word_len(s.skip(j)) == 1 + word_len(s.skip(j + 1)),
{
    assert(s.skip(j).drop_first() =~= s.skip(j + 1));
}

/// `str::split_whitespace`.
pub fn split_whitespace(s: &str) -> (r: Vec<String>)
    ensures
        views(r@) == words(s@),
{
    let v = chars_of(s);
    let mut out: Vec<String> = Vec::new();
    let mut i: usize = 0;
    assert(v@.skip(0) =~= v@);
    assert(views(out@) =~= Seq::<Seq<char>>::empty());
    loop
        invariant
            v@ == s@,
            i <= v.len(),
            views(out@) + words(v@.skip(i as int)) == words(v@),
        decreases v.len() - i,
    {
        let ghost i0 = i;
        while i < v.len() && is_whitespace(v[i])
            invariant
                v@ == s@,
                i0 <= i <= v.len(),
                views(out@) + words(v@.skip(i as int)) == words(v@),
            decreases v.len() - i,
        {
            proof {
                lemma_words_ws_step(v@, i as int);
            }
            i = i + 1;
        }
        if i == v.len() {
            assert(v@.skip(i as int) =~= Seq::<char>::empty());
            assert(words(v@.skip(i as int)) =~= Seq::<Seq<char>>::empty());
            assert(views(out@) + words(v@.skip(i as int)) =~= views(out@));
            return out;
        }
        let ghost rest = v@.skip(i as int);
        assert(trim_start(rest) == rest);
        let mut j = i;
        while j < v.len() && !is_whitespace(v[j])
            invariant
                i < v.len(),
                !is_ws(v@[i as int]),
                j == i || i < j,
                i <= j <= v.len(),
                rest == v@.skip(i as int),
                word_len(rest) == (j - i) + word_len(v@.skip(j as int)),
            decreases v.len() - j,
        {
            proof {
                lemma_word_len_step(v@, j as int);
            }
            j = j + 1;
        }
        assert(word_len(v@.skip(j as int)) == 0);
        assert(j > i);
        let piece = string_from(&v, i, j);
        assert(piece@ =~= rest.take((j - i) as int));
        let ghost before = views(out@);
        out.push(piece);
        assert(views(out@) =~= before.push(piece@));
        assert(rest.skip((j - i) as int) =~= v@.skip(j as int));
        assert(words(rest) == seq![rest.take((j - i) as int)] + words(
            rest.skip((j - i) as int),
        ));
        assert(views(out@) + words(v@.skip(j as int)) =~= before + words(rest));
        i = j;
    }
}

/// `[String]::join`.
pub fn join_strings(parts: &Vec<String>, sep: &str) -> (r: String)
    ensures
        r@ == join(views(parts@), sep@),
{
    if parts.len() == 0 {
        return String::new();
    }
    let mut out = parts[0].clone();
    let mut i: usize = 1;
    assert(views(parts@).take(1) =~= seq![parts@[0]@]);
    while i < parts.len()
        invariant
            1 <= i <= parts.len(),
            out@ == join(views(parts@).take(i as int), sep@),
        decreases parts.len() - i,
    {
        out.append(sep);
        out.append(parts[i].as_str());
        assert(views(parts@).take(i + 1).drop_last() =~= views(parts@).take(i as int));
        i = i + 1;
    }
    assert(views(parts@).take(i as int) =~= views(parts@));
    out
}

fn digit(d: u64) -> (c: char)
    requires
        d < 10,
    ensures
        c == digit_char(d as nat),
{
    ((d as u8) + 48) as char
}

/// The decimal text of `n` (`u64::to_string`).
pub fn decimal_string(n: u64) -> (r: String)
    ensures
        r@ == decimal(n as nat),
    decreases n,
{
    if n < 10 {
        let mut s = String::new();
        s.push(digit(n));
        assert(s@ =~= seq![digit_char(n as nat)]);
        s
    } else {
        let mut s = decimal_string(n / 10);
        s.push(digit(n % 10));
        s
    }
}

proof fn lemma_digits_value_prefix(d: Seq<char>, k: int)
    requires
        0 <= k <= d.len(),
    ensures
        digits_value(d.take(k)) <= digits_value(d),
    decreases d.len(),
{
    if k < d.len() {
        lemma_digits_value_prefix(d.drop_last(), k);
        assert(d.drop_last().take(k) =~= d.take(k));
    } else {
        assert(d.take(k) =~= d);
    }
}

/// `str::parse` into an unsigned integer type whose largest value is `max`.
pub fn parse_unsigned_str(s: &str, max: u64) -> (r: Option<u64>)
    ensures
        match parse_unsigned(s@, max as nat) {
            Some(n) => r == Some(n as u64),
            None => r is None,
        },
{
    let v = chars_of(s);
    let start: usize = if v.len() > 0 && v[0] == '+' {
        1
    } else {
        0
    };
    let ghost d = unsigned_digits(v@);
    assert(d =~= v@.skip(start as int));
    if start == v.len() {
        return None;
    }
    let mut acc: u64 = 0;
    let mut i: usize = start;
    assert(d.take(0) =~= Seq::<char>::empty());
    while i < v.len()
        invariant
            v@ == s@,
            start <= i <= v.len(),
            d == v@.skip(start as int),
            d == unsigned_digits(s@),
            acc as nat == digits_value(d.take(i - start)),
            acc <= max,
            forall|k: int| 0 <= k < i - start ==> is_digit(#[trigger] d[k]),
        decreases v.len() - i,
    {
        let c = v[i];
        if !('0' <= c && c <= '9') {
            assert(!is_digit(d[i - start]));
            assert(parse_unsigned(s@, max as nat) is None);
            return None;
        }
        let dv: u64 = (c as u64) - 48;
        let next: u128 = (acc as u128) * 10 + (dv as u128);
        assert(d.take(i - start + 1).drop_last() =~= d.take(i - start));
        assert(digits_value(d.take(i - start + 1)) == next);
        if next > max as u128 {
            proof {
                lemma_digits_value_prefix(d, i - start + 1);
            }
            assert(parse_unsigned(s@, max as nat) is None);
            return None;
        }
        acc = next as u64;
        i = i + 1;
    }
    assert(d.take(i - start) =~= d);
    Some(acc)
}

/// `s` with every non-overlapping occurrence of `p` (left to right)
/// replaced by `r` (`str::replace` with a non-empty pattern).
pub open spec fn replace_all(s: Seq<char>, p: Seq<char>, r: Seq<char>) -> Seq<char>
    decreases s.len(),
{
    if p.len() == 0 || s.len() < p.len() {
        s
    } else if s.take(p.len() as int) == p {
        r + replace_all(s.skip(p.len() as int), p, r)
    } else {
        seq![s[0]] + replace_all(s.drop_first(), p, r)
    }
}

/// `str::replace` with a non-empty pattern.
pub fn replace_str(s: &str, p: &str, r: &str) -> (out: String)
    requires
        p@.len() > 0,
    ensures
        out@ == replace_all(s@, p@, r@),
{
    let v = chars_of(s);
    let q = chars_of(p);
    let w = chars_of(r);
    let mut out: Vec<char> = Vec::new();
    let mut i: usize = 0;
    assert(v@.skip(0) =~= v@);
    while i < v.len()
        invariant
            v@ == s@,
            q@ == p@,
            w@ == r@,
            q.len() > 0,
            i <= v.len(),
            out@ + replace_all(v@.skip(i as int), q@, w@) == replace_all(v@, q@, w@),
        decreases v.len() - i,
    {
        let ghost rest = v@.skip(i as int);
        let ghost before = out@;
        if q.len() <= v.len() - i && occurs_at_exec(&v, &q, i) {
            assert(rest.take(q@.len() as int) =~= v@.subrange(i as int, i + q@.len()));
            let mut k: usize = 0;
            while k < w.len()
                invariant
                    k <= w.len(),
                    out@ == before + w@.take(k as int),
                decreases w.len() - k,
            {
                out.push(w[k]);
                assert(w@.take(k + 1) =~= w@.take(k as int).push(w@[k as int]));
                k = k + 1;
            }
            assert(w@.take(k as int) =~= w@);
            assert(rest.skip(q@.len() as int) =~= v@.skip(i + q@.len()));
            i = i + q.len();
        } else {
            proof {
                if q.len() <= v.len() - i {
                    assert(rest.take(q@.len() as int) =~= v@.subrange(i as int, i + q@.len()));
                } else {
                    assert(replace_all(rest, q@, w@) == rest);
                    assert(replace_all(rest.drop_first(), q@, w@) == rest.drop_first());
                    assert(rest =~= seq![rest[0]] + rest.drop_first());
                }
            }
            out.push(v[i]);
            assert(rest.drop_first() =~= v@.skip(i + 1));
            assert(out@ + replace_all(v@.skip(i + 1), q@, w@) =~= before + replace_all(
                rest,
                q@,
                w@,
            ));
            i = i + 1;
        }
    }
    assert(v@.skip(i as int) =~= Seq::<char>::empty());
    assert(out@ + replace_all(v@.skip(i as int), q@, w@) =~= out@);
    string_of(&out)
}

/// What `str::to_lowercase` gives for a string: its Unicode lowercase
/// mapping (which, for a final sigma, looks at the neighbouring characters).
pub uninterp spec fn lowercase(s: Seq<char>) -> Seq<char>;

/// What `str::to_uppercase` gives for a string: its Unicode uppercase
/// mapping.
pub uninterp spec fn uppercase(s: Seq<char>) -> Seq<char>;

/// Calls `str::to_lowercase`; its result is `lowercase` of the argument.
#[verifier::external_body]
pub(crate) fn to_lowercase(s: &str) -> (r: String)
    ensures
        r@ == lowercase(s@),
{
    s.to_lowercase()
}

/// Calls `str::to_uppercase`; its result is `uppercase` of the argument.
#[verifier::external_body]
pub(crate) fn to_uppercase(s: &str) -> (r: String)
    ensures
        r@ == uppercase(s@),
{
    s.to_uppercase()
}

/// `s` with every leading copy of `p` removed (`str::trim_start_matches`).
pub open spec fn strip_prefixes(s: Seq<char>, p: Seq<char>) -> Seq<char>
    decreases s.len(),
{
    if p.len() > 0 && starts_with(s, p) {
        strip_prefixes(s.skip(p.len() as int), p)
    } else {
        s
    }
}

/// `str::trim_start_matches` with a string pattern.
pub fn strip_prefixes_str(s: &str, p: &str) -> (r: String)
    ensures
        r@ == strip_prefixes(s@, p@),
{
    let v = chars_of(s);
    let q = chars_of(p);
    if q.len() == 0 {
        return String::from_str(s);
    }
    let mut i: usize = 0;
    assert(v@.skip(0) =~= v@);
    while q.len() <= v.len() - i && occurs_at_exec(&v, &q, i)
        invariant
            v@ == s@,
            q@ == p@,
            q.len() > 0,
            i <= v.len(),
            strip_prefixes(v@, q@) == strip_prefixes(v@.skip(i as int), q@),
        decreases v.len() - i,
    {
        assert(v@.skip(i as int).take(q@.len() as int) =~= v@.subrange(i as int, i + q@.len()));
        assert(v@.skip(i as int).skip(q@.len() as int) =~= v@.skip(i + q@.len()));
        i = i + q.len();
    }
    proof {
        if q.len() <= v.len() - i {
            assert(v@.skip(i as int).take(q@.len() as int) =~= v@.subrange(
                i as int,
                i + q@.len(),
            ));
        }
    }
    assert(v@.skip(i as int) =~= v@.subrange(i as int, v.len() as int));
    string_from(&v, i, v.len())
}


proof fn lemma_digit_char(d: nat)
    requires
        d < 10,
    ensures
        is_digit(digit_char(d)),
        digit_value(digit_char(d)) == d,
{
    let b = (d + 48) as u8;
    assert(b == d + 48);
    let c = b as char;
    assert(c as int == b as int);
}

/// The decimal text of a number is a run of digits that reads back as the
/// number.
pub proof fn lemma_decimal_digits(n: nat)
    ensures
        decimal(n).len() > 0,
        forall|i: int| 0 <= i < decimal(n).len() ==> is_digit(#[trigger] decimal(n)[i]),
        digits_value(decimal(n)) == n,
    decreases n,
{
    if n < 10 {
        lemma_digit_char(n);
        assert(decimal(n) == seq![digit_char(n)]);
        assert(decimal(n).drop_last() =~= Seq::<char>::empty());
        assert(digits_value(Seq::<char>::empty()) == 0);
        assert(digits_value(decimal(n)) == digits_value(decimal(n).drop_last()) * 10 + digit_value(
            decimal(n).last(),
        ));
    } else {
        lemma_digit_char(n % 10);
        lemma_decimal_digits(n / 10);
        let d = decimal(n / 10).push(digit_char(n % 10));
        assert(decimal(n) == d);
        assert(d.drop_last() =~= decimal(n / 10));
        assert(forall|i: int| 0 <= i < d.len() - 1 ==> d[i] == decimal(n / 10)[i]);
        assert((n / 10) * 10 + n % 10 == n) by (nonlinear_arith);
        assert(d.last() == digit_char(n % 10));
        assert(digits_value(d) == digits_value(d.drop_last()) * 10 + digit_value(d.last()));
        assert(digits_value(d) == (n / 10) * 10 + n % 10);
    }
}

/// `str::parse` reads the decimal text of a number that fits back as the
/// number.
pub proof fn law_parse_decimal(n: nat, max: nat)
    requires
        n <= max,
    ensures
        parse_unsigned(decimal(n), max) == Some(n),
{
    lemma_decimal_digits(n);
    assert(is_digit(decimal(n)[0]));
    assert(unsigned_digits(decimal(n)) == decimal(n));
}

} // verus!
