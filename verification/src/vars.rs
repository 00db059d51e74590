//! Named template variables and `{name}` substitution.
use vstd::prelude::*;
use crate::text;

verus! {

/// A map from variable names to values, kept as a list of pairs whose names
/// are all different.
pub struct VarMap {
    entries: Vec<(String, String)>,
}

/// The map that a list of pairs stands for; a later pair wins over an
/// earlier one with the same name.
pub open spec fn pairs_map(s: Seq<(String, String)>) -> Map<Seq<char>, Seq<char>>
    decreases s.len(),
{
    if s.len() == 0 {
        Map::empty()
    } else {
        pairs_map(s.drop_last()).insert(s.last().0@, s.last().1@)
    }
}

pub open spec fn distinct_names(s: Seq<(String, String)>) -> bool {
    forall|i: int, j: int| 0 <= i < s.len() && 0 <= j < s.len() && i != j ==> s[i].0@ != s[j].0@
}

proof fn lemma_pairs_map_absent(s: Seq<(String, String)>, k: Seq<char>)
    requires
        forall|i: int| 0 <= i < s.len() ==> s[i].0@ != k,
    ensures
        !pairs_map(s).contains_key(k),
    decreases s.len(),
{
    if s.len() > 0 {
        lemma_pairs_map_absent(s.drop_last(), k);
    }
}

proof fn lemma_pairs_map_at(s: Seq<(String, String)>, i: int)
    requires
        0 <= i < s.len(),
        forall|j: int| i < j < s.len() ==> s[j].0@ != s[i].0@,
    ensures
        pairs_map(s).contains_key(s[i].0@),
        pairs_map(s)[s[i].0@] == s[i].1@,
    decreases s.len(),
{
    if i < s.len() - 1 {
        lemma_pairs_map_at(s.drop_last(), i);
    }
}

proof fn lemma_pairs_map_update(s: Seq<(String, String)>, i: int, p: (String, String))
    requires
        0 <= i < s.len(),
        distinct_names(s),
        p.0@ == s[i].0@,
    ensures
        pairs_map(s.update(i, p)) == pairs_map(s).insert(p.0@, p.1@),
    decreases s.len(),
{
    if i == s.len() - 1 {
        assert(s.update(i, p).drop_last() =~= s.drop_last());
        assert(pairs_map(s.update(i, p)) =~= pairs_map(s).insert(p.0@, p.1@));
    } else {
        lemma_pairs_map_update(s.drop_last(), i, p);
        assert(s.update(i, p).drop_last() =~= s.drop_last().update(i, p));
        assert(s.last().0@ != p.0@);
        assert(pairs_map(s.update(i, p)) =~= pairs_map(s).insert(p.0@, p.1@));
    }
}

impl View for VarMap {
    type V = Map<Seq<char>, Seq<char>>;

    closed spec fn view(&self) -> Map<Seq<char>, Seq<char>> {
        pairs_map(self.entries@)
    }
}

impl VarMap {
    /// No name occurs twice.
    #[verifier::type_invariant]
    spec fn wf(&self) -> bool {
        distinct_names(self.entries@)
    }

    pub fn new() -> (m: Self)
        ensures
            m@ == Map::<Seq<char>, Seq<char>>::empty(),
    {
        VarMap { entries: Vec::new() }
    }

    /// The index of the pair named `name`.
    fn find(&self, name: &str) -> (r: Option<usize>)
        ensures
            match r {
                Some(i) => i < self.entries.len() && self.entries@[i as int].0@ == name@,
                None => forall|i: int|
                    0 <= i < self.entries.len() ==> self.entries@[i].0@ != name@,
            },
    {
        proof {
            use_type_invariant(self);
        }
        let mut i: usize = 0;
        while i < self.entries.len()
            invariant
                i <= self.entries.len(),
                forall|j: int| 0 <= j < i ==> self.entries@[j].0@ != name@,
            decreases self.entries.len() - i,
        {
            if text::str_eq(self.entries[i].0.as_str(), name) {
                return Some(i);
            }
            i = i + 1;
        }
        None
    }

    /// The value named `name` (`HashMap::get`).
    pub fn get(&self, name: &str) -> (r: Option<String>)
        ensures
            match r {
                Some(v) => self@.contains_key(name@) && v@ == self@[name@],
                None => !self@.contains_key(name@),
            },
    {
        proof {
            use_type_invariant(self);
        }
        match self.find(name) {
            Some(i) => {
                proof {
                    lemma_pairs_map_at(self.entries@, i as int);
                }
                Some(self.entries[i].1.clone())
            },
            None => {
                proof {
                    lemma_pairs_map_absent(self.entries@, name@);
                }
                None
            },
        }
    }

    /// Sets `name` to `value`, replacing an earlier value (`HashMap::insert`).
    pub fn insert(&mut self, name: String, value: String)
        ensures
            final(self)@ == old(self)@.insert(name@, value@),
    {
        proof {
            use_type_invariant(&*self);
        }
        match self.find(name.as_str()) {
            Some(i) => {
                let ghost p = (name, value);
                proof {
                    lemma_pairs_map_update(self.entries@, i as int, p);
                }
                let mut entries: Vec<(String, String)> = Vec::new();
                std::mem::swap(&mut entries, &mut self.entries);
                entries.set(i, (name, value));
                assert(distinct_names(entries@));
                self.entries = entries;
            },
            None => {
                let ghost before = self.entries@;
                let mut entries: Vec<(String, String)> = Vec::new();
                std::mem::swap(&mut entries, &mut self.entries);
                entries.push((name, value));
                assert(entries@.drop_last() =~= before);
                assert(distinct_names(entries@));
                self.entries = entries;
            },
        }
    }

    /// Sets every name of `other` to its value there (`HashMap::extend`).
    pub fn extend(&mut self, other: &VarMap)
        ensures
            final(self)@ == old(self)@.union_prefer_right(other@),
    {
        let mut i: usize = 0;
        let ghost start = self@;
        assert(other.entries@.take(0) =~= Seq::<(String, String)>::empty());
        assert(start.union_prefer_right(pairs_map(other.entries@.take(0))) =~= start);
        while i < other.entries.len()
            invariant
                i <= other.entries.len(),
                self@ == start.union_prefer_right(pairs_map(other.entries@.take(i as int))),
            decreases other.entries.len() - i,
        {
            let name = other.entries[i].0.clone();
            let value = other.entries[i].1.clone();
            self.insert(name, value);
            assert(other.entries@.take(i + 1).drop_last() =~= other.entries@.take(i as int));
            assert(self@ =~= start.union_prefer_right(pairs_map(other.entries@.take(i + 1))));
            i = i + 1;
        }
        assert(other.entries@.take(i as int) =~= other.entries@);
    }

    /// The pairs, in the order in which the names were first set.
    pub fn to_pairs(&self) -> (r: Vec<(String, String)>)
        ensures
            distinct_names(r@),
            pairs_map(r@) == self@,
    {
        proof {
            use_type_invariant(self);
        }
        let mut out: Vec<(String, String)> = Vec::new();
        let mut i: usize = 0;
        while i < self.entries.len()
            invariant
                distinct_names(self.entries@),
                i <= self.entries.len(),
                out.len() == i,
                forall|j: int|
                    0 <= j < i ==> #[trigger] out@[j].0@ == self.entries@[j].0@ && out@[j].1@
                        == self.entries@[j].1@,
            decreases self.entries.len() - i,
        {
            out.push((self.entries[i].0.clone(), self.entries[i].1.clone()));
            i = i + 1;
        }
        proof {
            lemma_pairs_map_views(out@, self.entries@);
        }
        out
    }

    /// Builds a map from pairs; a later pair wins over an earlier one with the
    /// same name.
    pub fn from_pairs(pairs: Vec<(String, String)>) -> (m: Self)
        ensures
            m@ == pairs_map(pairs@),
    {
        let mut m = VarMap::new();
        let mut i: usize = 0;
        assert(pairs@.take(0) =~= Seq::<(String, String)>::empty());
        while i < pairs.len()
            invariant
                i <= pairs.len(),
                m@ == pairs_map(pairs@.take(i as int)),
            decreases pairs.len() - i,
        {
            m.insert(pairs[i].0.clone(), pairs[i].1.clone());
            assert(pairs@.take(i + 1).drop_last() =~= pairs@.take(i as int));
            i = i + 1;
        }
        assert(pairs@.take(i as int) =~= pairs@);
        m
    }
}

proof fn lemma_pairs_map_views(a: Seq<(String, String)>, b: Seq<(String, String)>)
    requires
        a.len() == b.len(),
        forall|j: int| 0 <= j < a.len() ==> #[trigger] a[j].0@ == b[j].0@ && a[j].1@ == b[j].1@,
    ensures
        pairs_map(a) == pairs_map(b),
    decreases a.len(),
{
    if a.len() > 0 {
        lemma_pairs_map_views(a.drop_last(), b.drop_last());
        assert(a.last().0@ == b.last().0@);
    }
}

impl VarMap {
}

/// `s` with each `{name}` whose name is set in `vars` replaced by its value.
/// A `{` is matched with the first `}` after it; a `{` without one, or whose
/// name is not set, stays as it is and scanning goes on after it.
pub open spec fn subst(s: Seq<char>, vars: Map<Seq<char>, Seq<char>>) -> Seq<char>
    decreases s.len(),
{
    if s.len() == 0 {
        Seq::empty()
    } else {
        let e = text::count_until(s, '}');
        if s[0] == '{' && e < s.len() && vars.contains_key(s.subrange(1, e as int)) {
            proof {
                text::lemma_count_until_le(s, '}');
            }
            vars[s.subrange(1, e as int)] + subst(s.skip(e + 1 as int), vars)
        } else {
            seq![s[0]] + subst(s.drop_first(), vars)
        }
    }
}

/// `input` with its `{name}` placeholders replaced.
pub fn subst_str(input: &str, vars: &VarMap) -> (r: String)
    ensures
        r@ == subst(input@, vars@),
{
    let v = text::chars_of(input);
    let mut out: Vec<char> = Vec::new();
    let mut i: usize = 0;
    assert(v@.skip(0) =~= v@);
    while i < v.len()
        invariant
            v@ == input@,
            i <= v.len(),
            out@ + subst(v@.skip(i as int), vars@) == subst(v@, vars@),
        decreases v.len() - i,
    {
        let ghost rest = v@.skip(i as int);
        let ghost before = out@;
        let mut done = false;
        if v[i] == '{' {
            let e = text::find_char_from(&v, i, '}');
            if e < v.len() {
                let key = text::string_from(&v, i + 1, e);
                assert(key@ =~= rest.subrange(1, (e - i) as int));
                match vars.get(key.as_str()) {
                    Some(val) => {
                        let w = text::chars_of(val.as_str());
                        let mut k: usize = 0;
                        while k < w.len()
                            invariant
                                k <= w.len(),
                                out@ == before + w@.take(k as int),
                            decreases w.len() - k,
                        {
                            out.push(w[k]);
                            assert(w@.take(k + 1) =~= w@.take(k as int).push(w@[k as int]));
                            k = k + 1;
                        }
                        assert(w@.take(k as int) =~= w@);
                        assert(rest.skip(e - i + 1) =~= v@.skip(e + 1));
                        i = e + 1;
                        done = true;
                    },
                    None => {},
                }
            }
        }
        if !done {
            out.push(v[i]);
            assert(rest.drop_first() =~= v@.skip(i + 1));
            assert(out@ + subst(v@.skip(i + 1), vars@) =~= before + subst(rest, vars@));
            i = i + 1;
        }
    }
    assert(v@.skip(i as int) =~= Seq::<char>::empty());
    assert(out@ + subst(v@.skip(i as int), vars@) =~= out@);
    text::string_of(&out)
}

/// Each of `args` with its placeholders replaced.
pub fn subst_args(args: &Vec<String>, vars: &VarMap) -> (r: Vec<String>)
    ensures
        r.len() == args.len(),
        forall|i: int| 0 <= i < args.len() ==> #[trigger] r@[i]@ == subst(args@[i]@, vars@),
{
    let mut out: Vec<String> = Vec::new();
    let mut i: usize = 0;
    while i < args.len()
        invariant
            i <= args.len(),
            out.len() == i,
            forall|j: int| 0 <= j < i ==> #[trigger] out@[j]@ == subst(args@[j]@, vars@),
        decreases args.len() - i,
    {
        out.push(subst_str(args[i].as_str(), vars));
        i = i + 1;
    }
    out
}

/// Substitution with no variable set changes nothing.
pub proof fn law_subst_without_vars(s: Seq<char>)
    ensures
        subst(s, Map::empty()) == s,
    decreases s.len(),
{
    if s.len() > 0 {
        law_subst_without_vars(s.drop_first());
        assert(s =~= seq![s[0]] + s.drop_first());
    }
}

/// Text without `{` is left as it is.
pub proof fn law_subst_plain_text(s: Seq<char>, vars: Map<Seq<char>, Seq<char>>)
    requires
        forall|i: int| 0 <= i < s.len() ==> s[i] != '{',
    ensures
        subst(s, vars) == s,
    decreases s.len(),
{
    if s.len() > 0 {
        law_subst_plain_text(s.drop_first(), vars);
        assert(s =~= seq![s[0]] + s.drop_first());
    }
}

/// A placeholder that makes up the whole text is replaced by the value of
/// its variable.
pub proof fn law_subst_placeholder(name: Seq<char>, vars: Map<Seq<char>, Seq<char>>)
    requires
        vars.contains_key(name),
        forall|i: int| 0 <= i < name.len() ==> name[i] != '}',
    ensures
        subst(seq!['{'] + name + seq!['}'], vars) == vars[name],
{
    let s = seq!['{'] + name + seq!['}'];
    assert(s.drop_first() =~= name + seq!['}']);
    lemma_count_until_prefix(name, '}');
    assert(text::count_until(s, '}') == name.len() + 1);
    assert(s.subrange(1, name.len() + 1 as int) =~= name);
    assert(s.skip(name.len() + 2 as int) =~= Seq::<char>::empty());
    assert(subst(Seq::<char>::empty(), vars) == Seq::<char>::empty());
    assert(s[0] == '{');
    assert(subst(s, vars) == vars[name] + subst(s.skip(name.len() + 2 as int), vars));
    assert(vars[name] + Seq::<char>::empty() =~= vars[name]);
}

proof fn lemma_count_until_prefix(name: Seq<char>, c: char)
    requires
        forall|i: int| 0 <= i < name.len() ==> name[i] != c,
    ensures
        text::count_until(name + seq![c], c) == name.len(),
    decreases name.len(),
{
    if name.len() > 0 {
        lemma_count_until_prefix(name.drop_first(), c);
        assert((name + seq![c]).drop_first() =~= name.drop_first() + seq![c]);
    } else {
        assert((name + seq![c])[0] == c);
    }
}

/// A value set with `insert` is what `get` then gives for that name, and
/// other names keep their values.
pub proof fn law_read_after_write(
    m: Map<Seq<char>, Seq<char>>,
    name: Seq<char>,
    value: Seq<char>,
    other: Seq<char>,
)
    requires
        other != name,
    ensures
        m.insert(name, value).contains_key(name),
        m.insert(name, value)[name] == value,
        m.insert(name, value).contains_key(other) == m.contains_key(other),
        m.contains_key(other) ==> m.insert(name, value)[other] == m[other],
{
}

/// A value captured by one step reaches the next: once the captured
/// variables are merged in (`extend`), a placeholder for a captured name is
/// replaced by the captured value, whatever the variable held before.
pub proof fn law_captured_value_used(
    vars: Map<Seq<char>, Seq<char>>,
    captured: Map<Seq<char>, Seq<char>>,
    name: Seq<char>,
)
    requires
        captured.contains_key(name),
        forall|i: int| 0 <= i < name.len() ==> name[i] != '}',
    ensures
        subst(seq!['{'] + name + seq!['}'], vars.union_prefer_right(captured)) == captured[name],
{
    law_subst_placeholder(name, vars.union_prefer_right(captured));
}


/// Every `{` of `a` has a `}` after it in `a`: no placeholder is left open at
/// the end of `a`.
pub open spec fn closed_braces(a: Seq<char>) -> bool {
    forall|i: int|
        0 <= i < a.len() && a[i] == '{' ==> exists|j: int| i < j < a.len() && #[trigger] a[j] == '}'
}

proof fn lemma_closed_skip(a: Seq<char>, k: int)
    requires
        closed_braces(a),
        0 <= k <= a.len(),
    ensures
        closed_braces(a.skip(k)),
{
    let t = a.skip(k);
    assert forall|i: int| 0 <= i < t.len() && t[i] == '{' implies exists|j: int|
        i < j < t.len() && #[trigger] t[j] == '}' by {
        assert(a[i + k] == '{');
        let j2 = choose|j: int| i + k < j < a.len() && #[trigger] a[j] == '}';
        assert(t[j2 - k] == '}');
    }
}

proof fn lemma_count_until_append(a: Seq<char>, b: Seq<char>, c: char)
    requires
        text::count_until(a, c) < a.len(),
    ensures
        text::count_until(a + b, c) == text::count_until(a, c),
    decreases a.len(),
{
    if a[0] != c {
        assert((a + b).drop_first() =~= a.drop_first() + b);
        lemma_count_until_append(a.drop_first(), b, c);
    }
}

proof fn lemma_count_until_finds(a: Seq<char>, c: char, j: int)
    requires
        0 <= j < a.len(),
        a[j] == c,
    ensures
        text::count_until(a, c) <= j,
    decreases a.len(),
{
    if a[0] != c {
        assert(a.drop_first()[j - 1] == a[j]);
        lemma_count_until_finds(a.drop_first(), c, j - 1);
    }
}

/// Substitution works piece by piece: substituting in `a` followed by `b`
/// gives the substitution of `a` followed by that of `b`, where no
/// placeholder is left open at the end of `a`. So every placeholder of a
/// text is replaced, not only the first.
pub proof fn law_subst_concat(a: Seq<char>, b: Seq<char>, vars: Map<Seq<char>, Seq<char>>)
    requires
        closed_braces(a),
    ensures
        subst(a + b, vars) == subst(a, vars) + subst(b, vars),
    decreases a.len(),
{
    let s = a + b;
    if a.len() == 0 {
        assert(s =~= b);
        assert(subst(a, vars) + subst(b, vars) =~= subst(b, vars));
    } else {
        assert(s[0] == a[0]);
        let e = text::count_until(a, '}');
        text::lemma_count_until_le(a, '}');
        if a[0] == '{' {
            let j = choose|j: int| 0 < j < a.len() && #[trigger] a[j] == '}';
            lemma_count_until_finds(a, '}', j);
            lemma_count_until_append(a, b, '}');
            assert(s.subrange(1, e as int) =~= a.subrange(1, e as int));
            if vars.contains_key(a.subrange(1, e as int)) {
                assert(s.skip(e + 1 as int) =~= a.skip(e + 1 as int) + b);
                lemma_closed_skip(a, e + 1 as int);
                law_subst_concat(a.skip(e + 1 as int), b, vars);
                assert(subst(s, vars) == vars[a.subrange(1, e as int)] + subst(
                    a.skip(e + 1 as int) + b,
                    vars,
                ));
                assert(subst(a, vars) == vars[a.subrange(1, e as int)] + subst(
                    a.skip(e + 1 as int),
                    vars,
                ));
                assert(subst(s, vars) =~= subst(a, vars) + subst(b, vars));
                return;
            }
        }
        assert(s.drop_first() =~= a.drop_first() + b);
        lemma_closed_skip(a, 1);
        assert(a.skip(1) =~= a.drop_first());
        law_subst_concat(a.drop_first(), b, vars);
        if a[0] == '{' && e < a.len() && vars.contains_key(a.subrange(1, e as int)) {
        } else {
            if a[0] == '{' {
                lemma_count_until_append(a, b, '}');
                assert(s.subrange(1, e as int) =~= a.subrange(1, e as int));
            } else {
                assert(s[0] != '{');
            }
            assert(subst(s, vars) == seq![s[0]] + subst(s.drop_first(), vars));
            assert(subst(a, vars) == seq![a[0]] + subst(a.drop_first(), vars));
            assert(subst(s, vars) =~= subst(a, vars) + subst(b, vars));
        }
    }
}

/// Two placeholders in a row are both replaced, each by its variable's
/// value.
pub proof fn law_subst_two_placeholders(
    x: Seq<char>,
    y: Seq<char>,
    vars: Map<Seq<char>, Seq<char>>,
)
    requires
        vars.contains_key(x),
        vars.contains_key(y),
        forall|i: int| 0 <= i < x.len() ==> x[i] != '}',
        forall|i: int| 0 <= i < y.len() ==> y[i] != '}',
    ensures
        subst(seq!['{'] + x + seq!['}'] + seq!['{'] + y + seq!['}'], vars) == vars[x] + vars[y],
{
    let a = seq!['{'] + x + seq!['}'];
    let b = seq!['{'] + y + seq!['}'];
    assert forall|i: int| 0 <= i < a.len() && a[i] == '{' implies exists|j: int|
        i < j < a.len() && #[trigger] a[j] == '}' by {
        assert(a[a.len() - 1] == '}');
    }
    law_subst_concat(a, b, vars);
    law_subst_placeholder(x, vars);
    law_subst_placeholder(y, vars);
    assert(seq!['{'] + x + seq!['}'] + seq!['{'] + y + seq!['}'] =~= a + b);
}

} // verus!
