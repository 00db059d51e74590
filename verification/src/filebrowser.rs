//! The folder picker: its entries, selection and folder-name input.
use vstd::prelude::*;
use crate::menus::{self, Key};
use crate::paths;
use crate::text;

verus! {

/// A directory entry as read from the file system.
pub struct DirEntry {
    pub name: String,
    pub is_dir: bool,
}

/// A row of the picker. Directories are shown with a trailing `/`; the
/// first row is `../` wherever the current folder has a parent.
pub struct BrowserEntry {
    pub name: String,
    pub is_dir: bool,
    pub is_parent: bool,
}

pub open spec fn entry_key(e: DirEntry) -> (Seq<char>, bool) {
    (e.name@, e.is_dir)
}

pub open spec fn entry_keys(s: Seq<DirEntry>) -> Seq<(Seq<char>, bool)> {
    s.map_values(|e: DirEntry| entry_key(e))
}

/// Lexicographic order of names by character, which for valid UTF-8 is the
/// byte order by which `OsString`s compare.
pub open spec fn name_le(a: Seq<char>, b: Seq<char>) -> bool
    decreases a.len(),
{
    if a.len() == 0 {
        true
    } else if b.len() == 0 {
        false
    } else if a[0] != b[0] {
        a[0] < b[0]
    } else {
        name_le(a.drop_first(), b.drop_first())
    }
}

/// The position where `x` goes into `s`: before the first entry whose name
/// is greater, so that entries of equal name keep their order.
pub open spec fn insert_pos(s: Seq<(Seq<char>, bool)>, x: (Seq<char>, bool)) -> int
    decreases s.len(),
{
    if s.len() == 0 || !name_le(s[0].0, x.0) {
        0
    } else {
        1 + insert_pos(s.drop_first(), x)
    }
}

/// The entries ordered by name, stably (`sort_by_key` on the name).
pub open spec fn sort_by_name(s: Seq<(Seq<char>, bool)>) -> Seq<(Seq<char>, bool)>
    decreases s.len(),
{
    if s.len() == 0 {
        s
    } else {
        let t = sort_by_name(s.drop_last());
        t.insert(insert_pos(t, s.last()), s.last())
    }
}

/// Every entry's name is at most the next ones'.
pub open spec fn sorted_by_name(s: Seq<(Seq<char>, bool)>) -> bool {
    forall|i: int, j: int| 0 <= i < j < s.len() ==> name_le(#[trigger] s[i].0, #[trigger] s[j].0)
}

proof fn lemma_name_le_total(a: Seq<char>, b: Seq<char>)
    ensures
        name_le(a, b) || name_le(b, a),
    decreases a.len(),
{
    if a.len() > 0 && b.len() > 0 && a[0] == b[0] {
        lemma_name_le_total(a.drop_first(), b.drop_first());
    }
}

proof fn lemma_name_le_trans(a: Seq<char>, b: Seq<char>, c: Seq<char>)
    requires
        name_le(a, b),
        name_le(b, c),
    ensures
        name_le(a, c),
    decreases a.len(),
{
    if a.len() > 0 && b.len() > 0 && c.len() > 0 && a[0] == b[0] && b[0] == c[0] {
        lemma_name_le_trans(a.drop_first(), b.drop_first(), c.drop_first());
    }
}

proof fn lemma_insert_pos(t: Seq<(Seq<char>, bool)>, x: (Seq<char>, bool))
    ensures
        0 <= insert_pos(t, x) <= t.len(),
        forall|i: int| 0 <= i < insert_pos(t, x) ==> name_le(#[trigger] t[i].0, x.0),
        insert_pos(t, x) < t.len() ==> !name_le(t[insert_pos(t, x)].0, x.0),
    decreases t.len(),
{
    if t.len() > 0 && name_le(t[0].0, x.0) {
        lemma_insert_pos(t.drop_first(), x);
        assert forall|i: int| 0 <= i < insert_pos(t, x) implies name_le(#[trigger] t[i].0, x.0) by {
            if i > 0 {
                assert(t[i] == t.drop_first()[i - 1]);
            }
        }
    }
}

/// Ordering by name leaves the entries ordered by name.
pub proof fn law_sort_orders(s: Seq<(Seq<char>, bool)>)
    ensures
        sorted_by_name(sort_by_name(s)),
    decreases s.len(),
{
    if s.len() > 0 {
        let t = sort_by_name(s.drop_last());
        law_sort_orders(s.drop_last());
        let x = s.last();
        let p = insert_pos(t, x);
        lemma_insert_pos(t, x);
        let r = t.insert(p, x);
        assert(r == sort_by_name(s));
        assert forall|i: int, j: int| 0 <= i < j < r.len() implies name_le(
            #[trigger] r[i].0,
            #[trigger] r[j].0,
        ) by {
            if j < p {
                assert(r[i] == t[i] && r[j] == t[j]);
            } else if j == p {
                assert(r[i] == t[i] && r[j] == x);
            } else if i < p {
                assert(r[i] == t[i] && r[j] == t[j - 1]);
                if i < j - 1 {
                    assert(name_le(t[i].0, t[j - 1].0));
                } 
            } else if i == p {
                assert(r[i] == x && r[j] == t[j - 1]);
                lemma_name_le_total(t[p].0, x.0);
                if p < j - 1 {
                    assert(name_le(t[p].0, t[j - 1].0));
                    lemma_name_le_trans(x.0, t[p].0, t[j - 1].0);
                }
            } else {
                assert(r[i] == t[i - 1] && r[j] == t[j - 1]);
            }
        }
    }
}

/// Ordering by name keeps every entry, as many times as it occurs.
pub proof fn law_sort_keeps_entries(s: Seq<(Seq<char>, bool)>)
    ensures
        sort_by_name(s).to_multiset() == s.to_multiset(),
    decreases s.len(),
{
    broadcast use vstd::seq_lib::to_multiset_insert, vstd::seq_lib::to_multiset_build;

    if s.len() > 0 {
        let t = sort_by_name(s.drop_last());
        law_sort_keeps_entries(s.drop_last());
        lemma_insert_pos(t, s.last());
        assert(s =~= s.drop_last().push(s.last()));
    }
}

pub struct EntryView {
    pub name: Seq<char>,
    pub is_dir: bool,
    pub is_parent: bool,
}

/// The directory rows, named with a trailing `/`.
pub open spec fn dir_rows(s: Seq<(Seq<char>, bool)>) -> Seq<EntryView>
    decreases s.len(),
{
    if s.len() == 0 {
        Seq::empty()
    } else {
        dir_rows(s.drop_last()) + if s.last().1 {
            seq![EntryView { name: s.last().0 + seq!['/'], is_dir: true, is_parent: false }]
        } else {
            Seq::empty()
        }
    }
}

/// The file rows.
pub open spec fn file_rows(s: Seq<(Seq<char>, bool)>) -> Seq<EntryView>
    decreases s.len(),
{
    if s.len() == 0 {
        Seq::empty()
    } else {
        file_rows(s.drop_last()) + if !s.last().1 {
            seq![EntryView { name: s.last().0, is_dir: false, is_parent: false }]
        } else {
            Seq::empty()
        }
    }
}

/// The rows shown for a folder: `../` where it has a parent (on the
/// platform given by `windows`), then its directories, then its files, each
/// group ordered by name.
pub open spec fn rows_for(dir: Seq<char>, listing: Seq<(Seq<char>, bool)>, windows: bool) -> Seq<
    EntryView,
> {
    let sorted = sort_by_name(listing);
    let parent_row = if paths::parent(dir, windows) is Some {
        seq![EntryView { name: "../"@, is_dir: true, is_parent: true }]
    } else {
        Seq::empty()
    };
    parent_row + dir_rows(sorted) + file_rows(sorted)
}

/// What the picker is doing.
#[derive(PartialEq, Eq, Structural, Clone, Copy)]
pub enum InputMode {
    Normal,
    CreatingFolder,
}

pub struct BrowserView {
    pub dir: Seq<char>,
    pub rows: Seq<EntryView>,
    pub selected: Option<usize>,
    pub mode: InputMode,
    pub input: Seq<char>,
    pub error: Option<Seq<char>>,
    /// Whether paths are read as on Windows.
    pub windows: bool,
}

/// The folder picker's state.
pub struct FileBrowser {
    current_dir: String,
    entries: Vec<BrowserEntry>,
    selected: Option<usize>,
    mode: InputMode,
    input_buf: String,
    error_msg: Option<String>,
    windows: bool,
}

/// What the caller has to do after a key.
pub enum BrowserAction {
    /// Nothing.
    Nothing,
    /// Read the current folder again and hand it to `refresh`.
    Reload,
    /// Create this folder (and its parents), then report with
    /// `folder_created` or `folder_failed`.
    CreateFolder(String),
    /// The user picked this folder.
    Confirm(String),
    /// The user cancelled.
    Cancel,
}

pub open spec fn row_view(e: BrowserEntry) -> EntryView {
    EntryView { name: e.name@, is_dir: e.is_dir, is_parent: e.is_parent }
}

pub open spec fn opt_text(o: Option<String>) -> Option<Seq<char>> {
    match o {
        Some(s) => Some(s@),
        None => None,
    }
}

impl View for FileBrowser {
    type V = BrowserView;

    closed spec fn view(&self) -> BrowserView {
        BrowserView {
            dir: self.current_dir@,
            rows: self.entries@.map_values(|e: BrowserEntry| row_view(e)),
            selected: self.selected,
            mode: self.mode,
            input: self.input_buf@,
            error: opt_text(self.error_msg),
            windows: self.windows,
        }
    }
}

/// The selection is a row, and a parent row is shown only for a folder that
/// has a parent.
pub open spec fn browser_ok(v: BrowserView) -> bool {
    &&& (v.selected matches Some(i) ==> i < v.rows.len())
    &&& (forall|i: int| 0 <= i < v.rows.len() && (#[trigger] v.rows[i]).is_parent ==> paths::parent(v.dir, v.windows) is Some)
}

/// The row a folder view selects after a reload: the first one, if any.
pub open spec fn first_row(rows: Seq<EntryView>) -> Option<usize> {
    if rows.len() == 0 {
        None
    } else {
        Some(0)
    }
}

/// The path a row stands for: the parent for `../`, else the row's name
/// without trailing `/` below the current folder.
pub open spec fn row_path(dir: Seq<char>, row: EntryView, windows: bool) -> Seq<char> {
    if row.is_parent {
        match paths::parent(dir, windows) {
            Some(p) => p,
            None => Seq::empty(),
        }
    } else {
        paths::join_path(dir, paths::rtrim_slash(row.name), windows)
    }
}

proof fn lemma_rows_map_insert(s: Seq<DirEntry>, i: int, x: DirEntry)
    requires
        0 <= i <= s.len(),
    ensures
        entry_keys(s.insert(i, x)) == entry_keys(s).insert(i, entry_key(x)),
{
    assert(entry_keys(s.insert(i, x)) =~= entry_keys(s).insert(i, entry_key(x)));
}

fn name_le_exec(a: &str, b: &str) -> (r: bool)
    ensures
        r == name_le(a@, b@),
{
    let x = text::chars_of(a);
    let y = text::chars_of(b);
    let mut i: usize = 0;
    assert(x@.skip(0) =~= x@);
    assert(y@.skip(0) =~= y@);
    while i < x.len() && i < y.len() && x[i] == y[i]
        invariant
            i <= x.len(),
            i <= y.len(),
            x@ == a@,
            y@ == b@,
            name_le(a@, b@) == name_le(x@.skip(i as int), y@.skip(i as int)),
        decreases x.len() - i,
    {
        assert(x@.skip(i as int).drop_first() =~= x@.skip(i + 1));
        assert(y@.skip(i as int).drop_first() =~= y@.skip(i + 1));
        i = i + 1;
    }
    if i == x.len() {
        assert(x@.skip(i as int).len() == 0);
        true
    } else if i == y.len() {
        assert(y@.skip(i as int).len() == 0);
        false
    } else {
        assert(x@.skip(i as int)[0] == x[i as int]);
        assert(y@.skip(i as int)[0] == y[i as int]);
        x[i] < y[i]
    }
}

/// Orders the listing by name, stably.
pub fn sort_entries(listing: Vec<DirEntry>) -> (r: Vec<DirEntry>)
    ensures
        entry_keys(r@) == sort_by_name(entry_keys(listing@)),
{
    let ghost keys = entry_keys(listing@);
    let mut out: Vec<DirEntry> = Vec::new();
    let mut rest = listing;
    let mut i: usize = 0;
    let n = rest.len();
    assert(keys.take(0) =~= Seq::<(Seq<char>, bool)>::empty());
    assert(entry_keys(out@) =~= Seq::<(Seq<char>, bool)>::empty());
    while i < n
        invariant
            i <= n,
            n == keys.len(),
            rest.len() == n - i,
            forall|j: int| 0 <= j < n - i ==> #[trigger] entry_key(rest@[j]) == keys[i + j],
            entry_keys(out@) == sort_by_name(keys.take(i as int)),
        decreases n - i,
    {
        let x = rest.remove(0);
        assert(entry_key(x) == keys[i as int]);
        let ghost t = entry_keys(out@);
        let ghost xk = entry_key(x);
        let mut p: usize = 0;
        assert(t.skip(0) =~= t);
        while p < out.len() && name_le_exec(out[p].name.as_str(), x.name.as_str())
            invariant
                p <= out.len(),
                t == entry_keys(out@),
                xk == entry_key(x),
                insert_pos(t, xk) == p + insert_pos(t.skip(p as int), xk),
            decreases out.len() - p,
        {
            assert(t.skip(p as int)[0] == entry_key(out@[p as int]));
            assert(t.skip(p as int).drop_first() =~= t.skip(p + 1));
            p = p + 1;
        }
        proof {
            if p < out.len() {
                assert(t.skip(p as int)[0] == entry_key(out@[p as int]));
            }
            lemma_rows_map_insert(out@, p as int, x);
            assert(keys.take(i + 1).drop_last() =~= keys.take(i as int));
            assert(keys.take(i + 1).last() == xk);
        }
        out.insert(p, x);
        proof {
            assert forall|j: int| 0 <= j < n - (i + 1) implies #[trigger] entry_key(rest@[j])
                == keys[(i + 1) + j] by {
            }
        }
        i = i + 1;
    }
    assert(keys.take(n as int) =~= keys);
    out
}

fn clone_opt(o: &Option<String>) -> (r: Option<String>)
    ensures
        opt_text(r) == opt_text(*o),
{
    match o {
        Some(s) => Some(s.clone()),
        None => None,
    }
}

/// The rows for a folder from its listing.
fn build_rows(dir: &str, listing: Vec<DirEntry>, windows: bool) -> (rows: Vec<BrowserEntry>)
    ensures
        rows@.map_values(|e: BrowserEntry| row_view(e)) == rows_for(
            dir@,
            entry_keys(listing@),
            windows,
        ),
{
    let ghost keys = entry_keys(listing@);
    let sorted = sort_entries(listing);
    let ghost sk = entry_keys(sorted@);
    let mut rows: Vec<BrowserEntry> = Vec::new();
    if paths::parent_of(dir, windows).is_some() {
        rows.push(BrowserEntry { name: String::from_str("../"), is_dir: true, is_parent: true });
    }
    let ghost head = rows@.map_values(|e: BrowserEntry| row_view(e));
    assert(head =~= if paths::parent(dir@, windows) is Some {
        seq![EntryView { name: "../"@, is_dir: true, is_parent: true }]
    } else {
        Seq::empty()
    });
    let mut i: usize = 0;
    assert(sk.take(0) =~= Seq::<(Seq<char>, bool)>::empty());
    assert(head + dir_rows(sk.take(0)) =~= head);
    while i < sorted.len()
        invariant
            i <= sorted.len(),
            sk == entry_keys(sorted@),
            rows@.map_values(|e: BrowserEntry| row_view(e)) == head + dir_rows(sk.take(i as int)),
        decreases sorted.len() - i,
    {
        let ghost before = rows@.map_values(|e: BrowserEntry| row_view(e));
        assert(sk.take(i + 1).drop_last() =~= sk.take(i as int));
        assert(sk.take(i + 1).last() == entry_key(sorted@[i as int]));
        if sorted[i].is_dir {
            let mut name = sorted[i].name.clone();
            name.push('/');
            assert(name@ =~= sorted@[i as int].name@ + seq!['/']);
            rows.push(BrowserEntry { name, is_dir: true, is_parent: false });
            assert(rows@.map_values(|e: BrowserEntry| row_view(e)) =~= before.push(
                row_view(rows@.last()),
            ));
            assert(dir_rows(sk.take(i + 1)) =~= dir_rows(sk.take(i as int)).push(
                row_view(rows@.last()),
            ));
        } else {
            assert(dir_rows(sk.take(i + 1)) =~= dir_rows(sk.take(i as int)));
        }
        assert(rows@.map_values(|e: BrowserEntry| row_view(e)) =~= head + dir_rows(
            sk.take(i + 1),
        ));
        i = i + 1;
    }
    assert(sk.take(i as int) =~= sk);
    let ghost mid = rows@.map_values(|e: BrowserEntry| row_view(e));
    let mut k: usize = 0;
    assert(mid + file_rows(sk.take(0)) =~= mid);
    while k < sorted.len()
        invariant
            k <= sorted.len(),
            sk == entry_keys(sorted@),
            rows@.map_values(|e: BrowserEntry| row_view(e)) == mid + file_rows(sk.take(k as int)),
        decreases sorted.len() - k,
    {
        let ghost before = rows@.map_values(|e: BrowserEntry| row_view(e));
        assert(sk.take(k + 1).drop_last() =~= sk.take(k as int));
        assert(sk.take(k + 1).last() == entry_key(sorted@[k as int]));
        if !sorted[k].is_dir {
            rows.push(
                BrowserEntry { name: sorted[k].name.clone(), is_dir: false, is_parent: false },
            );
            assert(rows@.map_values(|e: BrowserEntry| row_view(e)) =~= before.push(
                row_view(rows@.last()),
            ));
            assert(file_rows(sk.take(k + 1)) =~= file_rows(sk.take(k as int)).push(
                row_view(rows@.last()),
            ));
        } else {
            assert(file_rows(sk.take(k + 1)) =~= file_rows(sk.take(k as int)));
        }
        assert(rows@.map_values(|e: BrowserEntry| row_view(e)) =~= mid + file_rows(
            sk.take(k + 1),
        ));
        k = k + 1;
    }
    assert(sk.take(k as int) =~= sk);
    assert(mid + file_rows(sk) =~= head + dir_rows(sk) + file_rows(sk));
    rows
}

proof fn lemma_rows_parent(dir: Seq<char>, listing: Seq<(Seq<char>, bool)>, windows: bool)
    ensures
        forall|i: int|
            0 <= i < rows_for(dir, listing, windows).len() && (#[trigger] rows_for(dir, listing, windows)[i]).is_parent
                ==> paths::parent(dir, windows) is Some,
{
    let sorted = sort_by_name(listing);
    lemma_rows_not_parent(sorted);
    let head = if paths::parent(dir, windows) is Some {
        seq![EntryView { name: "../"@, is_dir: true, is_parent: true }]
    } else {
        Seq::empty()
    };
    let tail = dir_rows(sorted) + file_rows(sorted);
    assert forall|i: int|
        0 <= i < rows_for(dir, listing, windows).len() && (#[trigger] rows_for(dir, listing, windows)[i]).is_parent
            implies paths::parent(dir, windows) is Some by {
        assert(rows_for(dir, listing, windows) =~= head + tail);
        if i >= head.len() {
            assert(rows_for(dir, listing, windows)[i] == tail[i - head.len()]);
            if i - head.len() < dir_rows(sorted).len() {
                assert(tail[i - head.len()] == dir_rows(sorted)[i - head.len()]);
            } else {
                assert(tail[i - head.len()] == file_rows(sorted)[i - head.len() - dir_rows(
                    sorted,
                ).len()]);
            }
        }
    }
}

proof fn lemma_rows_not_parent(s: Seq<(Seq<char>, bool)>)
    ensures
        forall|i: int| 0 <= i < dir_rows(s).len() ==> !(#[trigger] dir_rows(s)[i]).is_parent,
        forall|i: int| 0 <= i < file_rows(s).len() ==> !(#[trigger] file_rows(s)[i]).is_parent,
    decreases s.len(),
{
    if s.len() > 0 {
        lemma_rows_not_parent(s.drop_last());
        let a = dir_rows(s.drop_last());
        let b = file_rows(s.drop_last());
        assert forall|i: int| 0 <= i < dir_rows(s).len() implies !(
        #[trigger] dir_rows(s)[i]).is_parent by {
            if i < a.len() {
                assert(dir_rows(s)[i] == a[i]);
            }
        }
        assert forall|i: int| 0 <= i < file_rows(s).len() implies !(
        #[trigger] file_rows(s)[i]).is_parent by {
            if i < b.len() {
                assert(file_rows(s)[i] == b[i]);
            }
        }
    }
}

impl FileBrowser {
    #[verifier::type_invariant]
    spec fn wf(&self) -> bool {
        browser_ok(self@)
    }

    /// The picker opened on `start`, whose listing is given, reading paths
    /// as on Windows where `windows` holds.
    pub fn new(start: String, listing: Vec<DirEntry>, windows: bool) -> (b: FileBrowser)
        ensures
            b@.dir == start@,
            b@.windows == windows,
            b@.rows == rows_for(start@, entry_keys(listing@), windows),
            b@.selected == first_row(b@.rows),
            b@.mode == InputMode::Normal,
            b@.input == Seq::<char>::empty(),
            b@.error is None,
    {
        let ghost keys = entry_keys(listing@);
        let rows = build_rows(start.as_str(), listing, windows);
        proof {
            lemma_rows_parent(start@, keys, windows);
        }
        let selected = if rows.len() == 0 {
            None
        } else {
            Some(0)
        };
        FileBrowser {
            current_dir: start,
            entries: rows,
            selected,
            mode: InputMode::Normal,
            input_buf: String::new(),
            error_msg: None,
            windows,
        }
    }

    /// Shows the folder's listing anew, selecting the first row.
    pub fn refresh(&mut self, listing: Vec<DirEntry>)
        ensures
            final(self)@ == (BrowserView {
                rows: rows_for(old(self)@.dir, entry_keys(listing@), old(self)@.windows),
                selected: first_row(
                    rows_for(old(self)@.dir, entry_keys(listing@), old(self)@.windows),
                ),
                ..old(self)@
            }),
    {
        let ghost keys = entry_keys(listing@);
        let rows = build_rows(self.current_dir.as_str(), listing, self.windows);
        proof {
            lemma_rows_parent(self.current_dir@, keys, self.windows);
        }
        let selected = if rows.len() == 0 {
            None
        } else {
            Some(0)
        };
        let next = FileBrowser {
            current_dir: self.current_dir.clone(),
            entries: rows,
            selected,
            mode: self.mode,
            input_buf: self.input_buf.clone(),
            error_msg: clone_opt(&self.error_msg),
            windows: self.windows,
        };
        *self = next;
    }

    /// The folder shown.
    pub fn current_dir(&self) -> (r: &String)
        ensures
            r@ == self@.dir,
    {
        &self.current_dir
    }

    /// The rows shown.
    pub fn entries(&self) -> (r: &Vec<BrowserEntry>)
        ensures
            r@.map_values(|e: BrowserEntry| row_view(e)) == self@.rows,
    {
        &self.entries
    }

    /// The selected row.
    pub fn selected(&self) -> (r: Option<usize>)
        ensures
            r == self@.selected,
            r matches Some(i) ==> i < self@.rows.len(),
    {
        proof {
            use_type_invariant(self);
        }
        self.selected
    }

    pub fn mode(&self) -> (r: InputMode)
        ensures
            r == self@.mode,
    {
        self.mode
    }

    /// The folder name typed so far.
    pub fn input(&self) -> (r: &String)
        ensures
            r@ == self@.input,
    {
        &self.input_buf
    }

    /// The error shown, if any.
    pub fn error(&self) -> (r: &Option<String>)
        ensures
            opt_text(*r) == self@.error,
    {
        &self.error_msg
    }

    /// The path of the selected row, or the folder itself where no row is
    /// selected.
    pub fn selected_path(&self) -> (r: String)
        ensures
            r@ == match self@.selected {
                Some(i) => row_path(self@.dir, self@.rows[i as int], self@.windows),
                None => self@.dir,
            },
    {
        proof {
            use_type_invariant(self);
        }
        match self.selected {
            Some(i) => {
                let e = &self.entries[i];
                assert(row_view(*e) == self@.rows[i as int]);
                if e.is_parent {
                    match paths::parent_of(self.current_dir.as_str(), self.windows) {
                        Some(p) => p,
                        None => String::new(),
                    }
                } else {
                    let n = paths::rtrim_slash_str(e.name.as_str());
                    paths::join(self.current_dir.as_str(), n.as_str(), self.windows)
                }
            },
            None => self.current_dir.clone(),
        }
    }

    /// Opens the selected row where it is a folder:
    /// the picker then shows that folder, with no rows until the caller
    /// reloads it, and `true` is returned.
    pub fn navigate_into_selected(&mut self) -> (moved: bool)
        ensures
            moved == navigates(old(self)@),
            final(self)@ == navigated(old(self)@),
    {
        proof {
            use_type_invariant(&*self);
        }
        match self.selected {
            Some(i) => {
                assert(row_view(self.entries@[i as int]) == self@.rows[i as int]);
                if self.entries[i].is_dir {
                    let path = self.selected_path();
                    let next = FileBrowser {
                        current_dir: path,
                        entries: Vec::new(),
                        selected: None,
                        mode: self.mode,
                        input_buf: self.input_buf.clone(),
                        error_msg: None,
                        windows: self.windows,
                    };
                    *self = next;
                    assert(self@.rows =~= Seq::<EntryView>::empty());
                    return true;
                }
                false
            },
            None => false,
        }
    }

    /// Checks the typed folder name: the path to create below the current
    /// folder, or, for a blank name, `None` with an error shown.
    pub fn begin_create(&mut self) -> (r: Option<String>)
        ensures
            match r {
                Some(p) => text::trim(old(self)@.input).len() > 0 && p@ == paths::join_path(
                    old(self)@.dir,
                    text::trim(old(self)@.input),
                    old(self)@.windows,
                ) && final(self)@ == old(self)@,
                None => text::trim(old(self)@.input).len() == 0 && final(self)@ == (BrowserView {
                    error: Some(empty_name_error()),
                    ..old(self)@
                }),
            },
    {
        proof {
            use_type_invariant(&*self);
        }
        let name = text::trim_str(self.input_buf.as_str());
        if text::is_empty(name.as_str()) {
            self.error_msg = Some(String::from_str("Folder name cannot be empty."));
            return None;
        }
        Some(paths::join(self.current_dir.as_str(), name.as_str(), self.windows))
    }

    /// The folder was created: the picker shows it, with no rows until the
    /// caller reloads it, and leaves the name input.
    pub fn folder_created(&mut self, path: String)
        ensures
            final(self)@ == (BrowserView {
                dir: path@,
                rows: Seq::empty(),
                selected: None,
                mode: InputMode::Normal,
                input: Seq::empty(),
                error: None,
                windows: old(self)@.windows,
            }),
    {
        let next = FileBrowser {
            current_dir: path,
            entries: Vec::new(),
            selected: None,
            mode: InputMode::Normal,
            input_buf: String::new(),
            error_msg: None,
            windows: self.windows,
        };
        *self = next;
        assert(self@.rows =~= Seq::<EntryView>::empty());
    }

    /// Creating the folder failed for `reason`: the error is shown and the
    /// name input left.
    pub fn folder_failed(&mut self, reason: &str)
        ensures
            final(self)@ == (BrowserView {
                mode: InputMode::Normal,
                input: Seq::empty(),
                error: Some("Error: "@ + reason@),
                ..old(self)@
            }),
    {
        proof {
            use_type_invariant(&*self);
        }
        self.error_msg = Some(String::from_str("Error: ").concat(reason));
        self.input_buf = String::new();
        self.mode = InputMode::Normal;
    }

    /// Moves the selection up, wrapping round.
    pub fn move_up(&mut self)
        ensures
            final(self)@ == if old(self)@.rows.len() == 0 {
                old(self)@
            } else {
                BrowserView {
                    selected: Some(
                        menus::row_above(old(self)@.selected, old(self)@.rows.len() as usize) as usize,
                    ),
                    ..old(self)@
                }
            },
    {
        proof {
            use_type_invariant(&*self);
        }
        if self.entries.len() == 0 {
            return;
        }
        let i = menus::move_up(self.selected, self.entries.len());
        self.selected = Some(i);
    }

    /// Moves the selection down, wrapping round.
    pub fn move_down(&mut self)
        ensures
            final(self)@ == if old(self)@.rows.len() == 0 {
                old(self)@
            } else {
                BrowserView {
                    selected: Some(
                        menus::row_below(old(self)@.selected, old(self)@.rows.len() as usize) as usize,
                    ),
                    ..old(self)@
                }
            },
    {
        proof {
            use_type_invariant(&*self);
        }
        if self.entries.len() == 0 {
            return;
        }
        let i = menus::move_down(self.selected, self.entries.len());
        self.selected = Some(i);
    }
}

/// The error shown for a blank folder name.
pub open spec fn empty_name_error() -> Seq<char> {
    "Folder name cannot be empty."@
}

/// Whether Enter on the picker opens a folder: the selected row is one.
pub open spec fn navigates(v: BrowserView) -> bool {
    match v.selected {
        Some(i) => i < v.rows.len() && v.rows[i as int].is_dir,
        None => false,
    }
}

/// The picker after opening the selected folder.
pub open spec fn navigated(v: BrowserView) -> BrowserView {
    if navigates(v) {
        BrowserView {
            dir: row_path(v.dir, v.rows[v.selected->0 as int], v.windows),
            rows: Seq::empty(),
            selected: None,
            error: None,
            ..v
        }
    } else {
        v
    }
}

pub open spec fn moved_up(v: BrowserView) -> BrowserView {
    if v.rows.len() == 0 {
        v
    } else {
        BrowserView {
            selected: Some(menus::row_above(v.selected, v.rows.len() as usize) as usize),
            ..v
        }
    }
}

pub open spec fn moved_down(v: BrowserView) -> BrowserView {
    if v.rows.len() == 0 {
        v
    } else {
        BrowserView {
            selected: Some(menus::row_below(v.selected, v.rows.len() as usize) as usize),
            ..v
        }
    }
}

/// What the caller is asked to do, as plain values.
pub enum ActionView {
    Nothing,
    Reload,
    CreateFolder(Seq<char>),
    Confirm(Seq<char>),
    Cancel,
}

impl View for BrowserAction {
    type V = ActionView;

    open spec fn view(&self) -> ActionView {
        match self {
            BrowserAction::Nothing => ActionView::Nothing,
            BrowserAction::Reload => ActionView::Reload,
            BrowserAction::CreateFolder(p) => ActionView::CreateFolder(p@),
            BrowserAction::Confirm(p) => ActionView::Confirm(p@),
            BrowserAction::Cancel => ActionView::Cancel,
        }
    }
}

/// The picker after a key.
pub open spec fn after_key(v: BrowserView, key: Key) -> BrowserView {
    match v.mode {
        InputMode::CreatingFolder => match key {
            Key::Enter => if text::trim(v.input).len() == 0 {
                BrowserView { error: Some(empty_name_error()), ..v }
            } else {
                v
            },
            Key::Esc => BrowserView {
                mode: InputMode::Normal,
                input: Seq::empty(),
                error: None,
                ..v
            },
            Key::Backspace => BrowserView {
                input: if v.input.len() > 0 {
                    v.input.drop_last()
                } else {
                    v.input
                },
                ..v
            },
            Key::Char('c', true) => v,
            Key::Char(c, _) => BrowserView { input: v.input.push(c), ..v },
            _ => v,
        },
        InputMode::Normal => match key {
            Key::Up => moved_up(v),
            Key::Down => moved_down(v),
            Key::Enter => navigated(v),
            Key::Char(' ', _) => v,
            Key::Char('n', _) => BrowserView {
                mode: InputMode::CreatingFolder,
                input: Seq::empty(),
                error: None,
                ..v
            },
            _ => v,
        },
    }
}

/// What the caller is asked to do after a key: Esc (while browsing) and
/// Control-C (in either mode) cancel.
pub open spec fn action_for(v: BrowserView, key: Key) -> ActionView {
    match v.mode {
        InputMode::CreatingFolder => match key {
            Key::Enter => if text::trim(v.input).len() == 0 {
                ActionView::Nothing
            } else {
                ActionView::CreateFolder(paths::join_path(v.dir, text::trim(v.input), v.windows))
            },
            Key::Char('c', true) => ActionView::Cancel,
            _ => ActionView::Nothing,
        },
        InputMode::Normal => match key {
            Key::Enter => if navigates(v) {
                ActionView::Reload
            } else {
                ActionView::Nothing
            },
            Key::Char(' ', _) => ActionView::Confirm(v.dir),
            Key::Esc => ActionView::Cancel,
            Key::Char('c', true) => ActionView::Cancel,
            _ => ActionView::Nothing,
        },
    }
}

impl FileBrowser {
    /// A key on the picker: what it does to the picker, and what it asks the
    /// caller to do.
    pub fn handle_key(&mut self, key: &Key) -> (a: BrowserAction)
        ensures
            final(self)@ == after_key(old(self)@, *key),
            a@ == action_for(old(self)@, *key),
    {
        proof {
            use_type_invariant(&*self);
        }
        match self.mode {
            InputMode::CreatingFolder => match key {
                Key::Enter => match self.begin_create() {
                    Some(p) => BrowserAction::CreateFolder(p),
                    None => BrowserAction::Nothing,
                },
                Key::Esc => {
                    self.mode = InputMode::Normal;
                    self.input_buf = String::new();
                    self.error_msg = None;
                    BrowserAction::Nothing
                },
                Key::Char('c', true) => BrowserAction::Cancel,
                Key::Backspace => {
                    let mut buf = String::new();
                    std::mem::swap(&mut buf, &mut self.input_buf);
                    buf.pop();
                    self.input_buf = buf;
                    BrowserAction::Nothing
                },
                Key::Char(c, _) => {
                    let mut buf = String::new();
                    std::mem::swap(&mut buf, &mut self.input_buf);
                    buf.push(*c);
                    self.input_buf = buf;
                    BrowserAction::Nothing
                },
                _ => BrowserAction::Nothing,
            },
            InputMode::Normal => match key {
                Key::Up => {
                    self.move_up();
                    BrowserAction::Nothing
                },
                Key::Down => {
                    self.move_down();
                    BrowserAction::Nothing
                },
                Key::Enter => if self.navigate_into_selected() {
                    BrowserAction::Reload
                } else {
                    BrowserAction::Nothing
                },
                Key::Char(' ', _) => BrowserAction::Confirm(self.current_dir.clone()),
                Key::Char('n', _) => {
                    self.mode = InputMode::CreatingFolder;
                    self.input_buf = String::new();
                    self.error_msg = None;
                    BrowserAction::Nothing
                },
                Key::Esc => BrowserAction::Cancel,
                Key::Char('c', true) => BrowserAction::Cancel,
                _ => BrowserAction::Nothing,
            },
        }
    }
}

} // verus!
