//! The dashboard's state: one pane of recent output per process, which
//! pane has the focus, and how far each is scrolled.
use vstd::prelude::*;
use crate::config::ProcessConfig;
use crate::engine::{LogEvent, LogKind};
use crate::menus::Key;
use crate::text;

verus! {

/// The colours a pane border can have.
#[derive(PartialEq, Eq, Structural, Clone, Copy)]
pub enum PaneColor {
    Green,
    Cyan,
    Magenta,
    Yellow,
    Blue,
    Red,
    White,
}

/// The colour named `name`; white for any other name.
pub open spec fn color_named(name: Seq<char>) -> PaneColor {
    if name == "green"@ {
        PaneColor::Green
    } else if name == "cyan"@ {
        PaneColor::Cyan
    } else if name == "magenta"@ {
        PaneColor::Magenta
    } else if name == "yellow"@ {
        PaneColor::Yellow
    } else if name == "blue"@ {
        PaneColor::Blue
    } else if name == "red"@ {
        PaneColor::Red
    } else {
        PaneColor::White
    }
}

/// The colour a name stands for; white for an unknown name.
pub fn color_from_name(name: &str) -> (c: PaneColor)
    ensures
        c == color_named(name@),
{
    if text::str_eq(name, "green") {
        PaneColor::Green
    } else if text::str_eq(name, "cyan") {
        PaneColor::Cyan
    } else if text::str_eq(name, "magenta") {
        PaneColor::Magenta
    } else if text::str_eq(name, "yellow") {
        PaneColor::Yellow
    } else if text::str_eq(name, "blue") {
        PaneColor::Blue
    } else if text::str_eq(name, "red") {
        PaneColor::Red
    } else {
        PaneColor::White
    }
}

/// The colours given in turn to processes that name none.
pub open spec fn palette() -> Seq<Seq<char>> {
    seq!["green"@, "cyan"@, "magenta"@, "yellow"@, "blue"@, "red"@, "white"@]
}

/// The colour name given to the `i`-th process that names none.
pub fn palette_color(i: usize) -> (r: &'static str)
    ensures
        r@ == palette()[(i % 7) as int],
{
    let k = i % 7;
    if k == 0 {
        "green"
    } else if k == 1 {
        "cyan"
    } else if k == 2 {
        "magenta"
    } else if k == 3 {
        "yellow"
    } else if k == 4 {
        "blue"
    } else if k == 5 {
        "red"
    } else {
        "white"
    }
}

/// The most lines a pane keeps.
pub open spec fn max_lines() -> nat {
    2000
}

/// A line of output in a pane.
pub struct LogLine {
    pub kind: LogKind,
    pub text: String,
}

/// A process's pane.
pub struct Pane {
    pub name: String,
    pub color: PaneColor,
    pub lines: Vec<LogLine>,
    /// How many lines up from the newest the view is scrolled.
    pub scroll_from_bottom: u16,
}

pub struct PaneView {
    pub name: Seq<char>,
    pub color: PaneColor,
    pub lines: Seq<(LogKind, Seq<char>)>,
    pub scroll_from_bottom: u16,
}

pub open spec fn line_view(l: LogLine) -> (LogKind, Seq<char>) {
    (l.kind, l.text@)
}

pub open spec fn pane_view(p: Pane) -> PaneView {
    PaneView {
        name: p.name@,
        color: p.color,
        lines: p.lines@.map_values(|l: LogLine| line_view(l)),
        scroll_from_bottom: p.scroll_from_bottom,
    }
}

pub struct UiView {
    pub panes: Seq<PaneView>,
    pub focus: usize,
}

/// The dashboard's state.
pub struct Dashboard {
    panes: Vec<Pane>,
    focus: usize,
}

impl View for Dashboard {
    type V = UiView;

    closed spec fn view(&self) -> UiView {
        UiView { panes: self.panes@.map_values(|p: Pane| pane_view(p)), focus: self.focus }
    }
}

/// No pane holds more than `max_lines` lines, and the focus is on a pane
/// (or at 0 where there is none).
pub open spec fn dashboard_ok(v: UiView) -> bool {
    &&& (forall|i: int| 0 <= i < v.panes.len() ==> (#[trigger] v.panes[i]).lines.len() <= max_lines())
    &&& (if v.panes.len() == 0 {
        v.focus == 0
    } else {
        v.focus < v.panes.len()
    })
}

/// The colour of the `i`-th process's pane: its own, else the palette's.
pub open spec fn pane_color(color: Option<Seq<char>>, i: int) -> PaneColor {
    match color {
        Some(c) => color_named(c),
        None => color_named(palette()[i % 7]),
    }
}

/// A pane's lines after a new one: the new line last, the oldest dropped
/// beyond `max_lines`.
pub open spec fn with_line(lines: Seq<(LogKind, Seq<char>)>, l: (LogKind, Seq<char>)) -> Seq<
    (LogKind, Seq<char>),
> {
    let t = lines.push(l);
    if t.len() > max_lines() {
        t.drop_first()
    } else {
        t
    }
}

/// The dashboard after a log event: the line goes to its pane, if there is
/// one.
pub open spec fn after_event(v: UiView, pane: usize, l: (LogKind, Seq<char>)) -> UiView {
    if pane < v.panes.len() {
        UiView {
            panes: v.panes.update(
                pane as int,
                PaneView { lines: with_line(v.panes[pane as int].lines, l), ..v.panes[pane as int] },
            ),
            ..v
        }
    } else {
        v
    }
}

/// The focused pane scrolled to `s`.
pub open spec fn scrolled(v: UiView, s: u16) -> UiView {
    if v.focus < v.panes.len() {
        UiView {
            panes: v.panes.update(
                v.focus as int,
                PaneView { scroll_from_bottom: s, ..v.panes[v.focus as int] },
            ),
            ..v
        }
    } else {
        v
    }
}

pub open spec fn sat_add(x: u16, d: u16) -> u16 {
    if x + d > u16::MAX {
        u16::MAX
    } else {
        (x + d) as u16
    }
}

pub open spec fn sat_sub(x: u16, d: u16) -> u16 {
    if x < d {
        0
    } else {
        (x - d) as u16
    }
}

/// The focused pane's scroll offset.
pub open spec fn focused_scroll(v: UiView) -> u16 {
    if v.focus < v.panes.len() {
        v.panes[v.focus as int].scroll_from_bottom
    } else {
        0
    }
}

/// The dashboard after a key: Tab moves the focus round, the arrows scroll
/// the focused pane by a line and the page keys by ten.
pub open spec fn ui_after_key(v: UiView, key: Key) -> UiView {
    match key {
        Key::Tab => if v.panes.len() > 0 {
            UiView { focus: ((v.focus + 1) % (v.panes.len() as int)) as usize, ..v }
        } else {
            v
        },
        Key::Up => scrolled(v, sat_add(focused_scroll(v), 1)),
        Key::Down => scrolled(v, sat_sub(focused_scroll(v), 1)),
        Key::PageUp => scrolled(v, sat_add(focused_scroll(v), 10)),
        Key::PageDown => scrolled(v, sat_sub(focused_scroll(v), 10)),
        _ => v,
    }
}

/// Whether a key closes the dashboard: `q` or Control-C.
pub open spec fn quits(key: Key) -> bool {
    key matches Key::Char('q', _) || key == Key::Char('c', true)
}

proof fn lemma_update_map(ps: Seq<Pane>, i: int, p: Pane)
    requires
        0 <= i < ps.len(),
    ensures
        ps.update(i, p).map_values(|q: Pane| pane_view(q)) == ps.map_values(
            |q: Pane| pane_view(q),
        ).update(i, pane_view(p)),
{
    assert(ps.update(i, p).map_values(|q: Pane| pane_view(q)) =~= ps.map_values(
        |q: Pane| pane_view(q),
    ).update(i, pane_view(p)));
}

impl Dashboard {
    #[verifier::type_invariant]
    spec fn wf(&self) -> bool {
        dashboard_ok(self@)
    }

    /// One empty pane per process, named after it and coloured by its
    /// colour or the palette; the focus on the first.
    pub fn new(processes: &Vec<ProcessConfig>) -> (d: Dashboard)
        ensures
            d@.focus == 0,
            d@.panes.len() == processes.len(),
            forall|i: int|
                0 <= i < processes.len() ==> #[trigger] d@.panes[i] == (PaneView {
                    name: processes@[i].name@,
                    color: pane_color(
                        match processes@[i].color {
                            Some(c) => Some(c@),
                            None => None,
                        },
                        i,
                    ),
                    lines: Seq::empty(),
                    scroll_from_bottom: 0,
                }),
    {
        let mut panes: Vec<Pane> = Vec::new();
        let mut i: usize = 0;
        while i < processes.len()
            invariant
                i <= processes.len(),
                panes.len() == i,
                forall|j: int|
                    0 <= j < i ==> #[trigger] pane_view(panes@[j]) == (PaneView {
                        name: processes@[j].name@,
                        color: pane_color(
                            match processes@[j].color {
                                Some(c) => Some(c@),
                                None => None,
                            },
                            j,
                        ),
                        lines: Seq::empty(),
                        scroll_from_bottom: 0,
                    }),
            decreases processes.len() - i,
        {
            let color = match &processes[i].color {
                Some(c) => color_from_name(c.as_str()),
                None => color_from_name(palette_color(i)),
            };
            let p = Pane {
                name: processes[i].name.clone(),
                color,
                lines: Vec::new(),
                scroll_from_bottom: 0,
            };
            assert(p.lines@.map_values(|l: LogLine| line_view(l)) =~= Seq::<
                (LogKind, Seq<char>),
            >::empty());
            panes.push(p);
            i = i + 1;
        }
        let d = Dashboard { panes, focus: 0 };
        d
    }

    /// The panes.
    pub fn panes(&self) -> (r: &Vec<Pane>)
        ensures
            r@.map_values(|p: Pane| pane_view(p)) == self@.panes,
            forall|i: int| 0 <= i < r.len() ==> (#[trigger] r@[i]).lines.len() <= max_lines(),
    {
        proof {
            use_type_invariant(self);
            assert forall|i: int| 0 <= i < self.panes.len() implies (
            #[trigger] self.panes@[i]).lines.len() <= max_lines() by {
                assert(pane_view(self.panes@[i]) == self@.panes[i]);
            }
        }
        &self.panes
    }

    /// The focused pane.
    pub fn focus(&self) -> (r: usize)
        ensures
            r == self@.focus,
            self@.panes.len() > 0 ==> r < self@.panes.len(),
    {
        proof {
            use_type_invariant(self);
        }
        self.focus
    }

    /// Adds a log event's line to its pane.
    pub fn push_event(&mut self, ev: LogEvent)
        ensures
            final(self)@ == after_event(old(self)@, ev.pane, (ev.kind, ev.line@)),
    {
        proof {
            use_type_invariant(&*self);
        }
        if ev.pane >= self.panes.len() {
            return;
        }
        let mut taken = Dashboard { panes: Vec::new(), focus: 0 };
        std::mem::swap(&mut taken, self);
        let Dashboard { mut panes, focus } = taken;
        let ghost old_panes = panes@;
        let mut p = panes.remove(ev.pane);
        let ghost pv = pane_view(p);
        assert(pv == old(self)@.panes[ev.pane as int]);
        assert(p.lines.len() <= 2000);
        p.lines.push(LogLine { kind: ev.kind, text: ev.line });
        if p.lines.len() > 2000 {
            p.lines.remove(0);
        }
        assert(pane_view(p).lines =~= with_line(pv.lines, (ev.kind, ev.line@)));
        panes.insert(ev.pane, p);
        assert(panes@ =~= old_panes.update(ev.pane as int, p));
        proof {
            lemma_update_map(old_panes, ev.pane as int, p);
        }
        assert(p.lines.len() <= 2000);
        assert forall|i: int| 0 <= i < panes@.len() implies (#[trigger] panes@[i]).lines.len()
            <= max_lines() by {
            if i != ev.pane {
                assert(panes@[i] == old_panes[i]);
                assert(pane_view(old_panes[i]) == old(self)@.panes[i]);
            }
        }
        let next = Dashboard { panes, focus };
        assert(next@.panes =~= after_event(old(self)@, ev.pane, (ev.kind, ev.line@)).panes);
        *self = next;
    }

    fn set_scroll(&mut self, s: u16)
        ensures
            final(self)@ == scrolled(old(self)@, s),
    {
        proof {
            use_type_invariant(&*self);
        }
        if self.focus >= self.panes.len() {
            return;
        }
        let mut taken = Dashboard { panes: Vec::new(), focus: 0 };
        std::mem::swap(&mut taken, self);
        let Dashboard { mut panes, focus } = taken;
        let ghost old_panes = panes@;
        let mut p = panes.remove(focus);
        let ghost before = p;
        p.scroll_from_bottom = s;
        panes.insert(focus, p);
        assert(panes@ =~= old_panes.update(focus as int, p));
        proof {
            lemma_update_map(old_panes, focus as int, p);
        }
        assert(pane_view(before) == old(self)@.panes[focus as int]);
        assert forall|i: int| 0 <= i < panes@.len() implies (#[trigger] panes@[i]).lines.len()
            <= max_lines() by {
            assert(pane_view(old_panes[i]) == old(self)@.panes[i]);
        }
        let next = Dashboard { panes, focus };
        assert(next@.panes =~= scrolled(old(self)@, s).panes);
        *self = next;
    }

    fn scroll_of_focus(&self) -> (s: u16)
        ensures
            s == focused_scroll(self@),
    {
        if self.focus < self.panes.len() {
            self.panes[self.focus].scroll_from_bottom
        } else {
            0
        }
    }

    /// A key on the dashboard; `true` where the key closes it.
    pub fn handle_key(&mut self, key: &Key) -> (quit: bool)
        ensures
            quit == quits(*key),
            quit ==> final(self)@ == old(self)@,
            !quit ==> final(self)@ == ui_after_key(old(self)@, *key),
    {
        proof {
            use_type_invariant(&*self);
        }
        match key {
            Key::Char('q', _) => true,
            Key::Char('c', true) => true,
            Key::Tab => {
                if self.panes.len() > 0 {
                    self.focus = (self.focus + 1) % self.panes.len();
                }
                false
            },
            Key::Up => {
                let s = self.scroll_of_focus();
                self.set_scroll(s.saturating_add(1));
                false
            },
            Key::Down => {
                let s = self.scroll_of_focus();
                self.set_scroll(s.saturating_sub(1));
                false
            },
            Key::PageUp => {
                let s = self.scroll_of_focus();
                self.set_scroll(s.saturating_add(10));
                false
            },
            Key::PageDown => {
                let s = self.scroll_of_focus();
                self.set_scroll(s.saturating_sub(10));
                false
            },
            _ => false,
        }
    }
}

/// The lines of a pane in view: `[start, end)` where `end` is `scroll` above
/// the newest and `start` at most `height` before it.
pub open spec fn window(total: usize, scroll: u16, height: usize) -> (usize, usize) {
    let end = if total < scroll {
        0
    } else {
        total - scroll
    };
    let start = if end < height {
        0
    } else {
        end - height
    };
    (start as usize, end as usize)
}

pub fn visible_window(total: usize, scroll: u16, height: usize) -> (r: (usize, usize))
    ensures
        r == window(total, scroll, height),
        r.0 <= r.1 <= total,
{
    let end = total.saturating_sub(scroll as usize);
    let start = end.saturating_sub(height);
    (start, end)
}

/// The width, in percent, of each of `n` panes.
pub fn pane_percent(n: usize) -> (r: u16)
    ensures
        r as int == 100int / (if n == 0 {
            1
        } else {
            n as int
        }),
{
    let m = if n == 0 {
        1
    } else {
        n
    };
    (100 / m) as u16
}

} // verus!
