//! Keys and list navigation for the interactive screens.
use vstd::prelude::*;

verus! {

/// A key press, as the screens tell keys apart.
#[derive(PartialEq, Eq, Structural)]
pub enum Key {
    Up,
    Down,
    Enter,
    Esc,
    Tab,
    PageUp,
    PageDown,
    Backspace,
    /// A character, and whether Control was held.
    Char(char, bool),
    Other,
}

/// What a list screen does with a key.
pub enum MenuStep<T> {
    /// Nothing changes.
    Stay,
    /// The selection moves to this row.
    Select(usize),
    /// The screen closes with this result.
    Done(T),
}

/// The row above the selection, wrapping to the last row.
pub open spec fn row_above(selected: Option<usize>, len: usize) -> int {
    let i = match selected {
        Some(i) => i as int,
        None => 0,
    };
    if i == 0 {
        len - 1
    } else {
        i - 1
    }
}

/// The row below the selection, wrapping to the first row.
pub open spec fn row_below(selected: Option<usize>, len: usize) -> int {
    let i = match selected {
        Some(i) => i as int,
        None => 0,
    };
    (i + 1) % (len as int)
}

pub fn move_up(selected: Option<usize>, len: usize) -> (r: usize)
    requires
        len > 0,
    ensures
        r == row_above(selected, len),
{
    let i = match selected {
        Some(i) => i,
        None => 0,
    };
    if i == 0 {
        len - 1
    } else {
        i - 1
    }
}

pub fn move_down(selected: Option<usize>, len: usize) -> (r: usize)
    requires
        len > 0,
        match selected {
            Some(i) => i < usize::MAX,
            None => true,
        },
    ensures
        r == row_below(selected, len),
        r < len,
{
    let i = match selected {
        Some(i) => i,
        None => 0,
    };
    (i + 1) % len
}

/// Moving down and then up comes back to the same row.
pub proof fn law_down_then_up(i: usize, len: usize)
    requires
        i < len,
    ensures
        row_above(Some(row_below(Some(i), len) as usize), len) == i,
{
    if i + 1 < len {
        assert((i + 1) % (len as int) == i + 1) by (nonlinear_arith)
            requires
                0 <= i + 1 < len,
        ;
    } else {
        assert((i + 1) % (len as int) == 0) by (nonlinear_arith)
            requires
                i + 1 == len,
                len > 0,
        ;
    }
}

/// Moving up and then down comes back to the same row.
pub proof fn law_up_then_down(i: usize, len: usize)
    requires
        i < len,
    ensures
        row_below(Some(row_above(Some(i), len) as usize), len) == i,
{
    if i == 0 {
        assert(len as int % (len as int) == 0) by (nonlinear_arith)
            requires
                len > 0,
        ;
    } else {
        assert(i as int % (len as int) == i) by (nonlinear_arith)
            requires
                0 <= i < len,
        ;
    }
}

/// The two entries of the home menu.
#[derive(PartialEq, Eq, Structural, Clone, Copy)]
pub enum HomeChoice {
    CreateProject,
    BrowsePC,
}

/// The home menu's entry at a row.
pub open spec fn home_entry(i: usize) -> Option<HomeChoice> {
    if i == 0 {
        Some(HomeChoice::CreateProject)
    } else if i == 1 {
        Some(HomeChoice::BrowsePC)
    } else {
        None
    }
}

/// A key on the home menu: arrows move round the two entries, Enter picks
/// the selected entry, `q` and Control-C leave with nothing.
pub fn home_step(selected: Option<usize>, key: &Key) -> (r: MenuStep<Option<HomeChoice>>)
    requires
        *key == Key::Down ==> match selected {
            Some(i) => i < usize::MAX,
            None => true,
        },
    ensures
        match *key {
            Key::Up => r == MenuStep::<Option<HomeChoice>>::Select(row_above(selected, 2) as usize),
            Key::Down => r == MenuStep::<Option<HomeChoice>>::Select(
                row_below(selected, 2) as usize,
            ),
            Key::Enter => r == MenuStep::Done(
                match selected {
                    Some(i) => home_entry(i),
                    None => None,
                },
            ),
            Key::Char('q', _) => r == MenuStep::<Option<HomeChoice>>::Done(None),
            Key::Char('c', true) => r == MenuStep::<Option<HomeChoice>>::Done(None),
            _ => r is Stay,
        },
{
    match key {
        Key::Up => MenuStep::Select(move_up(selected, 2)),
        Key::Down => MenuStep::Select(move_down(selected, 2)),
        Key::Enter => MenuStep::Done(
            match selected {
                Some(0) => Some(HomeChoice::CreateProject),
                Some(1) => Some(HomeChoice::BrowsePC),
                _ => None,
            },
        ),
        Key::Char('q', _) => MenuStep::Done(None),
        Key::Char('c', true) => MenuStep::Done(None),
        _ => MenuStep::Stay,
    }
}

/// A key on the language report: arrows move round the rows, Enter goes on
/// to the framework picker (`true`), Esc and Control-C go back (`false`).
pub fn report_step(selected: Option<usize>, len: usize, key: &Key) -> (r: MenuStep<bool>)
    requires
        (*key == Key::Up || *key == Key::Down) ==> len > 0,
        *key == Key::Down ==> match selected {
            Some(i) => i < usize::MAX,
            None => true,
        },
    ensures
        match *key {
            Key::Up => r == MenuStep::<bool>::Select(row_above(selected, len) as usize),
            Key::Down => r == MenuStep::<bool>::Select(row_below(selected, len) as usize),
            Key::Enter => r == MenuStep::Done(true),
            Key::Esc => r == MenuStep::Done(false),
            Key::Char('c', true) => r == MenuStep::Done(false),
            _ => r is Stay,
        },
{
    match key {
        Key::Up => MenuStep::Select(move_up(selected, len)),
        Key::Down => MenuStep::Select(move_down(selected, len)),
        Key::Enter => MenuStep::Done(true),
        Key::Esc => MenuStep::Done(false),
        Key::Char('c', true) => MenuStep::Done(false),
        _ => MenuStep::Stay,
    }
}

/// A key on the framework picker, whose rows are the given framework
/// indices: arrows move, Enter picks the index at the selected row, Esc and
/// Control-C go back with nothing.
pub fn framework_step(selected: Option<usize>, rows: &Vec<usize>, key: &Key) -> (r: MenuStep<
    Option<usize>,
>)
    requires
        (*key == Key::Up || *key == Key::Down) ==> rows.len() > 0,
        *key == Key::Down ==> match selected {
            Some(i) => i < usize::MAX,
            None => true,
        },
    ensures
        match *key {
            Key::Up => r == MenuStep::<Option<usize>>::Select(
                row_above(selected, rows.len()) as usize,
            ),
            Key::Down => r == MenuStep::<Option<usize>>::Select(
                row_below(selected, rows.len()) as usize,
            ),
            Key::Enter => r == MenuStep::Done(
                match selected {
                    Some(i) => if i < rows.len() {
                        Some(rows@[i as int])
                    } else {
                        None
                    },
                    None => None,
                },
            ),
            Key::Esc => r == MenuStep::<Option<usize>>::Done(None),
            Key::Char('c', true) => r == MenuStep::<Option<usize>>::Done(None),
            _ => r is Stay,
        },
{
    match key {
        Key::Up => MenuStep::Select(move_up(selected, rows.len())),
        Key::Down => MenuStep::Select(move_down(selected, rows.len())),
        Key::Enter => MenuStep::Done(
            match selected {
                Some(i) => if i < rows.len() {
                    Some(rows[i])
                } else {
                    None
                },
                None => None,
            },
        ),
        Key::Esc => MenuStep::Done(None),
        Key::Char('c', true) => MenuStep::Done(None),
        _ => MenuStep::Stay,
    }
}

} // verus!
