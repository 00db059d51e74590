//! The boxed title shown above the panes.
use vstd::prelude::*;
use crate::text;

verus! {

/// `n` copies of `c`.
pub open spec fn repeat(c: char, n: nat) -> Seq<char> {
    Seq::new(n, |i: int| c)
}

/// The three lines of the title box: the upper-cased title framed by a
/// border two characters wider on each side.
pub open spec fn header_text(title: Seq<char>) -> Seq<Seq<char>> {
    let upper = text::uppercase(title);
    let border = seq!['+'] + repeat('-', upper.len() + 4) + seq!['+'];
    seq![border, "|  "@ + upper + "  |"@, border]
}

/// The title, upper-cased, in a box of three lines.
pub fn header_lines(title: &str) -> (r: Vec<String>)
    ensures
        text::views(r@) == header_text(title@),
{
    let upper = text::to_uppercase(title);
    let cs = text::chars_of(upper.as_str());
    let mut top = String::new();
    top.push('+');
    top.push('-');
    top.push('-');
    top.push('-');
    top.push('-');
    assert(top@ =~= seq!['+'] + repeat('-', 4));
    let mut k: usize = 0;
    while k < cs.len()
        invariant
            k <= cs.len(),
            top@ == seq!['+'] + repeat('-', (k + 4) as nat),
        decreases cs.len() - k,
    {
        top.push('-');
        assert(top@ =~= seq!['+'] + repeat('-', (k + 5) as nat));
        k = k + 1;
    }
    let ghost dashes = top@;
    top.push('+');
    assert(cs@.len() == upper@.len());
    assert(top@ =~= seq!['+'] + repeat('-', upper@.len() + 4) + seq!['+']);
    let mut mid = String::from_str("|  ");
    mid.append(upper.as_str());
    mid.append("  |");
    let bottom = top.clone();
    assert(mid@ == "|  "@ + upper@ + "  |"@);
    assert(bottom@ == top@);
    let mut out: Vec<String> = Vec::new();
    out.push(top);
    out.push(mid);
    out.push(bottom);
    assert(text::views(out@) =~= header_text(title@));
    out
}

/// The title box is closed and aligned: its top and bottom lines are the
/// same and as long as the middle line.
pub proof fn law_header_box(title: Seq<char>)
    ensures
        header_text(title).len() == 3,
        header_text(title)[0] == header_text(title)[2],
        header_text(title)[0].len() == header_text(title)[1].len(),
        header_text(title)[1].len() == text::uppercase(title).len() + 6,
{
    reveal_strlit("|  ");
    reveal_strlit("  |");
}

} // verus!
