//! Console colors and bordered messages.

use crate::text::concat;
use vstd::prelude::*;

verus! {

pub const RED: &'static str = "\x1b[31m";

pub const GREEN: &'static str = "\x1b[32m";

pub const BLUE: &'static str = "\x1b[34m";

/// Resets the color.
pub const RESET: &'static str = "\x1b[0m";

/// The colors a bordered message can take.
#[derive(Debug, Clone, Copy, PartialEq, Eq, Structural)]
pub enum Color {
    Green,
    Blue,
}

/// The escape code of a color.
pub open spec fn color_code(c: Color) -> Seq<char> {
    match c {
        Color::Green => GREEN@,
        Color::Blue => BLUE@,
    }
}

/// `n` dashes.
pub open spec fn dashes(n: nat) -> Seq<char> {
    Seq::new(n, |i: int| '-')
}

/// The three lines of a bordered message: a border as long as the message
/// is in bytes, the message, and the border again followed by a reset.
pub open spec fn bordered_lines(message: &str, color: Color) -> Seq<Seq<char>> {
    let border = color_code(color) + dashes(message.len() as nat);
    seq![border, color_code(color) + message@, border + RESET@]
}

impl Color {
    /// The escape code of this color.
    pub fn to_string(&self) -> (r: String)
        ensures
            r@ == color_code(*self),
    {
        match self {
            Color::Green => String::from_str(GREEN),
            Color::Blue => String::from_str(BLUE),
        }
    }
}

/// `n` dashes.
fn dash_line(n: usize) -> (r: String)
    ensures
        r@ == dashes(n as nat),
{
    let mut r = String::new();
    let mut i: usize = 0;
    while i < n
        invariant
            i <= n,
            r@ =~= dashes(i as nat),
        decreases n - i,
    {
        proof {
            reveal_strlit("-");
        }
        r.append("-");
        assert("-"@ =~= seq!['-']);
        i = i + 1;
    }
    r
}

/// The lines that frame `message` between two borders in `color`.
pub fn bordered_message(message: &str, color: &Color) -> (r: Vec<String>)
    ensures
        r@.len() == 3,
        forall|k: int| 0 <= k < 3 ==> #[trigger] r@[k]@ == bordered_lines(message, *color)[k],
{
    let code = color.to_string();
    let dashes = dash_line(message.len());
    let border = concat(code.as_str(), dashes.as_str());
    let middle = concat(code.as_str(), message);
    let last = concat(border.as_str(), RESET);
    let mut lines: Vec<String> = Vec::new();
    lines.push(border);
    lines.push(middle);
    lines.push(last);
    assert(lines@[0]@ == bordered_lines(message, *color)[0]);
    assert(lines@[1]@ == bordered_lines(message, *color)[1]);
    assert(lines@[2]@ == bordered_lines(message, *color)[2]);
    lines
}

} // verus!
