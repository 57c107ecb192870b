use vstd::prelude::*;

use crate::text::{append_str, owned};

verus! {

/// Terminal styling: for each style the escape sequence that opens it, and
/// the one that resets all styles. With colour off every sequence is empty,
/// so styled text is the text itself.
pub struct Styles {
    pub bold: String,
    pub dim: String,
    pub red: String,
    pub green: String,
    pub yellow: String,
    pub cyan: String,
    pub reset: String,
}

/// `text` opened by `open` and closed by `reset`.
pub open spec fn painted(open: Seq<char>, text: Seq<char>, reset: Seq<char>) -> Seq<char> {
    open + text + reset
}

impl Styles {
    /// The styles with colour on (ANSI escape sequences) or off (nothing).
    pub fn new(color: bool) -> (s: Styles)
        ensures
            color ==> {
                &&& s.bold@ == "\x1b[1m"@
                &&& s.dim@ == "\x1b[2m"@
                &&& s.red@ == "\x1b[31m"@
                &&& s.green@ == "\x1b[32m"@
                &&& s.yellow@ == "\x1b[33m"@
                &&& s.cyan@ == "\x1b[36m"@
                &&& s.reset@ == "\x1b[0m"@
            },
            !color ==> {
                &&& s.bold@.len() == 0
                &&& s.dim@.len() == 0
                &&& s.red@.len() == 0
                &&& s.green@.len() == 0
                &&& s.yellow@.len() == 0
                &&& s.cyan@.len() == 0
                &&& s.reset@.len() == 0
            },
    {
        if color {
            Styles {
                bold: owned("\x1b[1m"),
                dim: owned("\x1b[2m"),
                red: owned("\x1b[31m"),
                green: owned("\x1b[32m"),
                yellow: owned("\x1b[33m"),
                cyan: owned("\x1b[36m"),
                reset: owned("\x1b[0m"),
            }
        } else {
            Styles {
                bold: String::new(),
                dim: String::new(),
                red: String::new(),
                green: String::new(),
                yellow: String::new(),
                cyan: String::new(),
                reset: String::new(),
            }
        }
    }

    /// `text` in the style that `open` starts.
    pub fn paint(&self, open: &String, text: &str) -> (r: String)
        ensures
            r@ == painted(open@, text@, self.reset@),
    {
        let mut r = owned(open.as_str());
        append_str(&mut r, text);
        append_str(&mut r, self.reset.as_str());
        r
    }
}

} // verus!
