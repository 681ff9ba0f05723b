//! How deep a TOML document can nest, judged from its bytes before a parser
//! sees it. Arrays and inline tables begin with `[` or `{`, and the parts of
//! a dotted key are joined by `.`; inside a string or a comment these bytes
//! mean nothing. The scan below follows strings and comments as the TOML
//! tokenizer does and counts the three bytes where they stand outside both.

use vstd::prelude::*;
use vstd::string::*;
use crate::text::{decimal, decimal_text};

verus! {

/// Where the scan stands in a document.
#[derive(Clone, Copy, Debug, PartialEq, Eq)]
pub enum Lex {
    /// Outside strings and comments.
    Plain,
    /// In a comment, which runs to the end of its line.
    Comment,
    /// After the one or two delimiters that may open a string: it is not yet
    /// known whether the string is empty, of one line, or of many.
    Opening { delim: u8, seen: u8 },
    /// In a string of one line; `escaped` after a backslash.
    Single { delim: u8, escaped: bool },
    /// In a string of many lines, after `run` delimiters in a row; `escaped`
    /// after a backslash. Three delimiters in a row close the string, and up
    /// to two more that follow them belong to it.
    Multi { delim: u8, run: u8, escaped: bool },
}

/// Whether a byte opens an array or an inline table, or joins the parts of a
/// key: `[`, `{` or `.`.
pub open spec fn is_mark(b: u8) -> bool {
    b == 0x5b || b == 0x7b || b == 0x2e
}

/// The step of the scan from outside strings and comments: `#` begins a
/// comment, `"` and `'` open a string.
pub open spec fn from_plain(b: u8) -> Lex {
    if b == 0x23 {
        Lex::Comment
    } else if b == 0x22 || b == 0x27 {
        Lex::Opening { delim: b, seen: 1 }
    } else {
        Lex::Plain
    }
}

/// The step of the scan inside a string of one line. The delimiter closes it,
/// and so does a line feed, which no such string may hold. In a string
/// between `"` a backslash takes the next byte with it.
pub open spec fn from_single(delim: u8, escaped: bool, b: u8) -> Lex {
    if escaped {
        Lex::Single { delim, escaped: false }
    } else if b == delim || b == 0x0a {
        Lex::Plain
    } else if b == 0x5c && delim == 0x22 {
        Lex::Single { delim, escaped: true }
    } else {
        Lex::Single { delim, escaped: false }
    }
}

/// The step of the scan inside a string of many lines.
pub open spec fn from_multi(delim: u8, run: u8, escaped: bool, b: u8) -> Lex {
    if escaped {
        Lex::Multi { delim, run: 0, escaped: false }
    } else if run >= 3 {
        if b == delim && run == 3 {
            Lex::Multi { delim, run: 4, escaped: false }
        } else if b == delim {
            Lex::Plain
        } else {
            from_plain(b)
        }
    } else if b == delim {
        Lex::Multi { delim, run: (run + 1) as u8, escaped: false }
    } else if b == 0x5c && delim == 0x22 {
        Lex::Multi { delim, run: 0, escaped: true }
    } else {
        Lex::Multi { delim, run: 0, escaped: false }
    }
}

/// Where the scan stands after one more byte.
pub open spec fn step(state: Lex, b: u8) -> Lex {
    match state {
        Lex::Plain => from_plain(b),
        Lex::Comment => if b < 0x20 && b != 0x09 {
            Lex::Plain
        } else {
            Lex::Comment
        },
        Lex::Opening { delim, seen } => if b == delim {
            if seen < 2 {
                Lex::Opening { delim, seen: 2 }
            } else {
                Lex::Multi { delim, run: 0, escaped: false }
            }
        } else if seen < 2 {
            from_single(delim, false, b)
        } else {
            from_plain(b)
        },
        Lex::Single { delim, escaped } => from_single(delim, escaped, b),
        Lex::Multi { delim, run, escaped } => from_multi(delim, run, escaped, b),
    }
}

/// Whether a byte that comes in this state stands outside strings and
/// comments: in the plain state, after an empty string, and after the
/// delimiters that closed a string of many lines.
pub open spec fn is_outside(state: Lex, b: u8) -> bool {
    match state {
        Lex::Plain => true,
        Lex::Comment => false,
        Lex::Opening { delim, seen } => seen >= 2 && b != delim,
        Lex::Single { .. } => false,
        Lex::Multi { delim, run, escaped } => !escaped && run >= 3 && b != delim,
    }
}

/// Where the scan stands at the end of the bytes.
pub open spec fn lex_state(bytes: Seq<u8>) -> Lex
    decreases bytes.len(),
{
    if bytes.len() == 0 {
        Lex::Plain
    } else {
        step(lex_state(bytes.drop_last()), bytes.last())
    }
}

/// How many bytes `[`, `{` and `.` stand outside the strings and comments of
/// a document. No document nests arrays and inline tables deeper than this,
/// and no key of it has more parts than this and one. A document that is a
/// flat table from string to string has none.
pub open spec fn toml_marks(bytes: Seq<u8>) -> nat
    decreases bytes.len(),
{
    if bytes.len() == 0 {
        0
    } else if is_mark(bytes.last()) && is_outside(lex_state(bytes.drop_last()), bytes.last()) {
        toml_marks(bytes.drop_last()) + 1
    } else {
        toml_marks(bytes.drop_last())
    }
}

/// The most marks that a TOML document may hold to be handed to the parser,
/// which takes some kilobytes of stack for each level that it nests.
pub const MAX_TOML_MARKS: u32 = 128;

/// Whether a TOML document is shallow enough to be handed to the parser.
pub open spec fn toml_depth_ok(bytes: Seq<u8>) -> bool {
    toml_marks(bytes) <= MAX_TOML_MARKS
}

/// One step of the scan.
pub fn advance(state: Lex, b: u8) -> (next: Lex)
    ensures
        next == step(state, b),
{
    match state {
        Lex::Plain => plain_step(b),
        Lex::Comment => if b < 0x20 && b != 0x09 {
            Lex::Plain
        } else {
            Lex::Comment
        },
        Lex::Opening { delim, seen } => if b == delim {
            if seen < 2 {
                Lex::Opening { delim, seen: 2 }
            } else {
                Lex::Multi { delim, run: 0, escaped: false }
            }
        } else if seen < 2 {
            single_step(delim, false, b)
        } else {
            plain_step(b)
        },
        Lex::Single { delim, escaped } => single_step(delim, escaped, b),
        Lex::Multi { delim, run, escaped } => if escaped {
            Lex::Multi { delim, run: 0, escaped: false }
        } else if run >= 3 {
            if b == delim && run == 3 {
                Lex::Multi { delim, run: 4, escaped: false }
            } else if b == delim {
                Lex::Plain
            } else {
                plain_step(b)
            }
        } else if b == delim {
            Lex::Multi { delim, run: run + 1, escaped: false }
        } else if b == 0x5c && delim == 0x22 {
            Lex::Multi { delim, run: 0, escaped: true }
        } else {
            Lex::Multi { delim, run: 0, escaped: false }
        },
    }
}

/// One step of the scan from outside strings and comments.
fn plain_step(b: u8) -> (next: Lex)
    ensures
        next == from_plain(b),
{
    if b == 0x23 {
        Lex::Comment
    } else if b == 0x22 || b == 0x27 {
        Lex::Opening { delim: b, seen: 1 }
    } else {
        Lex::Plain
    }
}

/// One step of the scan inside a string of one line.
fn single_step(delim: u8, escaped: bool, b: u8) -> (next: Lex)
    ensures
        next == from_single(delim, escaped, b),
{
    if escaped {
        Lex::Single { delim, escaped: false }
    } else if b == delim || b == 0x0a {
        Lex::Plain
    } else if b == 0x5c && delim == 0x22 {
        Lex::Single { delim, escaped: true }
    } else {
        Lex::Single { delim, escaped: false }
    }
}

/// Whether a byte that comes in this state is a mark outside strings and
/// comments.
pub fn counts(state: Lex, b: u8) -> (yes: bool)
    ensures
        yes == (is_mark(b) && is_outside(state, b)),
{
    if !(b == 0x5b || b == 0x7b || b == 0x2e) {
        return false;
    }
    match state {
        Lex::Plain => true,
        Lex::Comment => false,
        Lex::Opening { delim, seen } => seen >= 2 && b != delim,
        Lex::Single { .. } => false,
        Lex::Multi { delim, run, escaped } => !escaped && run >= 3 && b != delim,
    }
}

/// Counts the marks of a document.
pub fn count_toml_marks(bytes: &[u8]) -> (marks: usize)
    ensures
        marks == toml_marks(bytes@),
{
    let mut state = Lex::Plain;
    let mut marks: usize = 0;
    let mut i: usize = 0;
    assert(bytes@.take(0) =~= Seq::<u8>::empty());
    while i < bytes.len()
        invariant
            i <= bytes.len(),
            state == lex_state(bytes@.take(i as int)),
            marks == toml_marks(bytes@.take(i as int)),
            marks <= i,
        decreases bytes.len() - i,
    {
        proof {
            assert(bytes@.take(i + 1).drop_last() =~= bytes@.take(i as int));
            assert(bytes@.take(i + 1).last() == bytes@[i as int]);
        }
        let b = bytes[i];
        if counts(state, b) {
            marks += 1;
        }
        state = advance(state, b);
        i += 1;
    }
    assert(bytes@.take(bytes.len() as int) =~= bytes@);
    marks
}

/// Tests whether a TOML document is shallow enough to be handed to the
/// parser.
pub fn within_toml_depth(bytes: &[u8]) -> (ok: bool)
    ensures
        ok == toml_depth_ok(bytes@),
{
    count_toml_marks(bytes) <= MAX_TOML_MARKS as usize
}

/// What is said of a document that is not shallow enough.
pub open spec fn toml_depth_text() -> Seq<char> {
    "not read: more than "@ + decimal(MAX_TOML_MARKS as nat)
        + " brackets, braces and dots outside its strings"@
}

/// What is said of a document that is not shallow enough.
pub fn toml_depth_message() -> (out: String)
    ensures
        out@ == toml_depth_text(),
{
    let mut out = String::from_str("not read: more than ");
    out.append(decimal_text(MAX_TOML_MARKS).as_str());
    out.append(" brackets, braces and dots outside its strings");
    out
}

} // verus!
