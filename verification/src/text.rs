//! Helpers on strings and sequences of strings that the other modules share.

use vstd::prelude::*;
use vstd::string::*;

verus! {

/// The characters of each string of a list, in order.
pub open spec fn names_view(names: Seq<String>) -> Seq<Seq<char>> {
    names.map_values(|s: String| s@)
}

/// The characters of `s`, as a vector.
pub fn chars_of(s: &str) -> (out: Vec<char>)
    ensures
        out@ == s@,
{
    let mut out: Vec<char> = Vec::new();
    for c in it: s.chars()
        invariant
            it.seq() == s@,
            out@ == s@.subrange(0, it.index() as int),
    {
        out.push(c);
        assert(out@ =~= s@.subrange(0, it.index() + 1));
    }
    assert(s@.subrange(0, s@.len() as int) =~= s@);
    out
}

/// Filtering and mapping one element more of a sequence appends the image of
/// that element if it passes the filter, and changes nothing otherwise.
pub proof fn lemma_filter_map_step<A, B>(
    s: Seq<A>,
    i: int,
    keep: spec_fn(A) -> bool,
    f: spec_fn(A) -> B,
)
    requires
        0 <= i < s.len(),
    ensures
        s.take(i + 1).filter(keep).map_values(f) == if keep(s[i]) {
            s.take(i).filter(keep).map_values(f).push(f(s[i]))
        } else {
            s.take(i).filter(keep).map_values(f)
        },
{
    let shorter = s.take(i);
    assert(s.take(i + 1) =~= shorter.push(s[i]));
    shorter.lemma_filter_push(s[i], keep);
    if keep(s[i]) {
        assert(shorter.filter(keep).push(s[i]).map_values(f) =~= shorter.filter(keep).map_values(
            f,
        ).push(f(s[i])));
    }
}

/// The character of a decimal digit.
pub open spec fn digit(d: nat) -> char {
    if d == 0 {
        '0'
    } else if d == 1 {
        '1'
    } else if d == 2 {
        '2'
    } else if d == 3 {
        '3'
    } else if d == 4 {
        '4'
    } else if d == 5 {
        '5'
    } else if d == 6 {
        '6'
    } else if d == 7 {
        '7'
    } else if d == 8 {
        '8'
    } else {
        '9'
    }
}

/// A number in decimal digits, without sign or leading zeros.
pub open spec fn decimal(n: nat) -> Seq<char>
    decreases n,
{
    if n < 10 {
        seq![digit(n)]
    } else {
        decimal(n / 10).push(digit(n % 10))
    }
}

/// The text of one decimal digit.
fn digit_text(d: u32) -> (out: &'static str)
    requires
        d < 10,
    ensures
        out@ == seq![digit(d as nat)],
{
    proof {
        reveal_strlit("0");
        reveal_strlit("1");
        reveal_strlit("2");
        reveal_strlit("3");
        reveal_strlit("4");
        reveal_strlit("5");
        reveal_strlit("6");
        reveal_strlit("7");
        reveal_strlit("8");
        reveal_strlit("9");
    }
    let out = if d == 0 {
        "0"
    } else if d == 1 {
        "1"
    } else if d == 2 {
        "2"
    } else if d == 3 {
        "3"
    } else if d == 4 {
        "4"
    } else if d == 5 {
        "5"
    } else if d == 6 {
        "6"
    } else if d == 7 {
        "7"
    } else if d == 8 {
        "8"
    } else {
        "9"
    };
    assert(out@ =~= seq![digit(d as nat)]);
    out
}

/// Writes a number in decimal digits.
pub fn decimal_text(n: u32) -> (out: String)
    ensures
        out@ == decimal(n as nat),
    decreases n,
{
    if n < 10 {
        String::from_str(digit_text(n))
    } else {
        let front = decimal_text(n / 10);
        let out = front.concat(digit_text(n % 10));
        assert(out@ =~= decimal(n as nat));
        out
    }
}

/// Whether a character is white space: whether it has Unicode's property
/// White_Space, which twenty-five characters have.
pub open spec fn is_white_space(c: char) -> bool {
    let n = c as u32;
    (0x09 <= n <= 0x0d) || n == 0x20 || n == 0x85 || n == 0xa0 || n == 0x1680 || (0x2000 <= n
        <= 0x200a) || n == 0x2028 || n == 0x2029 || n == 0x202f || n == 0x205f || n == 0x3000
}

/// A text without the white space at its start.
pub open spec fn trimmed_start(s: Seq<char>) -> Seq<char>
    decreases s.len(),
{
    if s.len() > 0 && is_white_space(s.first()) {
        trimmed_start(s.drop_first())
    } else {
        s
    }
}

/// A text without the white space at its end.
pub open spec fn trimmed_end(s: Seq<char>) -> Seq<char>
    decreases s.len(),
{
    if s.len() > 0 && is_white_space(s.last()) {
        trimmed_end(s.drop_last())
    } else {
        s
    }
}

/// A text without the white space at its two ends.
pub open spec fn trimmed(s: Seq<char>) -> Seq<char> {
    trimmed_end(trimmed_start(s))
}

/// A text that neither begins nor ends with white space is left as it is.
pub proof fn lemma_trimmed_of_tight(s: Seq<char>)
    requires
        s.len() > 0 ==> !is_white_space(s.first()) && !is_white_space(s.last()),
    ensures
        trimmed(s) == s,
{
}

/// Whether a character is white space.
pub fn is_space(c: char) -> (yes: bool)
    ensures
        yes == is_white_space(c),
{
    let n = c as u32;
    (0x09 <= n && n <= 0x0d) || n == 0x20 || n == 0x85 || n == 0xa0 || n == 0x1680 || (0x2000 <= n
        && n <= 0x200a) || n == 0x2028 || n == 0x2029 || n == 0x202f || n == 0x205f || n == 0x3000
}

/// The part of a text between the white space at its two ends.
pub fn trim_text(s: &str) -> (out: &str)
    ensures
        out@ == trimmed(s@),
{
    let chars = chars_of(s);
    let n: usize = chars.len();
    let mut start: usize = 0;
    assert(s@.subrange(0, n as int) =~= s@);
    while start < n && is_space(chars[start])
        invariant
            start <= n,
            n == s@.len(),
            chars@ == s@,
            trimmed_start(s@) == trimmed_start(s@.subrange(start as int, n as int)),
        decreases n - start,
    {
        assert(s@.subrange(start as int, n as int).drop_first() =~= s@.subrange(
            start + 1,
            n as int,
        ));
        start += 1;
    }
    let mut end: usize = n;
    while end > start && is_space(chars[end - 1])
        invariant
            start <= end <= n,
            n == s@.len(),
            chars@ == s@,
            trimmed_end(s@.subrange(start as int, n as int)) == trimmed_end(
                s@.subrange(start as int, end as int),
            ),
        decreases end,
    {
        assert(s@.subrange(start as int, end as int).drop_last() =~= s@.subrange(
            start as int,
            end - 1,
        ));
        end -= 1;
    }
    s.substring_char(start, end)
}

/// The text that `str::to_lowercase` makes of `s`: its lowercase form by
/// Unicode's rules, which may differ from `s` in length.
pub uninterp spec fn lowercased(s: Seq<char>) -> Seq<char>;

/// `str::to_lowercase` of std. Nothing is proved of it: its result is only
/// given the name `lowercased`, as a function of the characters it was handed.
pub assume_specification[ str::to_lowercase ](s: &str) -> (out: String)
    ensures
        out@ == lowercased(s@),
;

} // verus!
