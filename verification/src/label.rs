//! The fixed-width prefixes put in front of a task's display text: a
//! three-digit right-aligned percentage while the task runs, and a done
//! marker once it has finished.  Both prefixes are seven columns wide, so
//! the task text never shifts as progress changes.

use vstd::prelude::*;
use crate::percent::Percent;

verus! {

/// The decimal digit character for a value below ten.
pub open spec fn digit_char(d: nat) -> char {
    if d == 0 {
        '0'
    } else if d == 1 {
        '1'
    } else if d == 2 {
        '2'
    } else if d == 3 {
        '3'
    } else if d == 4 {
        '4'
    } else if d == 5 {
        '5'
    } else if d == 6 {
        '6'
    } else if d == 7 {
        '7'
    } else if d == 8 {
        '8'
    } else {
        '9'
    }
}

/// The percentage prefix: the value right-aligned to three columns between
/// brackets, followed by one space.
pub open spec fn percent_label_chars(v: nat) -> Seq<char> {
    seq!['['] + (if v < 10 {
        seq![' ', ' ', digit_char(v)]
    } else if v < 100 {
        seq![' ', digit_char(v / 10), digit_char(v % 10)]
    } else {
        seq!['1', '0', '0']
    }) + seq!['%', ']', ' ']
}

/// The prefix shown once a task has finished.
pub open spec fn done_label_chars() -> Seq<char> {
    seq!['[', 'd', 'o', 'n', 'e', ']', ' ']
}

/// The decimal digit as a one-character string slice.
fn digit_str(d: u8) -> (s: &'static str)
    requires
        d < 10,
    ensures
        s@ == seq![digit_char(d as nat)],
{
    proof {
        reveal_strlit("0");
        reveal_strlit("1");
        reveal_strlit("2");
        reveal_strlit("3");
        reveal_strlit("4");
        reveal_strlit("5");
        reveal_strlit("6");
        reveal_strlit("7");
        reveal_strlit("8");
        reveal_strlit("9");
    }
    match d {
        0 => "0",
        1 => "1",
        2 => "2",
        3 => "3",
        4 => "4",
        5 => "5",
        6 => "6",
        7 => "7",
        8 => "8",
        _ => "9",
    }
}

/// The seven-column percentage prefix for a progress line, such as the text
/// `[ 42%] ` for 42.
pub fn percent_prefix(p: Percent) -> (r: String)
    ensures
        r@ == percent_label_chars(p.as_nat()),
{
    proof {
        reveal_strlit("[");
        reveal_strlit("  ");
        reveal_strlit(" ");
        reveal_strlit("100");
        reveal_strlit("%] ");
    }
    let v = p.value();
    let mut s = String::from_str("[");
    if v < 10 {
        s.append("  ");
        s.append(digit_str(v));
    } else if v < 100 {
        s.append(" ");
        s.append(digit_str(v / 10));
        s.append(digit_str(v % 10));
    } else {
        s.append("100");
    }
    s.append("%] ");
    proof {
        assert(s@ =~= percent_label_chars(p.as_nat()));
    }
    s
}

/// The seven-column prefix for a finished task's line: the text `[done] `.
pub fn done_prefix() -> (r: String)
    ensures
        r@ == done_label_chars(),
{
    proof {
        reveal_strlit("[done] ");
    }
    let s = String::from_str("[done] ");
    proof {
        assert(s@ =~= done_label_chars());
    }
    s
}

} // verus!
