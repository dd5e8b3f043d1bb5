//! Text for labels and log lines: paths with their separator, and counts in
//! decimal.

use vstd::prelude::*;
use vstd::string::StringExecFns;
use crate::paths::{PathView, SyncPath};

verus! {

/// The character that stands for a digit below ten.
pub open spec fn digit_char(d: nat) -> char {
    if d == 0 {
        '0'
    } else if d == 1 {
        '1'
    } else if d == 2 {
        '2'
    } else if d == 3 {
        '3'
    } else if d == 4 {
        '4'
    } else if d == 5 {
        '5'
    } else if d == 6 {
        '6'
    } else if d == 7 {
        '7'
    } else if d == 8 {
        '8'
    } else {
        '9'
    }
}

/// `n` written in decimal, without leading zeros.
pub open spec fn decimal_digits(n: nat) -> Seq<char>
    decreases n,
{
    if n < 10 {
        seq![digit_char(n)]
    } else {
        decimal_digits(n / 10).push(digit_char(n % 10))
    }
}

/// The text of one digit.
fn digit_text(d: usize) -> (text: &'static str)
    requires
        d < 10,
    ensures
        text@ == seq![digit_char(d as nat)],
{
    proof {
        reveal_strlit("0");
        reveal_strlit("1");
        reveal_strlit("2");
        reveal_strlit("3");
        reveal_strlit("4");
        reveal_strlit("5");
        reveal_strlit("6");
        reveal_strlit("7");
        reveal_strlit("8");
        reveal_strlit("9");
    }
    let text = if d == 0 {
        "0"
    } else if d == 1 {
        "1"
    } else if d == 2 {
        "2"
    } else if d == 3 {
        "3"
    } else if d == 4 {
        "4"
    } else if d == 5 {
        "5"
    } else if d == 6 {
        "6"
    } else if d == 7 {
        "7"
    } else if d == 8 {
        "8"
    } else {
        "9"
    };
    assert(text@ =~= seq![digit_char(d as nat)]);
    text
}

/// Writes a count in decimal.
pub fn decimal(n: usize) -> (text: String)
    ensures
        text@ == decimal_digits(n as nat),
    decreases n,
{
    if n < 10 {
        String::from_str(digit_text(n))
    } else {
        let mut text = decimal(n / 10);
        text.append(digit_text(n % 10));
        assert(text@ =~= decimal_digits(n as nat));
        text
    }
}

/// The components of a path, each followed by those after it with a `/`
/// between.
pub open spec fn joined(path: PathView) -> Seq<char>
    decreases path.len(),
{
    if path.len() == 0 {
        Seq::empty()
    } else if path.len() == 1 {
        path[0]
    } else {
        joined(path.drop_last()) + seq!['/'] + path.last()
    }
}

/// Writes a path with `/` between its components.
pub fn display(path: &SyncPath) -> (text: String)
    ensures
        text@ == joined(path@),
{
    let mut text = String::new();
    let mut i: usize = 0;
    assert(path@.take(0) =~= Seq::<Seq<char>>::empty());
    while i < path.components.len()
        invariant
            i <= path.components.len(),
            text@ == joined(path@.take(i as int)),
        decreases path.components.len() - i,
    {
        proof {
            reveal_strlit("/");
            assert(path@.take(i as int + 1).drop_last() =~= path@.take(i as int));
        }
        if i > 0 {
            text.append("/");
        }
        text.append(path.components[i].as_str());
        assert(text@ =~= joined(path@.take(i as int + 1)));
        i += 1;
    }
    assert(path@.take(path.components.len() as int) =~= path@);
    text
}

} // verus!
