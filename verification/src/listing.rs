//! Numbered listing of the lines of a text file.
use vstd::prelude::*;

use crate::text::{decimal, push_decimal};

verus! {

/// The number `n` right-aligned in a field of two characters (`{:>2}`).
pub open spec fn right_aligned_2(n: nat) -> Seq<char> {
    if decimal(n).len() < 2 {
        seq![' '] + decimal(n)
    } else {
        decimal(n)
    }
}

/// The listing line of the line at `index` (counted from 0): its number,
/// counted from 1 and right-aligned in two characters, ` | `, then the line.
pub open spec fn numbered_line_text(index: nat, line: Seq<char>) -> Seq<char> {
    right_aligned_2(index + 1) + " | "@ + line
}

/// Formats the line at `index` (counted from 0) as `{:>2} | {}` with its
/// number counted from 1.
pub fn numbered_line(index: usize, line: &str) -> (text: String)
    ensures
        text@ == numbered_line_text(index as nat, line@),
{
    let number = index as u128 + 1;
    let mut digits = String::new();
    push_decimal(&mut digits, number);
    let mut text = String::new();
    if digits.as_str().unicode_len() < 2 {
        text.append(" ");
        proof {
            reveal_strlit(" ");
        }
    }
    text.append(digits.as_str());
    text.append(" | ");
    text.append(line);
    proof {
        assert(Seq::<char>::empty() + decimal(number as nat) =~= decimal(number as nat));
    }
    text
}

} // verus!
