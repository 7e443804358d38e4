//! What is fed to rofi in dmenu mode and how its answer is read. Running the
//! rofi process is done by the program around the library.

use vstd::prelude::*;

use crate::parse::{parse_usize, parse_usize_range, trim, trim_bounds};
use crate::text::{chars_of, join, join_strings, views};

verus! {

/// The row that rofi's answer picks: its printed index, white space around
/// it ignored; `None` if it printed nothing (cancelled) or no number.
pub open spec fn spec_pick(output: Seq<char>) -> Option<usize> {
    parse_usize(trim(output))
}

/// The input written to rofi: the lines, one per line.
pub fn menu_input(lines: &Vec<String>) -> (r: String)
    ensures
        r@ == join(views(lines@), "\n"@),
{
    join_strings(lines, "\n")
}

/// Reads rofi's answer: the 0-based index it printed, or `None` if the user
/// cancelled (nothing printed) or the output is not a number.
pub fn parse_pick(output: &str) -> (r: Option<usize>)
    ensures
        r == spec_pick(output@),
{
    let c = chars_of(output);
    let (a, b) = trim_bounds(&c);
    parse_usize_range(&c, a, b)
}

} // verus!
