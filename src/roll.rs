//! The small rules of a check: whether a character has a sheet, and the total
//! of a roll.
use vstd::prelude::*;

verus! {

/// Is `name` among the sheet titles?
pub fn has_sheet_titled(titles: &Vec<String>, name: &str) -> (r: bool)
    ensures
        r == exists|i: int| 0 <= i < titles@.len() && (#[trigger] titles@[i])@ == name@,
{
    let wanted = String::from_str(name);
    let mut i: usize = 0;
    while i < titles.len()
        invariant
            wanted@ == name@,
            i <= titles@.len(),
            forall|k: int| 0 <= k < i ==> (#[trigger] titles@[k])@ != name@,
        decreases titles.len() - i,
    {
        if titles[i] == wanted {
            return true;
        }
        i += 1;
    }
    false
}

/// The total of a check: the first ability's value, the second's (or the first's
/// again when only one was named), plus one die, minus another.
pub open spec fn check_total(first: u8, second: Option<u8>, plus_die: u8, minus_die: u8) -> int {
    let other = match second {
        Some(v) => v,
        None => first,
    };
    first + other + plus_die - minus_die
}

/// Computes [`check_total`] without overflow.
pub fn roll_total(first: u8, second: Option<u8>, plus_die: u8, minus_die: u8) -> (r: i32)
    ensures
        r == check_total(first, second, plus_die, minus_die),
{
    let other: u8 = match second {
        Some(v) => v,
        None => first,
    };
    first as i32 + other as i32 + plus_die as i32 - minus_die as i32
}

} // verus!
