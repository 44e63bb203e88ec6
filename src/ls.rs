use vstd::prelude::*;

verus! {

/// The arguments of the listing command; it takes none.
pub struct Args {}

/// The letter shown for a priority: `A` to `Z` for 0 to 25, a blank for no priority.
pub fn priority_letter(priority: u8) -> (c: char)
    ensures
        priority < 26 ==> c as u32 == 65 + priority as u32,
        priority >= 26 ==> c == ' ',
{
    if priority < 26 {
        (65u8 + priority) as char
    } else {
        ' '
    }
}

} // verus!
