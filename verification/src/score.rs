use vstd::prelude::*;

verus! {

/// The combo that a score is taken to have: the one given, or, where none is
/// given (a negative combo), the full combo less one for each miss.
pub fn default_combo(combo: i32, max_combo: i32, nmiss: i32) -> (c: i32)
    requires
        combo < 0 ==> i32::MIN <= max_combo - nmiss <= i32::MAX,
    ensures
        c == if combo < 0 {
            max_combo - nmiss
        } else {
            combo as int
        },
{
    if combo < 0 {
        max_combo - nmiss
    } else {
        combo
    }
}

/// The number of 300s of a score: every object that is neither a 100, a 50
/// nor a miss. Each difference, taken from left to right, must fit in an
/// `i32`.
pub fn count_300s(nobjects: i32, n100: i32, n50: i32, nmiss: i32) -> (n: i32)
    requires
        i32::MIN <= nobjects - n100 <= i32::MAX,
        i32::MIN <= nobjects - n100 - n50 <= i32::MAX,
        i32::MIN <= nobjects - n100 - n50 - nmiss <= i32::MAX,
    ensures
        n == nobjects - n100 - n50 - nmiss,
{
    nobjects - n100 - n50 - nmiss
}

} // verus!
