use vstd::prelude::*;

verus! {

/// The number of colours in which the overlay shows the frame rate, from the slowest
/// to the fastest.
pub const FPS_COLORS: usize = 6;

/// The colour of a frame rate by its tens: the first colour below 30 frames a second,
/// one colour further for every ten frames more, and the last colour from 70 on.
pub open spec fn color_index(tens: int) -> int {
    if tens - 2 < 0 {
        0
    } else if tens - 2 > 5 {
        5
    } else {
        tens - 2
    }
}

/// Picks the colour for a frame rate, given the number of whole tens in it.
pub fn fps_color_index(tens: i64) -> (i: usize)
    ensures
        i == color_index(tens as int),
        i < FPS_COLORS,
{
    if tens < 2 {
        0
    } else if tens > 7 {
        5
    } else {
        (tens - 2) as usize
    }
}

} // verus!
