use vstd::prelude::*;

verus! {

/// The duty cycle the control loop commands the speaker with: half of the
/// maximum duty (an audible square wave) while the board is classified as
/// falling, zero (silence) otherwise.
pub fn alarm_duty(falling: bool, max_duty: u16) -> (duty: u16)
    ensures
        duty == (if falling {
            max_duty / 2
        } else {
            0u16
        }),
{
    if falling {
        max_duty / 2
    } else {
        0
    }
}

} // verus!
