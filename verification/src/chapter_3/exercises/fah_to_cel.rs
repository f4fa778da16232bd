//! Fahrenheit to Celsius, in whole degrees.

use vstd::prelude::*;

verus! {

/// The whole degrees Celsius of a temperature in degrees Fahrenheit: five
/// ninths of what lies above thirty-two, with the fraction cut off towards
/// zero.
pub open spec fn celsius_of(fahrenheit: int) -> int {
    let ninths = (fahrenheit - 32) * 5;
    if ninths >= 0 {
        ninths / 9
    } else {
        -((-ninths) / 9)
    }
}

/// Converts a temperature from degrees Fahrenheit to whole degrees Celsius.
pub fn convert_fah_to_celcius(fahrenheit: i32) -> (celsius: i32)
    ensures
        celsius == celsius_of(fahrenheit as int),
{
    let ninths: i64 = (fahrenheit as i64 - 32) * 5;
    if ninths >= 0 {
        (ninths / 9) as i32
    } else {
        (-((-ninths) / 9)) as i32
    }
}

} // verus!
