use crate::error::{FeatureError, FeatureErrorType};
use crate::error::spec_out_of_range;
use vstd::prelude::*;

verus! {

/// The most leds any supported device carries: the largest device keeps 32
/// leds of 3 channels each, a 98-byte report.
pub const MAX_DEVICE_LEDS: u8 = 32;

/// The size of the buffer a feature report is read into; every report fits,
/// since the largest is 98 bytes.
pub const REPORT_BUFFER_BYTES: usize = 100;

/// The led count a device's reported byte count stands for: two metadata
/// bytes, then three bytes per led, capped at the largest supported count.
pub open spec fn spec_max_leds(reported_bytes: int) -> int {
    if reported_bytes < 2 {
        0
    } else if (reported_bytes - 2) / 3 > 32 {
        32
    } else {
        (reported_bytes - 2) / 3
    }
}

/// The byte length of the all-leds feature report of a device with
/// `max_leds` leds.
pub open spec fn spec_report_length(max_leds: int) -> int {
    3 * max_leds + 2
}

/// Derives the led count from the byte count the device reported at open
/// time.
pub fn derive_max_leds(reported_bytes: usize) -> (max_leds: u8)
    ensures
        max_leds as int == spec_max_leds(reported_bytes as int),
        max_leds <= MAX_DEVICE_LEDS,
{
    if reported_bytes < 2 {
        0
    } else {
        let per_led = (reported_bytes - 2) / 3;
        if per_led > 32 {
            32
        } else {
            per_led as u8
        }
    }
}

/// The byte length of the all-leds feature report.
pub fn report_length(max_leds: u8) -> (length: usize)
    requires
        max_leds <= MAX_DEVICE_LEDS,
    ensures
        length as int == spec_report_length(max_leds as int),
        length <= REPORT_BUFFER_BYTES,
{
    (max_leds as usize) * 3 + 2
}

/// Accepts a led index exactly when the device has such a led; a rejection
/// carries the index and the led count that bounds the valid range.
pub fn validate_led(led: u8, max_leds: u8) -> (check: Result<(), FeatureError>)
    ensures
        check is Ok <==> led < max_leds,
        check is Err ==> check->Err_0 == spec_out_of_range(led, max_leds),
{
    if led < max_leds {
        Ok(())
    } else {
        Err(FeatureError { kind: FeatureErrorType::OutOfRange { led, max_leds } })
    }
}

/// Accepts a set of led indices exactly when the device has every one of
/// them; a rejection names the first index that falls outside the range.
pub fn validate_leds(leds: &[u8], max_leds: u8) -> (check: Result<(), FeatureError>)
    ensures
        check is Ok <==> (forall|i: int| 0 <= i < leds@.len() ==> leds@[i] < max_leds),
        check is Err ==> (exists|i: int|
            0 <= i < leds@.len() && leds@[i] >= max_leds && check->Err_0 == spec_out_of_range(
                leds@[i],
                max_leds,
            )),
{
    let mut checked: usize = 0;
    while checked < leds.len()
        invariant
            checked <= leds@.len(),
            forall|i: int| 0 <= i < checked ==> leds@[i] < max_leds,
        decreases leds@.len() - checked,
    {
        let led = leds[checked];
        if led >= max_leds {
            return Err(FeatureError { kind: FeatureErrorType::OutOfRange { led, max_leds } });
        }
        checked = checked + 1;
    }
    Ok(())
}

} // verus!
