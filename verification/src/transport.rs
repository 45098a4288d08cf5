use crate::error::{spec_get_error, spec_send_error, FeatureError, FeatureErrorType};
use vstd::prelude::*;

verus! {

#[verifier::external_type_specification]
#[verifier::external_body]
pub struct ExHidApi(hidapi::HidApi);

#[verifier::external_type_specification]
#[verifier::external_body]
pub struct ExHidDevice(hidapi::HidDevice);

#[verifier::external_type_specification]
#[verifier::external_body]
pub struct ExHidError(hidapi::HidError);

#[verifier::external_type_specification]
#[verifier::external_body]
pub struct ExInstant(std::time::Instant);

/// Relies on std::time::Instant::now: a reading of the monotonic clock.
pub assume_specification[ std::time::Instant::now ]() -> std::time::Instant;

/// Relies on std::time::Instant::elapsed: the time that passed since the
/// instant was taken.
pub assume_specification[ std::time::Instant::elapsed ](start: &std::time::Instant) -> std::time::Duration;

/// Relies on std::time::Duration::as_millis: the duration in whole
/// milliseconds.
pub assume_specification[ std::time::Duration::as_millis ](duration: &std::time::Duration) -> u128;

/// Relies on hidapi::HidApi::new: builds a hid context, or reports why the
/// platform refused one.
#[verifier::external_body]
pub(crate) fn hid_api_new() -> Result<hidapi::HidApi, hidapi::HidError> {
    hidapi::HidApi::new()
}

/// Relies on hidapi::HidApi::open: opens the first attached device that
/// carries the given vendor and product ids, or reports that none does.
#[verifier::external_body]
pub(crate) fn hid_open(api: &hidapi::HidApi, vendor_id: u16, product_id: u16) -> Result<
    hidapi::HidDevice,
    hidapi::HidError,
> {
    api.open(vendor_id, product_id)
}

/// Relies on hidapi::HidDevice::send_feature_report: hands the device one
/// feature report whose first byte is the report id.
#[verifier::external_body]
pub(crate) fn hid_send_feature_report(device: &hidapi::HidDevice, report: &Vec<u8>) -> Result<
    (),
    hidapi::HidError,
> {
    device.send_feature_report(report.as_slice())
}

/// Relies on hidapi::HidDevice::get_feature_report: reads the feature report
/// whose id stands in the first byte of `buffer` into `buffer`, and says how
/// many bytes came back; the buffer keeps its length either way.
#[verifier::external_body]
pub(crate) fn hid_get_feature_report(device: &hidapi::HidDevice, buffer: &mut Vec<u8>) -> (outcome:
    Result<usize, hidapi::HidError>)
    ensures
        final(buffer)@.len() == old(buffer)@.len(),
{
    device.get_feature_report(buffer.as_mut_slice())
}

/// Relies on spin_sleep::sleep: blocks the calling thread for the given
/// number of milliseconds.
#[verifier::external_body]
pub(crate) fn sleep_ms(millis: u64) {
    spin_sleep::sleep(std::time::Duration::from_millis(millis));
}

/// The whole milliseconds that passed since `start`, clamped into a `u64`.
pub(crate) fn elapsed_millis(start: &std::time::Instant) -> u64 {
    let millis = start.elapsed().as_millis();
    if millis > u64::MAX as u128 {
        u64::MAX
    } else {
        millis as u64
    }
}

/// The retry schedule of the transaction layer, as the milliseconds to wait
/// before the attempt with the given index: the first five attempts run back
/// to back, the sixth waits a short backoff, and no further attempt is made.
pub open spec fn spec_attempt_backoff(attempt: u32) -> Option<u64> {
    if attempt < 5 {
        Some(0)
    } else if attempt == 5 {
        Some(10)
    } else {
        None
    }
}

/// The retry schedule of the transaction layer: five immediate attempts, one
/// delayed attempt, then no more.
pub fn attempt_backoff_ms(attempt: u32) -> (backoff: Option<u64>)
    ensures
        backoff == spec_attempt_backoff(attempt),
{
    if attempt < 5 {
        Some(0)
    } else if attempt == 5 {
        Some(10)
    } else {
        None
    }
}

/// Sends one feature report, retrying on the schedule of
/// `attempt_backoff_ms`; a failure means every attempt failed.
pub(crate) fn send_feature(device: &hidapi::HidDevice, report: &Vec<u8>) -> (outcome: Result<
    (),
    FeatureError,
>)
    ensures
        outcome is Err ==> outcome->Err_0 == spec_send_error(),
{
    let mut attempt: u32 = 0;
    loop
        invariant
            attempt <= 6,
        decreases 7 - attempt,
    {
        match attempt_backoff_ms(attempt) {
            None => {
                return Err(FeatureError { kind: FeatureErrorType::Send });
            },
            Some(backoff) => {
                if backoff > 0 {
                    sleep_ms(backoff);
                }
                if hid_send_feature_report(device, report).is_ok() {
                    return Ok(());
                }
            },
        }
        attempt = attempt + 1;
    }
}

/// Reads one feature report into a fresh buffer of `buffer_len` bytes whose
/// first byte holds `report_id`, retrying on the schedule of
/// `attempt_backoff_ms`; a success hands back the buffer and the byte count
/// the device reported, a failure means every attempt failed.
pub(crate) fn get_feature(device: &hidapi::HidDevice, report_id: u8, buffer_len: usize) -> (outcome:
    Result<(Vec<u8>, usize), FeatureError>)
    requires
        buffer_len >= 1,
    ensures
        outcome is Ok ==> outcome->Ok_0.0@.len() == buffer_len,
        outcome is Err ==> outcome->Err_0 == spec_get_error(),
{
    let mut buffer: Vec<u8> = Vec::new();
    buffer.push(report_id);
    while buffer.len() < buffer_len
        invariant
            1 <= buffer@.len() <= buffer_len,
        decreases buffer_len - buffer@.len(),
    {
        buffer.push(0);
    }
    let mut attempt: u32 = 0;
    loop
        invariant
            attempt <= 6,
            buffer@.len() == buffer_len,
        decreases 7 - attempt,
    {
        match attempt_backoff_ms(attempt) {
            None => {
                return Err(FeatureError { kind: FeatureErrorType::Get });
            },
            Some(backoff) => {
                if backoff > 0 {
                    sleep_ms(backoff);
                }
                match hid_get_feature_report(device, &mut buffer) {
                    Ok(bytes_read) => {
                        return Ok((buffer, bytes_read));
                    },
                    Err(_) => {},
                }
            },
        }
        attempt = attempt + 1;
    }
}

} // verus!
