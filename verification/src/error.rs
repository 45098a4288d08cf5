use vstd::prelude::*;

verus! {

/// How a device operation failed.
#[derive(Debug, Clone, Copy, PartialEq, Eq, Structural)]
pub enum FeatureErrorType {
    /// Reading a feature report failed on every attempt.
    Get,
    /// Sending a feature report failed on every attempt.
    Send,
    /// No device channel could be opened.
    Open,
    /// A caller addressed `led` on a device that only has `max_leds` leds
    /// (the valid indices run from 0 up to but not including `max_leds`).
    OutOfRange { led: u8, max_leds: u8 },
}

/// The error every device operation returns when it fails.
#[derive(Debug, Clone, Copy, PartialEq, Eq, Structural)]
pub struct FeatureError {
    pub kind: FeatureErrorType,
}

/// The error that names an out-of-range led index and the led count that
/// bounds the valid range.
pub open spec fn spec_out_of_range(led: u8, max_leds: u8) -> FeatureError {
    FeatureError { kind: FeatureErrorType::OutOfRange { led, max_leds } }
}

pub open spec fn spec_send_error() -> FeatureError {
    FeatureError { kind: FeatureErrorType::Send }
}

pub open spec fn spec_get_error() -> FeatureError {
    FeatureError { kind: FeatureErrorType::Get }
}

pub open spec fn spec_open_error() -> FeatureError {
    FeatureError { kind: FeatureErrorType::Open }
}

} // verus!
