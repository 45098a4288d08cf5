//! A toolkit for driving the RGB leds of a BlinkStick device over its HID
//! feature-report channel: absolute colors, gradients, and paced animations.

pub mod address;
pub mod animation;
pub mod codec;
pub mod color;
pub mod device;
pub mod error;
pub mod transport;

pub use animation::remaining_sleep_ms;
pub use color::calculate_gradients;
pub use color::Color;
pub use device::BlinkStick;
pub use error::FeatureError;
pub use error::FeatureErrorType;
