//! Control core of a shake-activated digital dice roller: windowed sensor
//! statistics, zone-based settings decoding with hysteresis, entropy-driven
//! random generation, display encoding, and the device state machine.

pub mod animation;
pub mod device;
pub mod display;
pub mod random;
pub mod scales;
pub mod utils;
