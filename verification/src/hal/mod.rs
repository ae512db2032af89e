//! The logic of the hardware peripherals, on the values that were read from
//! them.

pub mod button;
pub mod encoder;
pub mod mcp320x;
pub mod pwm;
