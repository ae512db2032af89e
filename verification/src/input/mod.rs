//! What the player's controls mean, told from the readings of the
//! converter.

pub mod accelerometer;
pub mod drumkit;
pub mod joystick;
