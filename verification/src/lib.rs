//! Beat sequencing and polyphonic sample mixing for a small drum machine,
//! with the logic of the controls around it.
//!
//! The sequencer in [`sound::score`] turns a clock reading and a tempo into
//! the notes that are due. The mixer in [`sound::playback`] turns the voices
//! that are playing into the frames that the output device can take.
//! [`control`] is one iteration of the loop that ties the two to the
//! controls. [`hal`] and [`input`] tell what the readings of the hardware
//! mean, [`command`] and [`console`] read and write the texts of the remote
//! channels, and [`sampler`] keeps a window of samples of a light sensor.
//!
//! Nothing here touches a device. The caller reads the hardware, hands the
//! readings over as plain values, and carries out what comes back. All
//! quantities are whole numbers in fixed point, so every result is exact
//! and is stated in the contract of the function that gives it.

pub mod command;
pub mod console;
pub mod control;
pub mod hal;
pub mod input;
pub mod sampler;
pub mod sound;
pub mod text;
pub mod time;
pub mod units;
