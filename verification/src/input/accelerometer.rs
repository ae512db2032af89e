//! A three-axis analog accelerometer read through the converter.

use vstd::prelude::*;

use crate::hal::mcp320x::Channel;

verus! {

/// An acceleration in thousandths of the standard gravity.
pub type Acceleration = u128;

/// The accelerations along the three axes.
pub type Measurement = [Acceleration; 3];

/// The inputs of the converter that the axes are wired to, and the scale of
/// the sensor.
pub struct Accelerometer {
    x_axis: Channel,
    y_axis: Channel,
    z_axis: Channel,
    voltage_per_g: u32,
    sample_count: usize,
}

impl Accelerometer {
    /// The input of the first axis.
    pub closed spec fn x_axis(self) -> Channel {
        self.x_axis
    }

    /// The input of the second axis.
    pub closed spec fn y_axis(self) -> Channel {
        self.y_axis
    }

    /// The input of the third axis.
    pub closed spec fn z_axis(self) -> Channel {
        self.z_axis
    }

    /// The microvolts that one standard gravity adds to the output.
    pub closed spec fn voltage_per_g(self) -> int {
        self.voltage_per_g as int
    }

    /// How many readings go into the median of one axis.
    pub closed spec fn sample_count(self) -> int {
        self.sample_count as int
    }

    /// The scale of the sensor is not zero.
    pub open spec fn wf(self) -> bool {
        self.voltage_per_g() > 0
    }

    /// The acceleration that the voltage `voltage` microvolts stands for,
    /// rounded down.
    pub open spec fn acceleration_of(self, voltage: int) -> int {
        voltage * 1000 / self.voltage_per_g()
    }

    /// An accelerometer on the three inputs, with its scale in microvolts
    /// per standard gravity, read five times per axis.
    pub fn new(x_axis: Channel, y_axis: Channel, z_axis: Channel, voltage_per_g: u32) -> (r: Self)
        requires
            voltage_per_g > 0,
        ensures
            r.wf(),
            r.x_axis() == x_axis,
            r.y_axis() == y_axis,
            r.z_axis() == z_axis,
            r.voltage_per_g() == voltage_per_g,
            r.sample_count() == 5,
    {
        Accelerometer { x_axis, y_axis, z_axis, voltage_per_g, sample_count: 5 }
    }

    /// How many readings go into the median of one axis.
    pub fn samples_per_axis(&self) -> (r: usize)
        ensures
            r == self.sample_count(),
    {
        self.sample_count
    }

    /// The accelerations that the median voltages of the three axes stand
    /// for, each voltage in microvolts, or nothing if a reading failed.
    pub fn get(&self, voltages: [Option<u64>; 3]) -> (r: Option<Measurement>)
        requires
            self.wf(),
        ensures
            r.is_some() <==> voltages[0].is_some() && voltages[1].is_some()
                && voltages[2].is_some(),
            r.is_some() ==> forall|i: int|
                0 <= i < 3 ==> (#[trigger] r.unwrap()[i]) == self.acceleration_of(
                    voltages[i].unwrap() as int,
                ),
    {
        match (voltages[0], voltages[1], voltages[2]) {
            (Some(x), Some(y), Some(z)) => {
                let scale: u128 = self.voltage_per_g as u128;
                let x: u128 = x as u128;
                let y: u128 = y as u128;
                let z: u128 = z as u128;
                Some([x * 1000 / scale, y * 1000 / scale, z * 1000 / scale])
            },
            _ => None,
        }
    }

    /// The inputs to read, in the order of the axes.
    pub fn channels(&self) -> (r: [Channel; 3])
        ensures
            r[0] == self.x_axis(),
            r[1] == self.y_axis(),
            r[2] == self.z_axis(),
    {
        [self.x_axis, self.y_axis, self.z_axis]
    }
}

} // verus!
