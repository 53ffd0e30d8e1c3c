//! Samples of the magnetometer.

use vstd::prelude::*;

verus! {

/// One sample of the magnetic field: the raw reading of each axis.
#[derive(Debug, Clone, Copy, PartialEq, Eq, Structural)]
pub struct MagnetometerData {
    pub x: i16,
    pub y: i16,
    pub z: i16,
}

/// The signed 16-bit number whose two's complement form has `low` as its
/// low byte and `high` as its high byte.
pub open spec fn le_i16(low: u8, high: u8) -> int {
    if high >= 128 {
        low + 256 * high - 65536
    } else {
        low + 256 * high
    }
}

/// The signed 16-bit number stored as the bytes `low`, `high`.
pub fn i16_from_le(low: u8, high: u8) -> (value: i16)
    ensures
        value == le_i16(low, high),
{
    let high_part: i32 = if high >= 128 {
        high as i32 - 256
    } else {
        high as i32
    };
    (high_part * 256 + low as i32) as i16
}

impl MagnetometerData {
    /// The sample that the sensor's six output bytes hold: x, y and z in
    /// turn, each as two bytes with the low byte first.
    pub fn from_le_bytes(buffer: &[u8; 6]) -> (sample: MagnetometerData)
        ensures
            sample.x == le_i16(buffer[0], buffer[1]),
            sample.y == le_i16(buffer[2], buffer[3]),
            sample.z == le_i16(buffer[4], buffer[5]),
    {
        MagnetometerData {
            x: i16_from_le(buffer[0], buffer[1]),
            y: i16_from_le(buffer[2], buffer[3]),
            z: i16_from_le(buffer[4], buffer[5]),
        }
    }
}

impl Default for MagnetometerData {
    /// The sample with every axis at zero.
    fn default() -> (sample: MagnetometerData)
        ensures
            sample.x == 0,
            sample.y == 0,
            sample.z == 0,
    {
        MagnetometerData { x: 0, y: 0, z: 0 }
    }
}

} // verus!
