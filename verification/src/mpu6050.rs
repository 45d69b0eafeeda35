//! Motion alert set-up of an MPU6050 accelerometer in the handle.
use vstd::prelude::*;

use crate::bus::{is_delay, is_write, write_reg, I2cOp};

verus! {

/// I2C address of the sensor.
pub const I2C_ADDR: u8 = 0x68;
/// PWR_MGMT_1.
pub const PWR_MGMT_1: u8 = 0x6B;
/// INT_ENABLE.
pub const INT_ENABLE: u8 = 0x38;

/// The sensor on its I2C bus.
pub struct MPU6050 {}

impl MPU6050 {
    pub fn new() -> MPU6050 {
        MPU6050 {}
    }

    /// The transactions that reset the sensor, wake it and enable the
    /// motion interrupt: PWR_MGMT_1 = 0x80, 10 ms, PWR_MGMT_1 = 0x00, 5 ms,
    /// PWR_MGMT_1 = 0x00, INT_ENABLE = 0x40.
    pub fn init_motionalert(&self) -> (ops: Vec<I2cOp>)
        ensures
            ops@.len() == 6,
            is_write(ops@[0], I2C_ADDR, seq![PWR_MGMT_1, 0x80]),
            is_delay(ops@[1], 10),
            is_write(ops@[2], I2C_ADDR, seq![PWR_MGMT_1, 0x00]),
            is_delay(ops@[3], 5),
            is_write(ops@[4], I2C_ADDR, seq![PWR_MGMT_1, 0x00]),
            is_write(ops@[5], I2C_ADDR, seq![INT_ENABLE, 0x40]),
    {
        let mut ops: Vec<I2cOp> = Vec::new();
        ops.push(write_reg(I2C_ADDR, PWR_MGMT_1, 0x80));
        ops.push(I2cOp::DelayMs(10));
        ops.push(write_reg(I2C_ADDR, PWR_MGMT_1, 0x00));
        ops.push(I2cOp::DelayMs(5));
        ops.push(write_reg(I2C_ADDR, PWR_MGMT_1, 0x00));
        ops.push(write_reg(I2C_ADDR, INT_ENABLE, 0x40));
        ops
    }
}

} // verus!
