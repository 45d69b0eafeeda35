//! I2C transactions that the drivers ask the caller to perform.
use vstd::prelude::*;

verus! {

/// One I2C transaction with a device, or a pause.
#[derive(Debug, PartialEq, Eq)]
pub enum I2cOp {
    /// Write the bytes to the device.
    Write { address: u8, bytes: Vec<u8> },
    /// Write the bytes, then read `read_len` bytes back in the same transaction.
    WriteRead { address: u8, bytes: Vec<u8>, read_len: usize },
    /// Wait this many milliseconds.
    DelayMs(u32),
}

/// `op` writes exactly `bytes` to `address`.
pub open spec fn is_write(op: I2cOp, address: u8, bytes: Seq<u8>) -> bool {
    match op {
        I2cOp::Write { address: a, bytes: b } => a == address && b@ == bytes,
        _ => false,
    }
}

/// `op` writes `bytes` to `address` and reads `n` bytes back.
pub open spec fn is_write_read(op: I2cOp, address: u8, bytes: Seq<u8>, n: nat) -> bool {
    match op {
        I2cOp::WriteRead { address: a, bytes: b, read_len } => a == address && b@ == bytes
            && read_len == n,
        _ => false,
    }
}

/// `op` pauses for `ms` milliseconds.
pub open spec fn is_delay(op: I2cOp, ms: u32) -> bool {
    op == I2cOp::DelayMs(ms)
}

/// Writes `val` to register `reg`.
pub fn write_reg(address: u8, reg: u8, val: u8) -> (op: I2cOp)
    ensures
        is_write(op, address, seq![reg, val]),
{
    let mut bytes: Vec<u8> = Vec::new();
    bytes.push(reg);
    bytes.push(val);
    proof {
        assert(bytes@ =~= seq![reg, val]);
    }
    I2cOp::Write { address, bytes }
}

/// Reads one byte from register `reg`.
pub fn read_reg(address: u8, reg: u8) -> (op: I2cOp)
    ensures
        is_write_read(op, address, seq![reg], 1),
{
    let mut bytes: Vec<u8> = Vec::new();
    bytes.push(reg);
    proof {
        assert(bytes@ =~= seq![reg]);
    }
    I2cOp::WriteRead { address, bytes, read_len: 1 }
}

/// Reads `n` consecutive bytes starting at register `reg`.
pub fn read_regs(address: u8, reg: u8, n: usize) -> (op: I2cOp)
    ensures
        is_write_read(op, address, seq![reg], n as nat),
{
    let mut bytes: Vec<u8> = Vec::new();
    bytes.push(reg);
    proof {
        assert(bytes@ =~= seq![reg]);
    }
    I2cOp::WriteRead { address, bytes, read_len: n }
}

} // verus!
