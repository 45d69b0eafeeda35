//! Decoding touches from an FT6206 capacitive touch controller.
use vstd::prelude::*;

use crate::bus::{is_write_read, read_reg, read_regs, I2cOp};

verus! {

/// I2C address of the controller.
pub const I2C_ADDR: u8 = 0x38;
/// Number of touch points detected.
pub const TD_STATUS_REG: u8 = 0x02;
/// First register of touch point 1 (XH, XL, YH, YL, weight, misc).
pub const P1_XH_REG: u8 = 0x03;
/// First register of touch point 2.
pub const P2_XH_REG: u8 = 0x09;

/// One touch point as the controller reports it.
#[derive(Clone, Copy, PartialEq, Eq, Structural, Debug)]
pub struct Touch {
    /// 12-bit X position.
    pub x: u16,
    /// 12-bit Y position.
    pub y: u16,
    pub weight: u8,
    pub area: u8,
    /// Touch id (0..15).
    pub id: u8,
    /// Event: 0 press down, 1 lift up, 2 contact, 3 no event.
    pub event_flag: u8,
}

/// The kind of event reported with a touch point.
#[derive(Clone, Copy, PartialEq, Eq, Structural, Debug)]
pub enum TouchEventFlag {
    PressDown,
    LiftUp,
    Contact,
    NoEvent,
}

impl TouchEventFlag {
    /// The event coded by the two event bits: 0 press down, 1 lift up,
    /// 2 contact, 3 no event (only the low two bits are looked at).
    pub fn from_bits(bits: u8) -> (e: TouchEventFlag)
        ensures
            e == (if bits % 4 == 0 {
                TouchEventFlag::PressDown
            } else if bits % 4 == 1 {
                TouchEventFlag::LiftUp
            } else if bits % 4 == 2 {
                TouchEventFlag::Contact
            } else {
                TouchEventFlag::NoEvent
            }),
    {
        let b: u8 = bits % 4;
        if b == 0 {
            TouchEventFlag::PressDown
        } else if b == 1 {
            TouchEventFlag::LiftUp
        } else if b == 2 {
            TouchEventFlag::Contact
        } else {
            TouchEventFlag::NoEvent
        }
    }
}

/// The touch described by six consecutive point registers.
pub open spec fn touch_from_regs(r: Seq<u8>) -> Touch {
    Touch {
        x: ((r[0] % 16) as int * 256 + r[1] as int) as u16,
        y: ((r[2] % 16) as int * 256 + r[3] as int) as u16,
        weight: r[4],
        area: r[5],
        id: r[2] / 16,
        event_flag: r[0] / 64,
    }
}

impl Touch {
    /// Decodes the six registers of a touch point: the low nibble of XH and
    /// XL form X, the low nibble of YH and YL form Y, the high nibble of YH is
    /// the id and the top two bits of XH the event.
    pub fn from_regs(r: &[u8; 6]) -> (t: Touch)
        ensures
            t == touch_from_regs(r@),
            t.x < 4096,
            t.y < 4096,
            t.id < 16,
            t.event_flag < 4,
    {
        let xh: u8 = r[0];
        let xl: u8 = r[1];
        let yh: u8 = r[2];
        let yl: u8 = r[3];
        let x: u16 = (((xh & 0x0F) as u16) << 8u16) | (xl as u16);
        let y: u16 = (((yh & 0x0F) as u16) << 8u16) | (yl as u16);
        assert(x == (xh % 16) as u16 * 256 + xl as u16 && y == (yh % 16) as u16 * 256 + yl as u16
            && yh >> 4u8 == yh / 16 && xh >> 6u8 == xh / 64) by (bit_vector)
            requires
                x == (((xh & 0x0F) as u16) << 8u16) | (xl as u16),
                y == (((yh & 0x0F) as u16) << 8u16) | (yl as u16),
        ;
        Touch { x, y, weight: r[4], area: r[5], id: yh >> 4u8, event_flag: xh >> 6u8 }
    }

    /// Where the trail marker of this touch goes on the landscape screen:
    /// the controller's X is the screen row and its Y, mirrored across the
    /// 320-pixel width, the screen column; the marker's top-left corner sits
    /// five pixels up and left of that point. A touch at X = 0 carries no
    /// position and gives no marker.
    pub fn trail_corner(&self) -> (c: Option<(i32, i32)>)
        ensures
            c is None <==> self.x == 0,
            self.x != 0 ==> c == Some(((320 - self.y - 5) as i32, (self.x - 5) as i32)),
    {
        if self.x == 0 {
            None
        } else {
            let row: i32 = self.x as i32;
            let column: i32 = 320i32 - self.y as i32;
            Some((column - 5, row - 5))
        }
    }
}

/// Where a touch read stands.
#[derive(Clone, Copy, PartialEq, Eq, Structural, Debug)]
pub enum ReadPhase {
    /// Read the six registers of point 1.
    ReadFirst,
    /// Decode point 1 from the reply; read TD_STATUS.
    ReadStatus,
    /// If the reply says two points are down, read point 2; else finish.
    CheckStatus,
    /// Decode point 2 from the reply and finish.
    ReadSecond,
    /// The read has finished.
    Done,
}

/// What the caller does next for a touch read.
#[derive(Debug)]
pub enum ReadStep {
    /// Perform the transaction and pass its reply to the next call.
    Op(I2cOp),
    /// The first touch point and, when two are down, the second.
    Finished(Touch, Option<Touch>),
}

/// The number of bytes the reply must hold in each phase.
pub open spec fn touch_reply_len(phase: ReadPhase) -> Option<nat> {
    match phase {
        ReadPhase::ReadStatus | ReadPhase::ReadSecond => Some(6),
        ReadPhase::CheckStatus => Some(1),
        _ => None,
    }
}

/// A read of the current touch points in progress.
pub struct PointsRead {
    pub phase: ReadPhase,
    pub first: Touch,
}

/// The controller on its I2C bus.
pub struct TouchBreakoutCap {}

impl TouchBreakoutCap {
    pub fn new() -> TouchBreakoutCap {
        TouchBreakoutCap {}
    }

    /// Starts reading the touch points.
    pub fn read_points(&self) -> (r: PointsRead)
        ensures
            r.phase == ReadPhase::ReadFirst,
    {
        PointsRead {
            phase: ReadPhase::ReadFirst,
            first: Touch { x: 0, y: 0, weight: 0, area: 0, id: 0, event_flag: 0 },
        }
    }
}

impl PointsRead {
    /// Takes the next step of the read, given the reply to the previous
    /// transaction.
    pub fn next(&mut self, reply: &[u8]) -> (step: ReadStep)
        requires
            old(self).phase != ReadPhase::Done,
            touch_reply_len(old(self).phase) matches Some(n) ==> reply@.len() == n,
        ensures
            step is Finished <==> final(self).phase == ReadPhase::Done,
            match old(self).phase {
                ReadPhase::ReadFirst => final(self).phase == ReadPhase::ReadStatus && (
                step matches ReadStep::Op(op) && is_write_read(op, I2C_ADDR, seq![P1_XH_REG], 6)),
                ReadPhase::ReadStatus => final(self).phase == ReadPhase::CheckStatus
                    && final(self).first == touch_from_regs(reply@) && (step matches ReadStep::Op(
                    op,
                ) && is_write_read(op, I2C_ADDR, seq![TD_STATUS_REG], 1)),
                ReadPhase::CheckStatus => if reply@[0] == 2 {
                    final(self).phase == ReadPhase::ReadSecond && final(self).first == old(
                        self,
                    ).first && (step matches ReadStep::Op(op) && is_write_read(
                        op,
                        I2C_ADDR,
                        seq![P2_XH_REG],
                        6,
                    ))
                } else {
                    step matches ReadStep::Finished(t0, t1) && t0 == old(self).first && t1
                        == None::<Touch>
                },
                ReadPhase::ReadSecond => step matches ReadStep::Finished(t0, t1) && t0 == old(
                    self,
                ).first && t1 == Some(touch_from_regs(reply@)),
                ReadPhase::Done => true,
            },
    {
        match self.phase {
            ReadPhase::ReadFirst => {
                self.phase = ReadPhase::ReadStatus;
                ReadStep::Op(read_regs(I2C_ADDR, P1_XH_REG, 6))
            },
            ReadPhase::ReadStatus => {
                let r: [u8; 6] = [reply[0], reply[1], reply[2], reply[3], reply[4], reply[5]];
                proof {
                    assert(r@ =~= reply@);
                }
                self.first = Touch::from_regs(&r);
                self.phase = ReadPhase::CheckStatus;
                ReadStep::Op(read_reg(I2C_ADDR, TD_STATUS_REG))
            },
            ReadPhase::CheckStatus => {
                if reply[0] == 2 {
                    self.phase = ReadPhase::ReadSecond;
                    ReadStep::Op(read_regs(I2C_ADDR, P2_XH_REG, 6))
                } else {
                    self.phase = ReadPhase::Done;
                    ReadStep::Finished(self.first, None)
                }
            },
            ReadPhase::ReadSecond => {
                let r: [u8; 6] = [reply[0], reply[1], reply[2], reply[3], reply[4], reply[5]];
                proof {
                    assert(r@ =~= reply@);
                }
                let second = Touch::from_regs(&r);
                self.phase = ReadPhase::Done;
                ReadStep::Finished(self.first, Some(second))
            },
            ReadPhase::Done => ReadStep::Finished(self.first, None),
        }
    }
}

} // verus!
