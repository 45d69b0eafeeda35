//! USB Power Delivery negotiation through an FUSB302 controller: decoding the
//! source's capabilities, the register sequence that reads them, and the
//! request message for one of them.
use vstd::prelude::*;

use crate::bus::{is_delay, is_write, is_write_read, read_reg, read_regs, write_reg, I2cOp};

verus! {

/// Register holding the FIFO: reads and writes go through it.
pub const FIFO_REG: u8 = 0x43;

/// A fixed-supply power data object offered by the source.
#[derive(Clone, Copy, PartialEq, Eq, Structural, Debug)]
pub struct PDO {
    /// Position of the object in the source's list, from zero.
    pub id: u8,
    /// Voltage in millivolts.
    pub voltage: u16,
    /// Maximum current in milliamperes.
    pub current: u16,
}

/// Four bytes read little-endian as a 32-bit word.
pub open spec fn le32(b0: u8, b1: u8, b2: u8, b3: u8) -> u32 {
    (b0 as u32) | ((b1 as u32) << 8u32) | ((b2 as u32) << 16u32) | ((b3 as u32) << 24u32)
}

/// A fixed-supply PDO: bits 10..19 hold the voltage in 50 mV units, bits 0..9
/// the maximum current in 10 mA units.
pub open spec fn pdo_from_word(w: u32, id: u8) -> PDO {
    PDO { id, voltage: (((w >> 10u32) & 0x3ff) * 50) as u16, current: ((w & 0x3ff) * 10) as u16 }
}

impl PDO {
    /// Decodes the four bytes of a fixed-supply PDO, least significant first.
    pub fn from(data: &[u8; 4], id: u8) -> (p: Self)
        ensures
            p == pdo_from_word(le32(data@[0], data@[1], data@[2], data@[3]), id),
    {
        let d0: u8 = data[0];
        let d1: u8 = data[1];
        let d2: u8 = data[2];
        let d3: u8 = data[3];
        let vfield: u16 = (((d2 as u16) & 0x0F) << 6u16) | (((d1 as u16) >> 2u16) & 0x3F);
        let cfield: u16 = (((d1 as u16) & 0x03) << 8u16) | (d0 as u16);
        let ghost w = le32(d0, d1, d2, d3);
        assert(vfield as u32 == (w >> 10u32) & 0x3ff && cfield as u32 == w & 0x3ff
            && vfield < 1024 && cfield < 1024) by (bit_vector)
            requires
                vfield == (((d2 as u16) & 0x0F) << 6u16) | (((d1 as u16) >> 2u16) & 0x3F),
                cfield == (((d1 as u16) & 0x03) << 8u16) | (d0 as u16),
                w == (d0 as u32) | ((d1 as u32) << 8u32) | ((d2 as u32) << 16u32) | ((d3 as u32)
                    << 24u32),
        ;
        PDO { id, voltage: vfield * 50, current: cfield * 10 }
    }
}

/// Every decoded object has a voltage that is a multiple of 50 mV, at most
/// 51.15 V, and a current that is a multiple of 10 mA, at most 10.23 A.
pub proof fn lemma_pdo_ranges(w: u32, id: u8)
    ensures
        pdo_from_word(w, id).voltage % 50 == 0,
        pdo_from_word(w, id).voltage <= 51150,
        pdo_from_word(w, id).current % 10 == 0,
        pdo_from_word(w, id).current <= 10230,
        pdo_from_word(w, id).id == id,
{
    assert((w >> 10u32) & 0x3ff <= 1023 && w & 0x3ff <= 1023) by (bit_vector);
}

/// Start-of-packet sequence that precedes a request in the FIFO.
pub open spec fn sop_seq() -> Seq<u8> {
    seq![0x12u8, 0x12, 0x12, 0x13, 0x86]
}

/// End-of-packet sequence: JAM_CRC, EOP, TXOFF, TXON.
pub open spec fn eop_seq() -> Seq<u8> {
    seq![0xffu8, 0x14, 0xfe, 0xa1]
}

/// The request data object for a fixed supply: the maximum current (10 mA
/// units) in bits 0..9, the operating current from bit 10 on, bit 24 set
/// (no USB suspend), and the object position in bits 28..31.
pub open spec fn rdo_word(position: u8, cur_bits: u16, max_bits: u16) -> u32 {
    ((max_bits as u32) & 0x3ff) | (((cur_bits as u32) & 0x3fff) << 10u32) | 0x0100_0000u32 | (
    ((position as u32) & 0xf) << 28u32)
}

/// A 32-bit word as four bytes, least significant first.
pub open spec fn le_bytes(w: u32) -> Seq<u8> {
    seq![(w & 0xff) as u8, ((w >> 8u32) & 0xff) as u8, ((w >> 16u32) & 0xff) as u8, (w >> 24u32) as u8]
}

/// The six bytes of the request message: the two header bytes (request,
/// message id 0, one data object), then the request data object.
pub open spec fn request_message(position: u8, cur_bits: u16, max_bits: u16) -> Seq<u8> {
    seq![0x82u8, 0x10u8] + le_bytes(rdo_word(position, cur_bits, max_bits))
}

/// The request data object read back: bits 0..9 carry the maximum current,
/// bits 10..19 the operating current (both in 10 mA units, modulo 1024),
/// bit 24 is set, and bits 28..31 carry the object position (modulo 16); the
/// four message bytes read little-endian give the object back.
pub proof fn lemma_request_fields(position: u8, cur_bits: u16, max_bits: u16)
    ensures
        ({
            let rdo = rdo_word(position, cur_bits, max_bits);
            let b = le_bytes(rdo);
            &&& rdo & 0x3ff == (max_bits as u32) % 1024
            &&& (rdo >> 10u32) & 0x3ff == (cur_bits as u32) % 1024
            &&& (rdo >> 24u32) & 1 == 1
            &&& rdo >> 28u32 == (position as u32) % 16
            &&& le32(b[0], b[1], b[2], b[3]) == rdo
        }),
{
    let rdo = rdo_word(position, cur_bits, max_bits);
    assert(rdo & 0x3ff == (max_bits as u32) % 1024 && (rdo >> 10u32) & 0x3ff == (cur_bits as u32)
        % 1024 && (rdo >> 24u32) & 1 == 1 && rdo >> 28u32 == (position as u32) % 16) by (bit_vector)
        requires
            rdo == ((max_bits as u32) & 0x3ff) | (((cur_bits as u32) & 0x3fff) << 10u32)
                | 0x0100_0000u32 | (((position as u32) & 0xf) << 28u32),
    ;
    let b0 = (rdo & 0xff) as u8;
    let b1 = ((rdo >> 8u32) & 0xff) as u8;
    let b2 = ((rdo >> 16u32) & 0xff) as u8;
    let b3 = (rdo >> 24u32) as u8;
    assert(((b0 as u32) | ((b1 as u32) << 8u32) | ((b2 as u32) << 16u32) | ((b3 as u32) << 24u32))
        == rdo) by (bit_vector)
        requires
            b0 == (rdo & 0xff) as u8,
            b1 == ((rdo >> 8u32) & 0xff) as u8,
            b2 == ((rdo >> 16u32) & 0xff) as u8,
            b3 == (rdo >> 24u32) as u8,
    ;
}

/// Four bytes read little-endian: the first byte is the least significant.
pub proof fn lemma_le32_value(b0: u8, b1: u8, b2: u8, b3: u8)
    ensures
        le32(b0, b1, b2, b3) as int == b0 as int + 256 * b1 as int + 65536 * b2 as int + 16777216
            * b3 as int,
{
    assert(le32(b0, b1, b2, b3) as int == b0 as int + 256 * b1 as int + 65536 * b2 as int
        + 16777216 * b3 as int) by (bit_vector);
}

/// A fixed-supply object decodes as the power delivery specification lays it
/// out: the voltage is bits 10..19 of the object in 50 mV units and the
/// maximum current bits 0..9 in 10 mA units; the other bits are ignored.
pub proof fn lemma_pdo_decode(w: u32, id: u8)
    ensures
        pdo_from_word(w, id).voltage as int == (w as int / 1024) % 1024 * 50,
        pdo_from_word(w, id).current as int == w as int % 1024 * 10,
        pdo_from_word(w, id).id == id,
{
    assert((w >> 10u32) & 0x3ff == (w / 1024) % 1024 && w & 0x3ff == w % 1024) by (bit_vector);
}

/// The request message as the power delivery specification lays it out.
/// The 16-bit header, little-endian, is a Request (type 2), data role UFP,
/// specification revision 3.0, power role sink, message id 0, one data
/// object, not extended. The request data object, little-endian, carries the
/// maximum current in bits 0..9 and the operating current in bits 10..19
/// (10 mA units, modulo 1024), the operating current's next bits in 20..23,
/// no-USB-suspend in bit 24, zeros in bits 25..27 and the object position
/// in bits 28..31 (modulo 16).
pub proof fn lemma_request_message_layout(position: u8, cur_bits: u16, max_bits: u16)
    ensures
        ({
            let m = request_message(position, cur_bits, max_bits);
            let h = m[0] as int + 256 * m[1] as int;
            let r = m[2] as int + 256 * m[3] as int + 65536 * m[4] as int + 16777216 * m[5] as int;
            &&& m.len() == 6
            &&& h % 32 == 2
            &&& (h / 32) % 2 == 0
            &&& (h / 64) % 4 == 2
            &&& (h / 256) % 2 == 0
            &&& (h / 512) % 8 == 0
            &&& (h / 4096) % 8 == 1
            &&& h / 32768 == 0
            &&& r % 1024 == max_bits as int % 1024
            &&& (r / 1024) % 1024 == cur_bits as int % 1024
            &&& (r / 1048576) % 16 == (cur_bits as int / 1024) % 16
            &&& (r / 16777216) % 2 == 1
            &&& (r / 33554432) % 8 == 0
            &&& r / 268435456 == position as int % 16
        }),
{
    let rdo = rdo_word(position, cur_bits, max_bits);
    let m = request_message(position, cur_bits, max_bits);
    let b0 = (rdo & 0xff) as u8;
    let b1 = ((rdo >> 8u32) & 0xff) as u8;
    let b2 = ((rdo >> 16u32) & 0xff) as u8;
    let b3 = (rdo >> 24u32) as u8;
    assert(m =~= seq![0x82u8, 0x10u8, b0, b1, b2, b3]);
    assert(b0 as int + 256 * b1 as int + 65536 * b2 as int + 16777216 * b3 as int == rdo as int)
        by (bit_vector)
        requires
            b0 == (rdo & 0xff) as u8,
            b1 == ((rdo >> 8u32) & 0xff) as u8,
            b2 == ((rdo >> 16u32) & 0xff) as u8,
            b3 == (rdo >> 24u32) as u8,
    ;
    assert(rdo % 1024 == (max_bits as u32) % 1024 && (rdo / 1024) % 1024 == (cur_bits as u32) % 1024
        && (rdo / 1048576) % 16 == ((cur_bits as u32) / 1024) % 16 && (rdo / 16777216) % 2 == 1
        && (rdo / 33554432) % 8 == 0 && rdo / 268435456 == (position as u32) % 16) by (bit_vector)
        requires
            rdo == ((max_bits as u32) & 0x3ff) | (((cur_bits as u32) & 0x3fff) << 10u32)
                | 0x0100_0000u32 | (((position as u32) & 0xf) << 28u32),
    ;
}

/// The first object offering `voltage` millivolts, if any.
pub fn find_pdo(pdos: &Vec<PDO>, voltage: u16) -> (r: Option<PDO>)
    ensures
        r is None <==> forall|i: int| 0 <= i < pdos@.len() ==> #[trigger] pdos@[i].voltage != voltage,
        r matches Some(p) ==> exists|i: int|
            0 <= i < pdos@.len() && #[trigger] pdos@[i] == p && p.voltage == voltage && forall|j: int|
                0 <= j < i ==> #[trigger] pdos@[j].voltage != voltage,
{
    let mut i: usize = 0;
    while i < pdos.len()
        invariant
            i <= pdos@.len(),
            forall|j: int| 0 <= j < i ==> #[trigger] pdos@[j].voltage != voltage,
        decreases pdos@.len() - i,
    {
        if pdos[i].voltage == voltage {
            return Some(pdos[i]);
        }
        i = i + 1;
    }
    None
}

/// The FUSB302 at an I2C address.
pub struct Fusb {
    pub i2c_address: u8,
}

impl Fusb {
    pub fn new(i2c_address: u8) -> (f: Fusb)
        ensures
            f.i2c_address == i2c_address,
    {
        Fusb { i2c_address }
    }

    /// Writes `data` into the transmit FIFO.
    pub fn write_bmc(&self, data: &Vec<u8>) -> (op: I2cOp)
        ensures
            is_write(op, self.i2c_address, seq![FIFO_REG] + data@),
    {
        let mut bytes: Vec<u8> = Vec::new();
        bytes.push(FIFO_REG);
        let mut i: usize = 0;
        while i < data.len()
            invariant
                i <= data.len(),
                bytes@ == seq![FIFO_REG] + data@.take(i as int),
            decreases data.len() - i,
        {
            bytes.push(data[i]);
            proof {
                assert(data@.take(i + 1) =~= data@.take(i as int).push(data@[i as int]));
            }
            i = i + 1;
        }
        proof {
            assert(data@.take(data@.len() as int) =~= data@);
        }
        I2cOp::Write { address: self.i2c_address, bytes }
    }

    /// Reads `n` bytes from the receive FIFO.
    pub fn read_bmc(&self, n: usize) -> (op: I2cOp)
        ensures
            is_write_read(op, self.i2c_address, seq![FIFO_REG], n as nat),
    {
        read_regs(self.i2c_address, FIFO_REG, n)
    }

    /// The FIFO write that requests `pdo` with an operating current of
    /// `current_milliampere` and a maximum of `max_current_milliampere`
    /// (both rounded down to 10 mA): start-of-packet, the request message
    /// with message id 0 and object position `pdo.id + 1`, end-of-packet.
    pub fn request_pdo(&self, pdo: PDO, current_milliampere: u16, max_current_milliampere: u16) -> (op: I2cOp)
        requires
            pdo.id < 255,
        ensures
            is_write(
                op,
                self.i2c_address,
                seq![FIFO_REG] + sop_seq() + request_message(
                    (pdo.id + 1) as u8,
                    current_milliampere / 10,
                    max_current_milliampere / 10,
                ) + eop_seq(),
            ),
            ({
                let rdo = rdo_word((pdo.id + 1) as u8, current_milliampere / 10, max_current_milliampere / 10);
                &&& rdo & 0x3ff == (max_current_milliampere / 10) % 1024
                &&& (rdo >> 10u32) & 0x3ff == (current_milliampere / 10) % 1024
                &&& (rdo >> 24u32) & 1 == 1
                &&& rdo >> 28u32 == ((pdo.id + 1) as u32) % 16
            }),
    {
        let max_current_bits: u16 = max_current_milliampere / 10;
        let current_bits: u16 = current_milliampere / 10;
        let message_id: u8 = 0;
        let position: u8 = pdo.id + 1;
        let b1: u8 = 0x10 | ((message_id & 0x07) << 1u8);
        let b2: u8 = #[verifier::truncate] ((max_current_bits & 0xff) as u8);
        let b3: u8 = #[verifier::truncate] ((((max_current_bits >> 8u16) & 0x03) | ((current_bits << 2u16)
            & 0xfc)) as u8);
        let b4: u8 = #[verifier::truncate] ((current_bits >> 6u16) as u8);
        let b5: u8 = (position << 4u8) | 0x01;
        assert(b1 == 0x10) by (bit_vector)
            requires
                message_id == 0,
                b1 == 0x10 | ((message_id & 0x07) << 1u8),
        ;
        let mut v: Vec<u8> = Vec::new();
        v.push(0x12);
        v.push(0x12);
        v.push(0x12);
        v.push(0x13);
        v.push(0x86);
        v.push(0x82);
        v.push(b1);
        v.push(b2);
        v.push(b3);
        v.push(b4);
        v.push(b5);
        v.push(0xff);
        v.push(0x14);
        v.push(0xfe);
        v.push(0xa1);
        proof {
            lemma_request_fields(position, current_bits, max_current_bits);
            let rdo = rdo_word(position, current_bits, max_current_bits);
            assert(b2 == (rdo & 0xff) as u8 && b3 == ((rdo >> 8u32) & 0xff) as u8 && b4 == ((rdo
                >> 16u32) & 0xff) as u8 && b5 == (rdo >> 24u32) as u8) by (bit_vector)
                requires
                    rdo == ((max_current_bits as u32) & 0x3ff) | (((current_bits as u32) & 0x3fff)
                        << 10u32) | 0x0100_0000u32 | (((position as u32) & 0xf) << 28u32),
                    b2 == #[verifier::truncate] ((max_current_bits & 0xff) as u8),
                    b3 == #[verifier::truncate] ((((max_current_bits >> 8u16) & 0x03) | ((current_bits
                        << 2u16) & 0xfc)) as u8),
                    b4 == #[verifier::truncate] ((current_bits >> 6u16) as u8),
                    b5 == (position << 4u8) | 0x01,
            ;
            assert(v@ =~= sop_seq() + request_message(position, current_bits, max_current_bits)
                + eop_seq());
        }
        let op = self.write_bmc(&v);
        proof {
            assert(seq![FIFO_REG] + v@ =~= seq![FIFO_REG] + sop_seq() + request_message(
                position,
                current_bits,
                max_current_bits,
            ) + eop_seq());
        }
        op
    }
}

/// Where a capability scan stands: the step it takes next.
#[derive(Clone, Copy, PartialEq, Eq, Structural, Debug)]
pub enum ScanPhase {
    /// Write RESET (0x0C) = 0x03: software and PD logic reset.
    Reset,
    /// Write POWER (0x0B) = 0x0F: power up every block.
    Power,
    /// Write CONTROL0 (0x06) = 0x04: unmask interrupts.
    Unmask,
    /// Write CONTROL3 (0x09) = 0x07: three automatic retries.
    Retries,
    /// Write SWITCHES0 (0x02) = 0x07: measure CC1.
    MeasureCc1,
    /// Wait 1 ms.
    SettleCc1,
    /// Read STATUS0 (0x40).
    ReadCc1,
    /// Take the CC1 level from the STATUS0 reply; write SWITCHES0 = 0x0B: measure CC2.
    MeasureCc2,
    /// Wait 1 ms.
    SettleCc2,
    /// Read STATUS0 (0x40).
    ReadCc2,
    /// Take the CC2 level from the STATUS0 reply; finish with no object when
    /// both levels are equal, else read SWITCHES1 (0x03).
    CompareCc,
    /// From the SWITCHES1 reply, pick the line with the higher level for
    /// transmission; for CC1, write SWITCHES0 = 0x07 first.
    SelectCc,
    /// Write SWITCHES1.
    WriteSwitches,
    /// Write CONTROL0 = 0x44: flush the transmit FIFO.
    FlushTx,
    /// Write CONTROL1 (0x07) = 0x04: flush the receive FIFO.
    FlushRx,
    /// Write RESET = 0x02: reset the PD logic.
    ResetPd,
    /// Read STATUS1 (0x41).
    PollStatus,
    /// If the STATUS1 reply shows an empty receive FIFO (bit 5), clear the
    /// interrupts by reading STATUS0; else read the 3-byte message header.
    CheckStatus,
    /// Read INTERRUPTA (0x3E).
    ClearInterruptA,
    /// Read INTERRUPTB (0x3F).
    ClearInterruptB,
    /// Wait 1 ms.
    Wait,
    /// Finish with no object after the 52nd empty poll; else read STATUS1 again.
    CheckTimeout,
    /// Take the object count from bits 4..6 of the third header byte; read
    /// the first 4-byte object (or the CRC when there is none).
    ReadHeader,
    /// Decode the 4-byte reply as the next object; read the next 4 bytes.
    ReadPdo,
    /// Drop the CRC; write CONTROL1 = 0x04: flush the receive FIFO.
    ReadCrc,
    /// Finish with the decoded objects.
    Finish,
    /// The scan has finished.
    Done,
}

/// What the caller does next for a capability scan.
#[derive(Debug)]
pub enum ScanStep {
    /// Perform the transaction and pass its reply (the bytes read, if any)
    /// to the next call of [`PdScan::next`].
    Op(I2cOp),
    /// The scan is over, with these objects (empty when no PD source answered).
    Finished(Vec<PDO>),
}

pub open spec fn issues_write(step: ScanStep, address: u8, bytes: Seq<u8>) -> bool {
    match step {
        ScanStep::Op(op) => is_write(op, address, bytes),
        _ => false,
    }
}

pub open spec fn issues_read(step: ScanStep, address: u8, reg: u8, n: nat) -> bool {
    match step {
        ScanStep::Op(op) => is_write_read(op, address, seq![reg], n),
        _ => false,
    }
}

pub open spec fn issues_delay(step: ScanStep, ms: u32) -> bool {
    match step {
        ScanStep::Op(op) => is_delay(op, ms),
        _ => false,
    }
}

pub open spec fn finishes_with(step: ScanStep, pdos: Seq<PDO>) -> bool {
    match step {
        ScanStep::Finished(v) => v@ == pdos,
        _ => false,
    }
}

/// The number of bytes the reply passed to [`PdScan::next`] must hold in
/// each phase (phases that ignore the reply accept any length).
pub open spec fn reply_len(phase: ScanPhase) -> Option<nat> {
    match phase {
        ScanPhase::MeasureCc2 | ScanPhase::CompareCc | ScanPhase::SelectCc
        | ScanPhase::CheckStatus => Some(1),
        ScanPhase::ReadHeader => Some(3),
        ScanPhase::ReadPdo => Some(4),
        _ => None,
    }
}

/// Steps that the scan can still take before it finishes.
pub open spec fn phase_budget(phase: ScanPhase, timeout: u16, count: u8, index: u8) -> nat {
    let poll: int = 20 + (51 - timeout) * 5;
    let pre: int = 285int;
    (match phase {
        ScanPhase::Reset => pre + 16,
        ScanPhase::Power => pre + 15,
        ScanPhase::Unmask => pre + 14,
        ScanPhase::Retries => pre + 13,
        ScanPhase::MeasureCc1 => pre + 12,
        ScanPhase::SettleCc1 => pre + 11,
        ScanPhase::ReadCc1 => pre + 10,
        ScanPhase::MeasureCc2 => pre + 9,
        ScanPhase::SettleCc2 => pre + 8,
        ScanPhase::ReadCc2 => pre + 7,
        ScanPhase::CompareCc => pre + 6,
        ScanPhase::SelectCc => pre + 5,
        ScanPhase::WriteSwitches => pre + 4,
        ScanPhase::FlushTx => pre + 3,
        ScanPhase::FlushRx => pre + 2,
        ScanPhase::ResetPd => pre + 1,
        ScanPhase::PollStatus => pre,
        ScanPhase::CheckStatus => poll + 4,
        ScanPhase::ClearInterruptA => poll + 3,
        ScanPhase::ClearInterruptB => poll + 2,
        ScanPhase::Wait => poll + 1,
        ScanPhase::CheckTimeout => poll,
        ScanPhase::ReadHeader => 19int,
        ScanPhase::ReadPdo => 3 + (count - index) as int,
        ScanPhase::ReadCrc => 2,
        ScanPhase::Finish => 1,
        ScanPhase::Done => 0,
    }) as nat
}

/// A capability scan in progress: reads the source's fixed-supply objects
/// through the FUSB302, one I2C transaction at a time.
pub struct PdScan {
    pub address: u8,
    pub phase: ScanPhase,
    /// Level measured on CC1 (0..3).
    pub cc1: u8,
    /// Level measured on CC2 (0..3).
    pub cc2: u8,
    /// Value to write to SWITCHES1.
    pub switches1: u8,
    /// Empty polls of the receive FIFO so far.
    pub timeout: u16,
    /// Number of objects the header announced.
    pub count: u8,
    /// Objects decoded so far.
    pub index: u8,
    pub pdos: Vec<PDO>,
}

impl PdScan {
    /// The scan's counters agree with each other and with the objects decoded.
    pub open spec fn wf(&self) -> bool {
        &&& self.timeout <= 51
        &&& self.count <= 7
        &&& self.index <= self.count
        &&& self.pdos@.len() == self.index
        &&& forall|i: int| 0 <= i < self.pdos@.len() ==> #[trigger] self.pdos@[i].id == i
        &&& self.phase == ScanPhase::ReadPdo ==> self.index < self.count
        &&& (self.phase == ScanPhase::ReadCrc || self.phase == ScanPhase::Finish) ==> self.index
            == self.count
    }

    pub open spec fn budget(&self) -> nat {
        phase_budget(self.phase, self.timeout, self.count, self.index)
    }

    /// Takes the next step of the scan, given the reply to the previous
    /// transaction.
    pub fn next(&mut self, reply: &[u8]) -> (step: ScanStep)
        requires
            old(self).wf(),
            old(self).phase != ScanPhase::Done,
            reply_len(old(self).phase) matches Some(n) ==> reply@.len() == n,
        ensures
            final(self).wf(),
            final(self).address == old(self).address,
            step is Finished <==> final(self).phase == ScanPhase::Done,
            step is Op ==> final(self).budget() < old(self).budget(),
            step matches ScanStep::Finished(v) ==> forall|i: int|
                0 <= i < v@.len() ==> #[trigger] v@[i].id == i,
            old(self).phase != ScanPhase::MeasureCc2 ==> final(self).cc1 == old(self).cc1,
            old(self).phase != ScanPhase::CompareCc ==> final(self).cc2 == old(self).cc2,
            old(self).phase != ScanPhase::SelectCc ==> final(self).switches1 == old(self).switches1,
            !(old(self).phase == ScanPhase::ResetPd || old(self).phase == ScanPhase::CheckTimeout)
                ==> final(self).timeout == old(self).timeout,
            !(old(self).phase == ScanPhase::ReadHeader || old(self).phase == ScanPhase::ReadPdo
                || old(self).phase == ScanPhase::Finish) ==> final(self).count == old(self).count
                && final(self).index == old(self).index && final(self).pdos@ == old(self).pdos@,
            old(self).phase == ScanPhase::ReadPdo ==> final(self).index == old(self).index + 1,
            ({
                let a = old(self).address;
                let o = *old(self);
                let f = *final(self);
                match o.phase {
                    ScanPhase::Reset => issues_write(step, a, seq![0x0C, 0x03]) && f.phase
                        == ScanPhase::Power,
                    ScanPhase::Power => issues_write(step, a, seq![0x0B, 0x0F]) && f.phase
                        == ScanPhase::Unmask,
                    ScanPhase::Unmask => issues_write(step, a, seq![0x06, 0x04]) && f.phase
                        == ScanPhase::Retries,
                    ScanPhase::Retries => issues_write(step, a, seq![0x09, 0x07]) && f.phase
                        == ScanPhase::MeasureCc1,
                    ScanPhase::MeasureCc1 => issues_write(step, a, seq![0x02, 0x07]) && f.phase
                        == ScanPhase::SettleCc1,
                    ScanPhase::SettleCc1 => issues_delay(step, 1) && f.phase == ScanPhase::ReadCc1,
                    ScanPhase::ReadCc1 => issues_read(step, a, 0x40, 1) && f.phase
                        == ScanPhase::MeasureCc2,
                    ScanPhase::MeasureCc2 => issues_write(step, a, seq![0x02, 0x0B]) && f.phase
                        == ScanPhase::SettleCc2 && f.cc1 == reply@[0] & 0x03,
                    ScanPhase::SettleCc2 => issues_delay(step, 1) && f.phase == ScanPhase::ReadCc2,
                    ScanPhase::ReadCc2 => issues_read(step, a, 0x40, 1) && f.phase
                        == ScanPhase::CompareCc,
                    ScanPhase::CompareCc => f.cc2 == reply@[0] & 0x03 && f.cc1 == o.cc1 && if o.cc1
                        == reply@[0] & 0x03 {
                        finishes_with(step, seq![])
                    } else {
                        issues_read(step, a, 0x03, 1) && f.phase == ScanPhase::SelectCc
                    },
                    ScanPhase::SelectCc => if o.cc1 > o.cc2 {
                        issues_write(step, a, seq![0x02, 0x07]) && f.phase
                            == ScanPhase::WriteSwitches && f.switches1 == (reply@[0] & 0xF8)
                            | 0x01
                    } else {
                        issues_write(step, a, seq![0x03, (reply@[0] & 0xF8) | 0x02]) && f.phase
                            == ScanPhase::FlushTx && f.switches1 == (reply@[0] & 0xF8) | 0x02
                    },
                    ScanPhase::WriteSwitches => issues_write(step, a, seq![0x03, o.switches1])
                        && f.phase == ScanPhase::FlushTx,
                    ScanPhase::FlushTx => issues_write(step, a, seq![0x06, 0x44]) && f.phase
                        == ScanPhase::FlushRx,
                    ScanPhase::FlushRx => issues_write(step, a, seq![0x07, 0x04]) && f.phase
                        == ScanPhase::ResetPd,
                    ScanPhase::ResetPd => issues_write(step, a, seq![0x0C, 0x02]) && f.phase
                        == ScanPhase::PollStatus && f.timeout == 0,
                    ScanPhase::PollStatus => issues_read(step, a, 0x41, 1) && f.phase
                        == ScanPhase::CheckStatus && f.timeout == o.timeout,
                    ScanPhase::CheckStatus => f.timeout == o.timeout && if reply@[0] & 0x20 != 0 {
                        issues_read(step, a, 0x40, 1) && f.phase == ScanPhase::ClearInterruptA
                    } else {
                        issues_read(step, a, FIFO_REG, 3) && f.phase == ScanPhase::ReadHeader
                    },
                    ScanPhase::ClearInterruptA => issues_read(step, a, 0x3E, 1) && f.phase
                        == ScanPhase::ClearInterruptB && f.timeout == o.timeout,
                    ScanPhase::ClearInterruptB => issues_read(step, a, 0x3F, 1) && f.phase
                        == ScanPhase::Wait && f.timeout == o.timeout,
                    ScanPhase::Wait => issues_delay(step, 1) && f.phase == ScanPhase::CheckTimeout
                        && f.timeout == o.timeout,
                    ScanPhase::CheckTimeout => if o.timeout > 50 {
                        finishes_with(step, seq![])
                    } else {
                        issues_read(step, a, 0x41, 1) && f.phase == ScanPhase::CheckStatus
                            && f.timeout == o.timeout + 1
                    },
                    ScanPhase::ReadHeader => issues_read(step, a, FIFO_REG, 4) && f.count == (
                    reply@[2] >> 4u8) & 0x07 && f.index == 0 && f.pdos@ == Seq::<PDO>::empty()
                        && f.phase == (if f.count > 0 {
                        ScanPhase::ReadPdo
                    } else {
                        ScanPhase::ReadCrc
                    }),
                    ScanPhase::ReadPdo => issues_read(step, a, FIFO_REG, 4) && f.count == o.count
                        && f.pdos@ == o.pdos@.push(
                        pdo_from_word(le32(reply@[0], reply@[1], reply@[2], reply@[3]), o.index),
                    ) && f.phase == (if f.index < f.count {
                        ScanPhase::ReadPdo
                    } else {
                        ScanPhase::ReadCrc
                    }),
                    ScanPhase::ReadCrc => issues_write(step, a, seq![0x07, 0x04]) && f.phase
                        == ScanPhase::Finish && f.pdos@ == o.pdos@,
                    ScanPhase::Finish => finishes_with(step, o.pdos@),
                    ScanPhase::Done => true,
                }
            }),
    {
        let a = self.address;
        match self.phase {
            ScanPhase::Reset => {
                self.phase = ScanPhase::Power;
                ScanStep::Op(write_reg(a, 0x0C, 0x03))
            },
            ScanPhase::Power => {
                self.phase = ScanPhase::Unmask;
                ScanStep::Op(write_reg(a, 0x0B, 0x0F))
            },
            ScanPhase::Unmask => {
                self.phase = ScanPhase::Retries;
                ScanStep::Op(write_reg(a, 0x06, 0x04))
            },
            ScanPhase::Retries => {
                self.phase = ScanPhase::MeasureCc1;
                ScanStep::Op(write_reg(a, 0x09, 0x07))
            },
            ScanPhase::MeasureCc1 => {
                self.phase = ScanPhase::SettleCc1;
                ScanStep::Op(write_reg(a, 0x02, 0x07))
            },
            ScanPhase::SettleCc1 => {
                self.phase = ScanPhase::ReadCc1;
                ScanStep::Op(I2cOp::DelayMs(1))
            },
            ScanPhase::ReadCc1 => {
                self.phase = ScanPhase::MeasureCc2;
                ScanStep::Op(read_reg(a, 0x40))
            },
            ScanPhase::MeasureCc2 => {
                self.cc1 = reply[0] & 0x03;
                self.phase = ScanPhase::SettleCc2;
                ScanStep::Op(write_reg(a, 0x02, 0x0B))
            },
            ScanPhase::SettleCc2 => {
                self.phase = ScanPhase::ReadCc2;
                ScanStep::Op(I2cOp::DelayMs(1))
            },
            ScanPhase::ReadCc2 => {
                self.phase = ScanPhase::CompareCc;
                ScanStep::Op(read_reg(a, 0x40))
            },
            ScanPhase::CompareCc => {
                self.cc2 = reply[0] & 0x03;
                if self.cc2 == self.cc1 {
                    self.phase = ScanPhase::Done;
                    ScanStep::Finished(Vec::new())
                } else {
                    self.phase = ScanPhase::SelectCc;
                    ScanStep::Op(read_reg(a, 0x03))
                }
            },
            ScanPhase::SelectCc => {
                let mut switches1: u8 = reply[0] & 0xF8;
                if self.cc1 > self.cc2 {
                    switches1 = switches1 | 0x01;
                    self.switches1 = switches1;
                    self.phase = ScanPhase::WriteSwitches;
                    ScanStep::Op(write_reg(a, 0x02, 0x07))
                } else {
                    switches1 = switches1 | 0x02;
                    self.switches1 = switches1;
                    self.phase = ScanPhase::FlushTx;
                    ScanStep::Op(write_reg(a, 0x03, switches1))
                }
            },
            ScanPhase::WriteSwitches => {
                self.phase = ScanPhase::FlushTx;
                ScanStep::Op(write_reg(a, 0x03, self.switches1))
            },
            ScanPhase::FlushTx => {
                self.phase = ScanPhase::FlushRx;
                ScanStep::Op(write_reg(a, 0x06, 0x44))
            },
            ScanPhase::FlushRx => {
                self.phase = ScanPhase::ResetPd;
                ScanStep::Op(write_reg(a, 0x07, 0x04))
            },
            ScanPhase::ResetPd => {
                self.timeout = 0;
                self.phase = ScanPhase::PollStatus;
                ScanStep::Op(write_reg(a, 0x0C, 0x02))
            },
            ScanPhase::PollStatus => {
                self.phase = ScanPhase::CheckStatus;
                ScanStep::Op(read_reg(a, 0x41))
            },
            ScanPhase::CheckStatus => {
                if reply[0] & 0x20 != 0 {
                    self.phase = ScanPhase::ClearInterruptA;
                    ScanStep::Op(read_reg(a, 0x40))
                } else {
                    self.phase = ScanPhase::ReadHeader;
                    ScanStep::Op(read_regs(a, FIFO_REG, 3))
                }
            },
            ScanPhase::ClearInterruptA => {
                self.phase = ScanPhase::ClearInterruptB;
                ScanStep::Op(read_reg(a, 0x3E))
            },
            ScanPhase::ClearInterruptB => {
                self.phase = ScanPhase::Wait;
                ScanStep::Op(read_reg(a, 0x3F))
            },
            ScanPhase::Wait => {
                self.phase = ScanPhase::CheckTimeout;
                ScanStep::Op(I2cOp::DelayMs(1))
            },
            ScanPhase::CheckTimeout => {
                if self.timeout > 50 {
                    self.phase = ScanPhase::Done;
                    ScanStep::Finished(Vec::new())
                } else {
                    self.timeout = self.timeout + 1;
                    self.phase = ScanPhase::CheckStatus;
                    ScanStep::Op(read_reg(a, 0x41))
                }
            },
            ScanPhase::ReadHeader => {
                let h: u8 = reply[2];
                let count: u8 = (h >> 4u8) & 0x07;
                assert(count <= 7) by (bit_vector)
                    requires
                        count == (h >> 4u8) & 0x07,
                ;
                self.count = count;
                self.index = 0;
                self.pdos = Vec::new();
                self.phase = if count > 0 {
                    ScanPhase::ReadPdo
                } else {
                    ScanPhase::ReadCrc
                };
                ScanStep::Op(read_regs(a, FIFO_REG, 4))
            },
            ScanPhase::ReadPdo => {
                let data: [u8; 4] = [reply[0], reply[1], reply[2], reply[3]];
                let pdo = PDO::from(&data, self.index);
                self.pdos.push(pdo);
                self.index = self.index + 1;
                self.phase = if self.index < self.count {
                    ScanPhase::ReadPdo
                } else {
                    ScanPhase::ReadCrc
                };
                ScanStep::Op(read_regs(a, FIFO_REG, 4))
            },
            ScanPhase::ReadCrc => {
                self.phase = ScanPhase::Finish;
                ScanStep::Op(write_reg(a, 0x07, 0x04))
            },
            ScanPhase::Finish => {
                let mut pdos: Vec<PDO> = Vec::new();
                std::mem::swap(&mut pdos, &mut self.pdos);
                self.index = 0;
                self.count = 0;
                self.phase = ScanPhase::Done;
                ScanStep::Finished(pdos)
            },
            ScanPhase::Done => ScanStep::Finished(Vec::new()),
        }
    }
}

impl Fusb {
    /// Starts a scan of the source's power capabilities.
    pub fn scan_pds(&self) -> (s: PdScan)
        ensures
            s.wf(),
            s.address == self.i2c_address,
            s.phase == ScanPhase::Reset,
    {
        PdScan {
            address: self.i2c_address,
            phase: ScanPhase::Reset,
            cc1: 0,
            cc2: 0,
            switches1: 0,
            timeout: 0,
            count: 0,
            index: 0,
            pdos: Vec::new(),
        }
    }
}

} // verus!
