//! Messages exchanged with the soldering handle over the UART.
use vstd::prelude::*;

verus! {

/// Byte sent to the handle to check that it is there.
pub const PULSE_CHECK_BYTE: u8 = 0x3F;

/// A message received from the handle.
#[derive(Clone, Copy, PartialEq, Eq, Structural, Debug)]
pub enum SolderingMessage {
    PulseCheck,
    Magnet,
    Gyro,
    Unknown,
}

/// The message a received byte stands for: `'?'` a pulse check, `'M'` the
/// magnet sensor, `'G'` the gyro, anything else unknown.
pub fn message_from_byte(b: u8) -> (m: SolderingMessage)
    ensures
        m == (if b == 0x3F {
            SolderingMessage::PulseCheck
        } else if b == 0x4D {
            SolderingMessage::Magnet
        } else if b == 0x47 {
            SolderingMessage::Gyro
        } else {
            SolderingMessage::Unknown
        }),
{
    if b == 0x3F {
        SolderingMessage::PulseCheck
    } else if b == 0x4D {
        SolderingMessage::Magnet
    } else if b == 0x47 {
        SolderingMessage::Gyro
    } else {
        SolderingMessage::Unknown
    }
}

/// Outcome of a pulse check: the handle is there when it echoed a pulse
/// check before the timeout (`None` stands for the timeout). Any other
/// message in answer is a protocol violation, which the caller treats as
/// fatal.
pub fn pulse_check_result(reply: Option<SolderingMessage>) -> (present: bool)
    requires
        reply is None || reply == Some(SolderingMessage::PulseCheck),
    ensures
        present == (reply == Some(SolderingMessage::PulseCheck)),
{
    match reply {
        Some(SolderingMessage::PulseCheck) => true,
        _ => false,
    }
}

} // verus!
