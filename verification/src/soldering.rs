//! Integer bookkeeping of the soldering-iron controller: the calibration
//! stored in flash, the moving window of temperature samples, the tip check,
//! the handle handshake and the output duty limit.
use vstd::prelude::*;

use ringbuffer::{ConstGenericRingBuffer, RingBuffer};

verus! {

/// Declares `ringbuffer::ConstGenericRingBuffer` to Verus as an opaque type.
#[verifier::external_type_specification]
#[verifier::external_body]
#[verifier::reject_recursive_types(T)]
pub struct ExConstGenericRingBuffer<T, const CAP: usize>(ConstGenericRingBuffer<T, CAP>);

/// The samples a 64-slot ring buffer holds, oldest first.
pub uninterp spec fn ring_contents(ring: ConstGenericRingBuffer<u16, 64>) -> Seq<u16>;

/// `ConstGenericRingBuffer::new`: an empty buffer.
#[verifier::external_body]
fn ring_new() -> (ring: ConstGenericRingBuffer<u16, 64>)
    ensures
        ring_contents(ring) == Seq::<u16>::empty(),
{
    ConstGenericRingBuffer::<u16, 64>::new()
}

/// `RingBuffer::enqueue`: appends the sample; when all 64 slots are taken, the
/// oldest sample is dropped first.
#[verifier::external_body]
fn ring_enqueue(ring: &mut ConstGenericRingBuffer<u16, 64>, value: u16)
    ensures
        ring_contents(*final(ring)) == (if ring_contents(*old(ring)).len() == 64 {
            ring_contents(*old(ring)).drop_first().push(value)
        } else {
            ring_contents(*old(ring)).push(value)
        }),
{
    ring.enqueue(value);
}

/// `RingBuffer::len`: the number of samples held.
#[verifier::external_body]
fn ring_len(ring: &ConstGenericRingBuffer<u16, 64>) -> (n: usize)
    ensures
        n == ring_contents(*ring).len(),
{
    ring.len()
}

/// `Index::index` of the ring buffer (`RingBuffer::get`): the sample at
/// position `i`, counted from the oldest.
#[verifier::external_body]
fn ring_get(ring: &ConstGenericRingBuffer<u16, 64>, i: usize) -> (v: u16)
    requires
        i < ring_contents(*ring).len(),
    ensures
        v == ring_contents(*ring)[i as int],
{
    ring[i]
}

/// Flash address of the calibration record.
pub const CALIBRATION_ADDR: u32 = 0x9000;
/// Flash address of the two bytes of gyro settings sent to the handle.
pub const GYRO_SETTINGS_ADDR: u32 = 0x9010;
/// Calibration written to a blank device: 706 at 100 °C and 2824 at 400 °C.
pub const DEFAULT_CALIBRATION: [u8; 4] = [0x02, 0xC2, 0x0B, 0x08];
/// Averaged reading above which no tip is plugged in.
pub const NO_TIP_THRESHOLD: u16 = 4000;
/// Largest duty value of the 14-bit PWM.
pub const MAX_DUTY: u16 = 16384;
/// Target tip temperature in °C.
pub const SET_TEMP: u16 = 380;
/// Byte the handle answers a pulse check with.
pub const HANDLE_ACK: u8 = 0x79;

/// Calibration readings: the averaged ADC value at 100 °C and at 400 °C.
#[derive(Clone, Copy, PartialEq, Eq, Structural, Debug)]
pub struct Calibration {
    pub p_at_100c: u16,
    pub p_at_400c: u16,
}

/// A calibration record is taken as never written when its first two bytes
/// are zero.
pub fn calibration_is_blank(bytes: &[u8; 4]) -> (b: bool)
    ensures
        b == (bytes@[1] == 0 && bytes@[0] == 0),
{
    bytes[1] == 0 && bytes[0] == 0
}

/// Decodes a calibration record: two big-endian 16-bit readings, the one at
/// 100 °C first.
pub fn decode_calibration(bytes: &[u8; 4]) -> (c: Calibration)
    ensures
        c.p_at_100c == bytes@[0] as int * 256 + bytes@[1] as int,
        c.p_at_400c == bytes@[2] as int * 256 + bytes@[3] as int,
{
    let b0: u8 = bytes[0];
    let b1: u8 = bytes[1];
    let b2: u8 = bytes[2];
    let b3: u8 = bytes[3];
    let lo: u16 = ((b0 as u16) << 8u16) | (b1 as u16);
    let hi: u16 = ((b2 as u16) << 8u16) | (b3 as u16);
    assert(lo == b0 as u16 * 256 + b1 as u16 && hi == b2 as u16 * 256 + b3 as u16) by (bit_vector)
        requires
            lo == ((b0 as u16) << 8u16) | (b1 as u16),
            hi == ((b2 as u16) << 8u16) | (b3 as u16),
    ;
    Calibration { p_at_100c: lo, p_at_400c: hi }
}

/// The calibration the device starts from: the stored record, or the default
/// record when the stored one is blank (the default is then written to flash
/// by the caller).
pub fn startup_calibration(stored: &[u8; 4]) -> (r: (Calibration, bool))
    ensures
        r.1 == (stored@[1] == 0 && stored@[0] == 0),
        r.0.p_at_100c == (if r.1 { 706 } else { stored@[0] as int * 256 + stored@[1] as int }),
        r.0.p_at_400c == (if r.1 { 2824 } else { stored@[2] as int * 256 + stored@[3] as int }),
{
    if calibration_is_blank(stored) {
        let d: [u8; 4] = [0x02, 0xC2, 0x0B, 0x08];
        (decode_calibration(&d), true)
    } else {
        (decode_calibration(stored), false)
    }
}

/// Sum of the samples.
pub open spec fn sample_sum(s: Seq<u16>) -> int
    decreases s.len(),
{
    if s.len() == 0 {
        0
    } else {
        sample_sum(s.drop_last()) + s.last() as int
    }
}

proof fn lemma_sample_sum_bound(s: Seq<u16>)
    ensures
        0 <= sample_sum(s) <= s.len() * 65535,
    decreases s.len(),
{
    if s.len() > 0 {
        lemma_sample_sum_bound(s.drop_last());
    }
}

/// The last 64 temperature samples.
pub struct AdcWindow {
    ring: ConstGenericRingBuffer<u16, 64>,
}

impl AdcWindow {
    /// The samples held, oldest first.
    pub closed spec fn samples(&self) -> Seq<u16> {
        ring_contents(self.ring)
    }

    pub open spec fn wf(&self) -> bool {
        self.samples().len() <= 64
    }

    pub fn new() -> (w: AdcWindow)
        ensures
            w.wf(),
            w.samples() == Seq::<u16>::empty(),
    {
        AdcWindow { ring: ring_new() }
    }

    /// Adds a sample; once 64 are held, the oldest is dropped.
    pub fn enqueue(&mut self, value: u16)
        requires
            old(self).wf(),
        ensures
            final(self).wf(),
            final(self).samples() == push_sample(old(self).samples(), value),
    {
        ring_enqueue(&mut self.ring, value);
    }

    /// The number of samples held.
    pub fn len(&self) -> (n: usize)
        ensures
            n == self.samples().len(),
    {
        ring_len(&self.ring)
    }

    /// Sum of the samples held, divided by 64 (a shift, not a division by the
    /// number of samples: until the window is full the value is low).
    pub fn average(&self) -> (avg: u16)
        requires
            self.wf(),
        ensures
            avg == sample_sum(self.samples()) / 64,
    {
        let n = ring_len(&self.ring);
        let mut sum: u32 = 0;
        let mut i: usize = 0;
        while i < n
            invariant
                i <= n,
                n == self.samples().len(),
                n <= 64,
                sum == sample_sum(self.samples().take(i as int)),
            decreases n - i,
        {
            let v = ring_get(&self.ring, i);
            proof {
                let t = self.samples().take(i + 1);
                assert(t.drop_last() =~= self.samples().take(i as int));
                lemma_sample_sum_bound(self.samples().take(i as int));
            }
            sum = sum + v as u32;
            i = i + 1;
        }
        proof {
            assert(self.samples().take(n as int) =~= self.samples());
            lemma_sample_sum_bound(self.samples());
        }
        let avg: u32 = sum >> 6u32;
        assert(avg == sum / 64) by (bit_vector)
            requires
                avg == sum >> 6u32,
        ;
        avg as u16
    }
}

/// A tip is plugged in unless the averaged reading is above 4000.
pub fn tip_connected(avg: u16) -> (b: bool)
    ensures
        b == (avg <= 4000),
{
    avg <= NO_TIP_THRESHOLD
}

/// The handle answered the pulse check when its first byte is `'y'`.
pub fn handle_answered(reply: u8) -> (b: bool)
    ensures
        b == (reply == 0x79),
{
    reply == HANDLE_ACK
}

/// Limits a duty value to the 14-bit PWM range.
pub fn clamp_duty(raw: u16) -> (d: u16)
    ensures
        d == (if raw > 16384 { 16384 } else { raw }),
{
    if raw > MAX_DUTY {
        MAX_DUTY
    } else {
        raw
    }
}

/// A window after one more sample: the oldest is dropped once 64 are held.
pub open spec fn push_sample(s: Seq<u16>, v: u16) -> Seq<u16> {
    if s.len() == 64 {
        s.drop_first().push(v)
    } else {
        s.push(v)
    }
}

/// A window after several more samples, in order.
pub open spec fn push_samples(s: Seq<u16>, new: Seq<u16>) -> Seq<u16>
    decreases new.len(),
{
    if new.len() == 0 {
        s
    } else {
        push_sample(push_samples(s, new.drop_last()), new.last())
    }
}

/// The last (at most) 64 samples of a sequence.
pub open spec fn last64(s: Seq<u16>) -> Seq<u16> {
    if s.len() <= 64 {
        s
    } else {
        s.skip(s.len() - 64)
    }
}

/// The window holds exactly the last 64 samples ever added (all of them while
/// fewer than 64 were added).
pub proof fn lemma_window_keeps_last_64(s: Seq<u16>, new: Seq<u16>)
    requires
        s.len() <= 64,
    ensures
        push_samples(s, new) == last64(s + new),
        push_samples(s, new).len() <= 64,
    decreases new.len(),
{
    if new.len() > 0 {
        lemma_window_keeps_last_64(s, new.drop_last());
        let all = s + new;
        assert(s + new.drop_last() =~= all.drop_last());
        let prev = last64(all.drop_last());
        if all.drop_last().len() >= 64 {
            assert(prev.len() == 64);
            assert(prev.drop_first().push(new.last()) =~= last64(all));
        } else {
            assert(prev.push(new.last()) =~= last64(all));
        }
    }
}

/// Where one pass of the control loop stands.
#[derive(Clone, Copy, PartialEq, Eq, Structural, Debug)]
pub enum SolderPhase {
    /// Start of a pass: check the handle link if it is not confirmed yet.
    Start,
    /// Judge the handle's answer to the pulse check.
    AwaitReply,
    /// Pause before the measurement.
    Settle,
    /// Switch the heater off for the measurement.
    CutPower,
    /// Let the voltage settle.
    Stabilise,
    /// Take the temperature samples.
    Sample,
    /// Add the samples to the window and decide.
    Evaluate,
}

/// What the caller does next for the control loop.
#[derive(Clone, Copy, PartialEq, Eq, Structural, Debug)]
pub enum SolderAction {
    /// Send `'?'` to the handle and pass back the answer byte, if one came.
    SendPulseCheck,
    /// Wait this many milliseconds.
    WaitMs(u32),
    /// Wait this many microseconds.
    WaitUs(u32),
    /// Read the gyro settings from flash and send them to the handle.
    SendGyroSettings,
    /// Set the heater's PWM duty.
    SetDuty(u16),
    /// Read this many temperature samples and pass them back.
    ReadSamples(usize),
    /// No tip is plugged in: reset the regulator's memory.
    IdleNoTip,
    /// Regulate towards the set temperature from this averaged reading.
    Regulate(u16),
}

/// The control loop of the soldering iron: the handle link, the measurement
/// cycle and the sample window.
pub struct SolderControl {
    pub phase: SolderPhase,
    pub cable_connected: bool,
    pub window: AdcWindow,
}

impl SolderControl {
    /// Starts the loop; `cable_connected` is the outcome of the first pulse
    /// check.
    pub fn new(cable_connected: bool) -> (c: SolderControl)
        ensures
            c.phase == SolderPhase::Start,
            c.cable_connected == cable_connected,
            c.window.wf(),
            c.window.samples() == Seq::<u16>::empty(),
    {
        SolderControl { phase: SolderPhase::Start, cable_connected, window: AdcWindow::new() }
    }

    /// Takes the next step, given the handle's answer (after
    /// `SendPulseCheck`) or the samples read (after `ReadSamples`).
    pub fn next(&mut self, reply: Option<u8>, samples: &Vec<u16>) -> (action: SolderAction)
        requires
            old(self).window.wf(),
            old(self).phase == SolderPhase::Evaluate ==> samples@.len() == 10,
        ensures
            final(self).window.wf(),
            old(self).phase != SolderPhase::Evaluate ==> final(self).window.samples() == old(
                self,
            ).window.samples(),
            match old(self).phase {
                SolderPhase::Start => if old(self).cable_connected {
                    action == SolderAction::WaitMs(1) && final(self).phase == SolderPhase::CutPower
                } else {
                    action == SolderAction::SendPulseCheck && final(self).phase
                        == SolderPhase::AwaitReply
                },
                SolderPhase::AwaitReply => if reply == Some(0x79u8) {
                    action == SolderAction::SendGyroSettings && final(self).cable_connected
                        && final(self).phase == SolderPhase::Settle
                } else {
                    action == SolderAction::WaitMs(1000) && final(self).cable_connected
                        == old(self).cable_connected
                        && final(self).phase == SolderPhase::Start
                },
                SolderPhase::Settle => action == SolderAction::WaitMs(1) && final(self).phase
                    == SolderPhase::CutPower,
                SolderPhase::CutPower => action == SolderAction::SetDuty(0) && final(self).phase
                    == SolderPhase::Stabilise,
                SolderPhase::Stabilise => action == SolderAction::WaitUs(100) && final(self).phase
                    == SolderPhase::Sample,
                SolderPhase::Sample => action == SolderAction::ReadSamples(10) && final(self).phase
                    == SolderPhase::Evaluate,
                SolderPhase::Evaluate => {
                    let w = push_samples(old(self).window.samples(), samples@);
                    let avg = sample_sum(w) / 64;
                    &&& final(self).window.samples() == w
                    &&& final(self).phase == SolderPhase::Start
                    &&& action == (if avg <= 4000 {
                        SolderAction::Regulate(avg as u16)
                    } else {
                        SolderAction::IdleNoTip
                    })
                },
            },
            old(self).phase != SolderPhase::AwaitReply ==> final(self).cable_connected == old(
                self,
            ).cable_connected,
    {
        match self.phase {
            SolderPhase::Start => {
                if self.cable_connected {
                    self.phase = SolderPhase::CutPower;
                    SolderAction::WaitMs(1)
                } else {
                    self.phase = SolderPhase::AwaitReply;
                    SolderAction::SendPulseCheck
                }
            },
            SolderPhase::AwaitReply => {
                let answered = match reply {
                    Some(b) => handle_answered(b),
                    None => false,
                };
                if answered {
                    self.cable_connected = true;
                    self.phase = SolderPhase::Settle;
                    SolderAction::SendGyroSettings
                } else {
                    self.phase = SolderPhase::Start;
                    SolderAction::WaitMs(1000)
                }
            },
            SolderPhase::Settle => {
                self.phase = SolderPhase::CutPower;
                SolderAction::WaitMs(1)
            },
            SolderPhase::CutPower => {
                self.phase = SolderPhase::Stabilise;
                SolderAction::SetDuty(0)
            },
            SolderPhase::Stabilise => {
                self.phase = SolderPhase::Sample;
                SolderAction::WaitUs(100)
            },
            SolderPhase::Sample => {
                self.phase = SolderPhase::Evaluate;
                SolderAction::ReadSamples(10)
            },
            SolderPhase::Evaluate => {
                let ghost w0 = self.window.samples();
                let mut i: usize = 0;
                while i < samples.len()
                    invariant
                        i <= samples.len(),
                        self.window.wf(),
                        self.window.samples() == push_samples(w0, samples@.take(i as int)),
                        self.cable_connected == old(self).cable_connected,
                    decreases samples.len() - i,
                {
                    self.window.enqueue(samples[i]);
                    proof {
                        let t = samples@.take(i + 1);
                        assert(t.drop_last() =~= samples@.take(i as int));
                    }
                    i = i + 1;
                }
                proof {
                    assert(samples@.take(samples@.len() as int) =~= samples@);
                }
                let avg = self.window.average();
                proof {
                    lemma_sample_sum_bound(self.window.samples());
                }
                self.phase = SolderPhase::Start;
                if tip_connected(avg) {
                    SolderAction::Regulate(avg)
                } else {
                    SolderAction::IdleNoTip
                }
            },
        }
    }
}

} // verus!
