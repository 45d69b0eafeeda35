//! Command encoder for an ILI9341 display wired to the ESP32-S3 over an 8-bit
//! parallel (8080-style) bus.
//!
//! The display's data lines D7..D0 sit on bits 3..10 of the GPIO `OUT1`
//! register (D7 on bit 3, D0 on bit 10, so the byte appears bit-reversed), the
//! write strobe WRX on bit 11, chip select CSX on bit 15 and the data/command
//! line D/CX on bit 16. The display latches the bus on each rising edge of WRX
//! while CSX is low.
//!
//! `ILI9341` does not touch the hardware: every command queues the register
//! writes that send it, as [`GpioOp`] values, and the caller performs them in
//! order (see [`ILI9341::take_ops`]). The contracts state, through a model of
//! the `OUT1` register, exactly which words the display latches.
use vstd::prelude::*;

use crate::color::MyColor;
use embedded_graphics::prelude::{Point, Size};
use embedded_graphics::primitives::Rectangle;

verus! {

/// Write strobe (WRX) in the `OUT1` register.
pub const WR_BIT: u32 = 0x800;
/// Read strobe (RDX), held high: the driver never reads.
pub const RD_BIT: u32 = 0x1000;
/// Chip select (CSX, active low) in the `OUT1` register.
pub const CS_BIT: u32 = 0x8000;
/// Data/command select (D/CX: high for data, low for a command).
pub const DC_BIT: u32 = 0x10000;
/// Output-enable bits for the data lines, WRX, RDX, CSX and D/CX.
pub const PINS_ENABLE_MASK: u32 = 0x19FF8;
/// Lines driven high when the bus is idle: WRX, RDX, CSX and D/CX.
pub const PINS_IDLE_MASK: u32 = 0x19800;

/// Pixel columns of the panel.
pub const WIDTH: usize = 320;
/// Pixel rows of the panel.
pub const HEIGHT: usize = 240;

pub const SOFTWARE_RESET: u8 = 0x01;
pub const ENTER_SLEEP_MODE: u8 = 0x10;
pub const SLEEP_OUT: u8 = 0x11;
pub const DISPLAY_INVERSION_OFF: u8 = 0x20;
pub const DISPLAY_INVERSION_ON: u8 = 0x21;
pub const GAMMA_SET: u8 = 0x26;
pub const DISPLAY_OFF: u8 = 0x28;
pub const DISPLAY_ON: u8 = 0x29;
pub const COLUMN_ADDRESS_SET: u8 = 0x2A;
pub const PAGE_ADDRESS_SET: u8 = 0x2B;
pub const MEMORY_WRITE: u8 = 0x2C;
pub const MEMORY_ACCESS_CONTROL: u8 = 0x36;
pub const COLMOD_PIXEL_FORMAT_SET: u8 = 0x3A;
pub const FRAME_RATE_CONTROL_NORMAL_MODE_FULL_COLORS: u8 = 0xB1;
pub const DISPLAY_FUNCTION_CONTROL: u8 = 0xB6;
pub const POWER_CONTROL_1: u8 = 0xC0;
pub const POWER_CONTROL_2: u8 = 0xC1;
pub const VCOM_CONTROL_1: u8 = 0xC5;
pub const VCOM_CONTROL_2: u8 = 0xC7;
pub const POSITIVE_GAMMA_CORRECTION: u8 = 0xE0;
pub const NEGATIVE_GAMMA_CORRECTION: u8 = 0xE1;
pub const POWER_CONTROL_A: u8 = 0xCB;
pub const POWER_CONTROL_B: u8 = 0xCF;
pub const DRIVER_TIMING_CONTROL_A_2: u8 = 0xE9;
pub const DRIVER_TIMING_CONTROL_B: u8 = 0xEA;
pub const POWER_ON_SEQUENCE_CONTROL: u8 = 0xED;
pub const ENABLE_3G: u8 = 0xF2;
pub const PUMP_RATIO_CONTROL: u8 = 0xF7;

/// One write to the GPIO block, or a pause.
#[derive(Clone, Copy, PartialEq, Eq, Structural, Debug)]
pub enum GpioOp {
    /// Write the mask to `ENABLE1_W1TS` (enable these outputs).
    EnableSet(u32),
    /// Write the mask to `OUT1_W1TS` (drive these lines high).
    OutSet(u32),
    /// Write the mask to `OUT1_W1TC` (drive these lines low).
    OutClear(u32),
    /// Wait this many milliseconds.
    DelayMs(u32),
}

/// A byte latched by the display, with the level of D/CX at that moment.
#[derive(Clone, Copy, PartialEq, Eq, Structural, Debug)]
pub struct BusWord {
    pub is_data: bool,
    pub byte: u8,
}

/// Bit `i` of `x` moved to bit `7 - i`.
pub open spec fn rev8(x: u8) -> u8 {
    ((x & 1) << 7u8) | ((x & 2) << 5u8) | ((x & 4) << 3u8) | ((x & 8) << 1u8)
        | ((x & 16) >> 1u8) | ((x & 32) >> 3u8) | ((x & 64) >> 5u8) | ((x & 128) >> 7u8)
}

/// The `OUT1` register after one operation.
pub open spec fn apply_op(reg: u32, op: GpioOp) -> u32 {
    match op {
        GpioOp::OutSet(m) => reg | m,
        GpioOp::OutClear(m) => reg & !m,
        _ => reg,
    }
}

/// The display latches when WRX rises while CSX is low.
pub open spec fn strobed(before: u32, after: u32) -> bool {
    &&& before & WR_BIT == 0
    &&& after & WR_BIT != 0
    &&& after & CS_BIT == 0
}

/// The word the display reads from the lines in `reg`.
pub open spec fn word_on_bus(reg: u32) -> BusWord {
    BusWord { is_data: reg & DC_BIT != 0, byte: rev8(((reg >> 3u32) & 0xff) as u8) }
}

/// The `OUT1` register after a sequence of operations.
pub open spec fn run(reg: u32, ops: Seq<GpioOp>) -> u32
    decreases ops.len(),
{
    if ops.len() == 0 {
        reg
    } else {
        run(apply_op(reg, ops[0]), ops.drop_first())
    }
}

/// The words the display latches while the operations are performed, starting
/// from the register value `reg`.
pub open spec fn latched(reg: u32, ops: Seq<GpioOp>) -> Seq<BusWord>
    decreases ops.len(),
{
    if ops.len() == 0 {
        seq![]
    } else {
        let next = apply_op(reg, ops[0]);
        (if strobed(reg, next) { seq![word_on_bus(next)] } else { seq![] }) + latched(
            next,
            ops.drop_first(),
        )
    }
}

/// The lines are idle: WRX and RDX high, CSX low, D/CX at `dc`, and the data
/// lines holding `last`.
pub open spec fn line_ok(reg: u32, dc: bool, last: u8) -> bool {
    &&& reg & WR_BIT != 0
    &&& reg & RD_BIT != 0
    &&& reg & CS_BIT == 0
    &&& (reg & DC_BIT != 0) == dc
    &&& (reg >> 3u32) & 0xff == rev8(last) as u32
}

pub open spec fn cmd(c: u8) -> BusWord {
    BusWord { is_data: false, byte: c }
}

pub open spec fn data(d: u8) -> BusWord {
    BusWord { is_data: true, byte: d }
}

/// A command byte followed by its parameter bytes.
pub open spec fn command_words(c: u8, params: Seq<u8>) -> Seq<BusWord> {
    seq![cmd(c)] + params.map_values(|d: u8| data(d))
}

/// Reversing the bits twice gives the byte back.
pub proof fn lemma_rev8_involutive(x: u8)
    ensures
        rev8(rev8(x)) == x,
{
    assert(rev8(rev8(x)) == x) by (bit_vector);
}

/// `rev8` reverses the bit order: bit `i` of the result is bit `7 - i` of
/// the byte.
pub proof fn lemma_rev8_reverses(x: u8)
    ensures
        (rev8(x) >> 0u8) & 1 == (x >> 7u8) & 1,
        (rev8(x) >> 1u8) & 1 == (x >> 6u8) & 1,
        (rev8(x) >> 2u8) & 1 == (x >> 5u8) & 1,
        (rev8(x) >> 3u8) & 1 == (x >> 4u8) & 1,
        (rev8(x) >> 4u8) & 1 == (x >> 3u8) & 1,
        (rev8(x) >> 5u8) & 1 == (x >> 2u8) & 1,
        (rev8(x) >> 6u8) & 1 == (x >> 1u8) & 1,
        (rev8(x) >> 7u8) & 1 == (x >> 0u8) & 1,
{
    let r = rev8(x);
    assert((r >> 0u8) & 1 == (x >> 7u8) & 1 && (r >> 1u8) & 1 == (x >> 6u8) & 1 && (r >> 2u8) & 1
        == (x >> 5u8) & 1 && (r >> 3u8) & 1 == (x >> 4u8) & 1 && (r >> 4u8) & 1 == (x >> 3u8) & 1
        && (r >> 5u8) & 1 == (x >> 2u8) & 1 && (r >> 6u8) & 1 == (x >> 1u8) & 1 && (r >> 7u8) & 1
        == (x >> 0u8) & 1) by (bit_vector)
        requires
            r == rev8(x),
    ;
}

/// Performing two batches of operations one after the other latches what the
/// first batch latches, then what the second latches from where the first left
/// the register.
pub proof fn lemma_latched_append(reg: u32, a: Seq<GpioOp>, b: Seq<GpioOp>)
    ensures
        run(reg, a + b) == run(run(reg, a), b),
        latched(reg, a + b) == latched(reg, a) + latched(run(reg, a), b),
    decreases a.len(),
{
    if a.len() == 0 {
        assert(a + b =~= b);
    } else {
        let next = apply_op(reg, a[0]);
        assert((a + b).drop_first() =~= a.drop_first() + b);
        lemma_latched_append(next, a.drop_first(), b);
        let head: Seq<BusWord> = if strobed(reg, next) {
            seq![word_on_bus(next)]
        } else {
            seq![]
        };
        assert(head + (latched(next, a.drop_first()) + latched(run(next, a.drop_first()), b))
            =~= (head + latched(next, a.drop_first())) + latched(run(next, a.drop_first()), b));
    }
}

proof fn lemma_run_one(reg: u32, o: GpioOp)
    ensures
        run(reg, seq![o]) == apply_op(reg, o),
        latched(reg, seq![o]) == (if strobed(reg, apply_op(reg, o)) {
            seq![word_on_bus(apply_op(reg, o))]
        } else {
            seq![]
        }),
{
    let s = seq![o];
    assert(s.drop_first() =~= Seq::<GpioOp>::empty());
    assert(run(apply_op(reg, o), s.drop_first()) == apply_op(reg, o));
    assert(latched(apply_op(reg, o), s.drop_first()) =~= Seq::<BusWord>::empty());
    assert(latched(reg, s) =~= (if strobed(reg, apply_op(reg, o)) {
        seq![word_on_bus(apply_op(reg, o))]
    } else {
        seq![]
    }));
}

/// Reverses the bit order of a byte.
pub fn reverse_bits(x: u8) -> (r: u8)
    ensures
        r == rev8(x),
{
    ((x & 1) << 7u8) | ((x & 2) << 5u8) | ((x & 4) << 3u8) | ((x & 8) << 1u8) | ((x & 16) >> 1u8)
        | ((x & 32) >> 3u8) | ((x & 64) >> 5u8) | ((x & 128) >> 7u8)
}

/// High byte of a coordinate as the display receives it: bits 8..15.
pub open spec fn addr_hi(v: i32) -> u8 {
    ((v as int / 256) % 256) as u8
}

/// Low byte of a coordinate as the display receives it: bits 0..7.
pub open spec fn addr_lo(v: i32) -> u8 {
    (v as int % 256) as u8
}

/// A column or page window command: start and end coordinate, two bytes each.
pub open spec fn window_words(c: u8, from: i32, to: i32) -> Seq<BusWord> {
    command_words(c, seq![addr_hi(from), addr_lo(from), addr_hi(to), addr_lo(to)])
}

/// One pixel: a point and its colour.
#[derive(Clone, Copy, PartialEq, Eq, Structural, Debug)]
pub struct Pixel {
    pub x: i32,
    pub y: i32,
    pub color: MyColor,
}

/// A rectangle: top-left corner and size in pixels.
#[derive(Clone, Copy, PartialEq, Eq, Structural, Debug)]
pub struct Area {
    pub x: i32,
    pub y: i32,
    pub width: u32,
    pub height: u32,
}

/// The column and page windows that drawing `px` left on the display:
/// those of the last pixel, or none known when `px` is empty.
pub open spec fn cursor(px: Seq<Pixel>) -> Option<(i32, i32)> {
    if px.len() == 0 {
        None
    } else {
        Some((px.last().x, px.last().y))
    }
}

/// Whether column `v` needs its column window sent, given the windows
/// `at` known to be on the display.
pub open spec fn column_stale(v: i32, at: Option<(i32, i32)>) -> bool {
    match at {
        None => true,
        Some(w) => w.0 != v,
    }
}

/// Whether row `v` needs its page window sent, given the windows `at`.
pub open spec fn row_stale(v: i32, at: Option<(i32, i32)>) -> bool {
    match at {
        None => true,
        Some(w) => w.1 != v,
    }
}

/// What drawing one pixel sends when the display holds the windows `at`:
/// the column window unless it is already the pixel's column, the page
/// window unless it is already the pixel's row, then a memory write of the
/// two colour bytes. With no known windows both are sent.
pub open spec fn pixel_words(p: Pixel, at: Option<(i32, i32)>) -> Seq<BusWord> {
    (if column_stale(p.x, at) { window_words(COLUMN_ADDRESS_SET, p.x, p.x) } else { seq![] })
        + (if row_stale(p.y, at) { window_words(PAGE_ADDRESS_SET, p.y, p.y) } else { seq![] })
        + command_words(MEMORY_WRITE, seq![p.color.0, p.color.1])
}

/// What [`ILI9341::draw_iter`] sends for the pixels `px`, in order.
pub open spec fn draw_words(px: Seq<Pixel>) -> Seq<BusWord>
    decreases px.len(),
{
    if px.len() == 0 {
        seq![]
    } else {
        draw_words(px.drop_last()) + pixel_words(px.last(), cursor(px.drop_last()))
    }
}

/// The colour bytes of `cs`, each colour high byte first, as parameters.
pub open spec fn color_words(cs: Seq<MyColor>) -> Seq<BusWord>
    decreases cs.len(),
{
    if cs.len() == 0 {
        seq![]
    } else {
        color_words(cs.drop_last()) + seq![data(cs.last().0), data(cs.last().1)]
    }
}

/// The bottom-right corner of a rectangle, or `None` when it is empty.
pub open spec fn bottom_right_of(a: Area) -> Option<(i32, i32)> {
    if a.width > 0 && a.height > 0 {
        Some(((a.x + a.width - 1) as i32, (a.y + a.height - 1) as i32))
    } else {
        None
    }
}

/// The rectangle's corners can be computed without overflow.
pub open spec fn area_in_range(a: Area) -> bool {
    a.width > 0 && a.height > 0 ==> {
        &&& a.width <= i32::MAX
        &&& a.height <= i32::MAX
        &&& a.x + a.width <= i32::MAX
        &&& a.y + a.height <= i32::MAX
    }
}

/// What [`ILI9341::fill_contiguous`] sends: the column and page windows of the
/// area, a memory write, and the colours, at most one per pixel of the area.
pub open spec fn fill_words(a: Area, cs: Seq<MyColor>) -> Seq<BusWord> {
    let (x2, y2) = match bottom_right_of(a) {
        Some(p) => p,
        None => (a.x, a.y),
    };
    let n = if cs.len() < a.width * a.height { cs.len() as int } else { a.width * a.height };
    window_words(COLUMN_ADDRESS_SET, a.x, x2) + window_words(PAGE_ADDRESS_SET, a.y, y2) + seq![
        cmd(MEMORY_WRITE),
    ] + color_words(cs.take(n))
}

/// The column and page windows that fill a non-empty area span exactly its
/// width and height.
pub proof fn lemma_fill_window_spans_area(a: Area)
    requires
        area_in_range(a),
        a.width > 0,
        a.height > 0,
    ensures
        ({
            let (x2, y2) = bottom_right_of(a).unwrap();
            &&& x2 - a.x + 1 == a.width
            &&& y2 - a.y + 1 == a.height
        }),
{
}

/// Two address bytes give the coordinate back for coordinates that fit in
/// sixteen bits.
pub proof fn lemma_address_bytes(v: i32)
    requires
        0 <= v < 65536,
    ensures
        addr_hi(v) as int * 256 + addr_lo(v) as int == v,
{
}

/// `embedded_graphics::primitives::Rectangle::bottom_right`: for a non-empty
/// rectangle, the top-left corner plus the size minus one in each direction;
/// `None` when the width or the height is zero.
#[verifier::external_body]
fn rect_bottom_right(x: i32, y: i32, width: u32, height: u32) -> (r: Option<(i32, i32)>)
    requires
        width > 0 && height > 0 ==> width <= i32::MAX && height <= i32::MAX && x + width
            <= i32::MAX && y + height <= i32::MAX,
    ensures
        r == (if width > 0 && height > 0 {
            Some(((x + width - 1) as i32, (y + height - 1) as i32))
        } else {
            None::<(i32, i32)>
        }),
{
    let rect = Rectangle::new(Point::new(x, y), Size::new(width, height));
    match rect.bottom_right() {
        Some(p) => Some((p.x, p.y)),
        None => None,
    }
}

/// Splits a coordinate into the two bytes the display receives.
fn coordinate_bytes(v: i32) -> (r: (u8, u8))
    ensures
        r.0 == addr_hi(v),
        r.1 == addr_lo(v),
{
    let hi: u8 = #[verifier::truncate] ((v >> 8i32) as u8);
    let lo: u8 = #[verifier::truncate] (v as u8);
    assert(hi as int == ((v as int / 256) % 256) && lo as int == v as int % 256) by (bit_vector)
        requires
            hi == #[verifier::truncate] ((v >> 8i32) as u8),
            lo == #[verifier::truncate] (v as u8),
    ;
    (hi, lo)
}


/// The writes that put byte `b` on the bus and strobe WRX, when `last` is on
/// the data lines: set the bits of the new byte, clear the others together
/// with WRX, raise WRX. A repeated byte only strobes WRX.
pub open spec fn byte_ops(last: u8, b: u8) -> Seq<GpioOp> {
    if b != last {
        seq![
            GpioOp::OutSet((rev8(b) as u32) << 3u32),
            GpioOp::OutClear(((((!rev8(b)) as u32) << 3u32) + WR_BIT) as u32),
            GpioOp::OutSet(WR_BIT),
        ]
    } else {
        seq![GpioOp::OutClear(WR_BIT), GpioOp::OutSet(WR_BIT)]
    }
}

/// The writes that send one word when D/CX is at `dc` and `last` is on the
/// data lines: D/CX is switched first, only when it differs.
pub open spec fn word_ops(dc: bool, last: u8, w: BusWord) -> Seq<GpioOp> {
    (if w.is_data == dc {
        seq![]
    } else if w.is_data {
        seq![GpioOp::OutSet(DC_BIT)]
    } else {
        seq![GpioOp::OutClear(DC_BIT)]
    }) + byte_ops(last, w.byte)
}

/// The writes that send the words in order, starting from D/CX at `dc` and
/// `last` on the data lines.
pub open spec fn words_ops(dc: bool, last: u8, ws: Seq<BusWord>) -> Seq<GpioOp>
    decreases ws.len(),
{
    if ws.len() == 0 {
        seq![]
    } else {
        word_ops(dc, last, ws[0]) + words_ops(ws[0].is_data, ws[0].byte, ws.drop_first())
    }
}

/// The level of D/CX after sending `ws` from level `dc`.
pub open spec fn end_dc(dc: bool, ws: Seq<BusWord>) -> bool {
    if ws.len() == 0 {
        dc
    } else {
        ws.last().is_data
    }
}

/// The byte on the data lines after sending `ws` with `last` on them.
pub open spec fn end_byte(last: u8, ws: Seq<BusWord>) -> u8 {
    if ws.len() == 0 {
        last
    } else {
        ws.last().byte
    }
}

/// Sending one word after another queues the writes of the first, then those
/// of the second from where the first left the lines.
pub proof fn lemma_words_ops_append(dc: bool, last: u8, a: Seq<BusWord>, b: Seq<BusWord>)
    ensures
        words_ops(dc, last, a + b) == words_ops(dc, last, a) + words_ops(
            end_dc(dc, a),
            end_byte(last, a),
            b,
        ),
        end_dc(dc, a + b) == end_dc(end_dc(dc, a), b),
        end_byte(last, a + b) == end_byte(end_byte(last, a), b),
    decreases a.len(),
{
    if a.len() == 0 {
        assert(a + b =~= b);
    } else {
        assert((a + b).drop_first() =~= a.drop_first() + b);
        assert((a + b)[0] == a[0]);
        lemma_words_ops_append(a[0].is_data, a[0].byte, a.drop_first(), b);
        if a.drop_first().len() == 0 {
            assert(a.last() == a[0]);
        } else {
            assert(a.drop_first().last() == a.last());
        }
        if b.len() > 0 {
            assert((a + b).last() == b.last());
        } else {
            assert(a + b =~= a);
        }
        assert(word_ops(dc, last, a[0]) + (words_ops(a[0].is_data, a[0].byte, a.drop_first())
            + words_ops(end_dc(a[0].is_data, a.drop_first()), end_byte(a[0].byte, a.drop_first()), b))
            =~= (word_ops(dc, last, a[0]) + words_ops(a[0].is_data, a[0].byte, a.drop_first()))
            + words_ops(end_dc(a[0].is_data, a.drop_first()), end_byte(a[0].byte, a.drop_first()), b));
    }
}

/// The writes for a single word.
pub proof fn lemma_words_ops_single(dc: bool, last: u8, w: BusWord)
    ensures
        words_ops(dc, last, seq![w]) == word_ops(dc, last, w),
{
    assert(seq![w].drop_first() =~= Seq::<BusWord>::empty());
    assert(words_ops(w.is_data, w.byte, seq![w].drop_first()) =~= Seq::<GpioOp>::empty());
    assert(word_ops(dc, last, w) + Seq::<GpioOp>::empty() =~= word_ops(dc, last, w));
}

/// Resending the word already on the bus only strobes WRX: clear, then set.
pub proof fn lemma_repeated_word_only_strobes(dc: bool, b: u8)
    ensures
        word_ops(dc, b, BusWord { is_data: dc, byte: b }) == seq![
            GpioOp::OutClear(WR_BIT),
            GpioOp::OutSet(WR_BIT),
        ],
{
    assert(Seq::<GpioOp>::empty() + seq![GpioOp::OutClear(WR_BIT), GpioOp::OutSet(WR_BIT)] =~= seq![
        GpioOp::OutClear(WR_BIT),
        GpioOp::OutSet(WR_BIT),
    ]);
}

/// What the display latches from one operation performed on `reg`.
pub open spec fn step_latch(reg: u32, o: GpioOp) -> Seq<BusWord> {
    if strobed(reg, apply_op(reg, o)) {
        seq![word_on_bus(apply_op(reg, o))]
    } else {
        seq![]
    }
}

proof fn lemma_run_two(reg: u32, o1: GpioOp, o2: GpioOp)
    ensures
        run(reg, seq![o1, o2]) == apply_op(apply_op(reg, o1), o2),
        latched(reg, seq![o1, o2]) == step_latch(reg, o1) + step_latch(apply_op(reg, o1), o2),
{
    assert(seq![o1] + seq![o2] =~= seq![o1, o2]);
    lemma_latched_append(reg, seq![o1], seq![o2]);
    lemma_run_one(reg, o1);
    lemma_run_one(apply_op(reg, o1), o2);
}

proof fn lemma_run_three(reg: u32, o1: GpioOp, o2: GpioOp, o3: GpioOp)
    ensures
        run(reg, seq![o1, o2, o3]) == apply_op(apply_op(apply_op(reg, o1), o2), o3),
        latched(reg, seq![o1, o2, o3]) == step_latch(reg, o1) + step_latch(apply_op(reg, o1), o2)
            + step_latch(apply_op(apply_op(reg, o1), o2), o3),
{
    assert(seq![o1, o2] + seq![o3] =~= seq![o1, o2, o3]);
    lemma_latched_append(reg, seq![o1, o2], seq![o3]);
    lemma_run_two(reg, o1, o2);
    lemma_run_one(apply_op(apply_op(reg, o1), o2), o3);
}

/// Writing one byte: from idle lines with D/CX at `dc` and `last` on the data
/// lines, the writes of [`byte_ops`] make the display latch exactly one word,
/// the byte `b` with D/CX at `dc`, and leave the lines idle with `b` on them.
/// When `b` is already on the lines, the writes only pulse WRX low and high.
pub proof fn lemma_byte_ops_latch(reg: u32, dc: bool, last: u8, b: u8)
    requires
        line_ok(reg, dc, last),
    ensures
        latched(reg, byte_ops(last, b)) == seq![BusWord { is_data: dc, byte: b }],
        line_ok(run(reg, byte_ops(last, b)), dc, b),
        b == last ==> byte_ops(last, b) == seq![GpioOp::OutClear(WR_BIT), GpioOp::OutSet(WR_BIT)],
{
    if b != last {
        let rev = rev8(b);
        let set: u32 = (rev as u32) << 3u32;
        let clear: u32 = ((((!rev) as u32) << 3u32) + WR_BIT) as u32;
        let r1 = reg | set;
        let r2 = r1 & !clear;
        let r3 = r2 | WR_BIT;
        assert(((((!rev) as u32) << 3u32) as int) + (WR_BIT as int) < 0x1_0000_0000) by (bit_vector);
        assert(!strobed(reg, r1) && !strobed(r1, r2) && strobed(r2, r3)
            && (r3 & DC_BIT != 0) == dc && (r3 >> 3u32) & 0xff == rev as u32
            && line_ok(r3, dc, b)) by (bit_vector)
            requires
                line_ok(reg, dc, last),
                rev == rev8(b),
                set == (rev as u32) << 3u32,
                clear == (((!rev) as u32) << 3u32) + 0x800u32,
                r1 == reg | set,
                r2 == r1 & !clear,
                r3 == r2 | 0x800u32,
        ;
        lemma_rev8_involutive(b);
        assert(((r3 >> 3u32) & 0xff) as u8 == rev);
        lemma_run_three(reg, GpioOp::OutSet(set), GpioOp::OutClear(clear), GpioOp::OutSet(WR_BIT));
        assert(latched(reg, byte_ops(last, b)) =~= seq![BusWord { is_data: dc, byte: b }]);
    } else {
        let r1 = reg & !WR_BIT;
        let r2 = r1 | WR_BIT;
        assert(!strobed(reg, r1) && strobed(r1, r2) && (r2 & DC_BIT != 0) == dc
            && (r2 >> 3u32) & 0xff == rev8(last) as u32 && line_ok(r2, dc, last)) by (bit_vector)
            requires
                line_ok(reg, dc, last),
                r1 == reg & !0x800u32,
                r2 == r1 | 0x800u32,
        ;
        lemma_rev8_involutive(last);
        lemma_run_two(reg, GpioOp::OutClear(WR_BIT), GpioOp::OutSet(WR_BIT));
        assert(latched(reg, byte_ops(last, b)) =~= seq![BusWord { is_data: dc, byte: b }]);
    }
}

/// Writing one word: from idle lines with D/CX at `dc` and `last` on the data
/// lines, the writes of [`word_ops`] make the display latch exactly `w` and
/// leave the lines idle with D/CX and the data lines as `w` sets them.
pub proof fn lemma_word_ops_latch(reg: u32, dc: bool, last: u8, w: BusWord)
    requires
        line_ok(reg, dc, last),
    ensures
        latched(reg, word_ops(dc, last, w)) == seq![w],
        line_ok(run(reg, word_ops(dc, last, w)), w.is_data, w.byte),
{
    let pre: Seq<GpioOp> = if w.is_data == dc {
        seq![]
    } else if w.is_data {
        seq![GpioOp::OutSet(DC_BIT)]
    } else {
        seq![GpioOp::OutClear(DC_BIT)]
    };
    let r1 = run(reg, pre);
    if w.is_data == dc {
        assert(latched(reg, pre) =~= Seq::<BusWord>::empty());
    } else if w.is_data {
        lemma_run_one(reg, GpioOp::OutSet(DC_BIT));
        assert(!strobed(reg, reg | DC_BIT) && line_ok(reg | DC_BIT, true, last)) by (bit_vector)
            requires
                line_ok(reg, false, last),
        ;
    } else {
        lemma_run_one(reg, GpioOp::OutClear(DC_BIT));
        assert(!strobed(reg, reg & !DC_BIT) && line_ok(reg & !DC_BIT, false, last)) by (bit_vector)
            requires
                line_ok(reg, true, last),
        ;
    }
    assert(latched(reg, pre) =~= Seq::<BusWord>::empty());
    assert(line_ok(r1, w.is_data, last));
    lemma_byte_ops_latch(r1, w.is_data, last, w.byte);
    lemma_latched_append(reg, pre, byte_ops(last, w.byte));
    assert(Seq::<BusWord>::empty() + seq![BusWord { is_data: w.is_data, byte: w.byte }] =~= seq![w]);
}

/// Writing a sequence of words: from idle lines with D/CX at `dc` and `last`
/// on the data lines, the writes of [`words_ops`] make the display latch
/// exactly `ws`, in order, and leave the lines idle with D/CX and the data
/// lines as the last word sets them.
pub proof fn lemma_words_ops_latch(reg: u32, dc: bool, last: u8, ws: Seq<BusWord>)
    requires
        line_ok(reg, dc, last),
    ensures
        latched(reg, words_ops(dc, last, ws)) == ws,
        line_ok(run(reg, words_ops(dc, last, ws)), end_dc(dc, ws), end_byte(last, ws)),
    decreases ws.len(),
{
    if ws.len() == 0 {
        assert(latched(reg, words_ops(dc, last, ws)) =~= ws);
    } else {
        let first = word_ops(dc, last, ws[0]);
        let rest = ws.drop_first();
        lemma_word_ops_latch(reg, dc, last, ws[0]);
        lemma_words_ops_latch(run(reg, first), ws[0].is_data, ws[0].byte, rest);
        lemma_latched_append(reg, first, words_ops(ws[0].is_data, ws[0].byte, rest));
        assert(seq![ws[0]] + rest =~= ws);
        if rest.len() > 0 {
            assert(rest.last() == ws.last());
        } else {
            assert(ws.last() == ws[0]);
        }
    }
}

/// Driver state of the display: the level of D/CX, the byte left on the data
/// lines, and the register writes queued since the last [`ILI9341::take_ops`].
pub struct ILI9341 {
    dc_state: bool,
    last_data: u8,
    ops: Vec<GpioOp>,
    origin: Ghost<u32>,
}


/// What [`ILI9341::display_inversion_on`] sends.
pub open spec fn display_inversion_on_words() -> Seq<BusWord> {
    command_words(DISPLAY_INVERSION_ON, seq![])
}

/// What [`ILI9341::enter_sleep_mode`] sends.
pub open spec fn enter_sleep_mode_words() -> Seq<BusWord> {
    command_words(ENTER_SLEEP_MODE, seq![])
}

/// What [`ILI9341::sleep_out`] sends.
pub open spec fn sleep_out_words() -> Seq<BusWord> {
    command_words(SLEEP_OUT, seq![])
}

/// What [`ILI9341::display_inversion_off`] sends.
pub open spec fn display_inversion_off_words() -> Seq<BusWord> {
    command_words(DISPLAY_INVERSION_OFF, seq![])
}

/// What [`ILI9341::display_on`] sends.
pub open spec fn display_on_words() -> Seq<BusWord> {
    command_words(DISPLAY_ON, seq![])
}

/// What [`ILI9341::display_off`] sends.
pub open spec fn display_off_words() -> Seq<BusWord> {
    command_words(DISPLAY_OFF, seq![])
}

/// What [`ILI9341::software_reset`] sends.
pub open spec fn software_reset_words() -> Seq<BusWord> {
    command_words(SOFTWARE_RESET, seq![])
}

/// What [`ILI9341::power_control_b`] sends.
pub open spec fn power_control_b_words() -> Seq<BusWord> {
    command_words(POWER_CONTROL_A, seq![0x39u8, 0x2Cu8, 0x00u8, 0x34u8, 0x02u8])
}

/// What [`ILI9341::power_control_a`] sends.
pub open spec fn power_control_a_words() -> Seq<BusWord> {
    command_words(POWER_CONTROL_B, seq![0x00u8, 0xC1u8, 0x30u8])
}

/// What [`ILI9341::driver_timing_control_a`] sends.
pub open spec fn driver_timing_control_a_words() -> Seq<BusWord> {
    command_words(DRIVER_TIMING_CONTROL_A_2, seq![0x84u8, 0x00u8, 0x78u8])
}

/// What [`ILI9341::driver_timing_control_b`] sends.
pub open spec fn driver_timing_control_b_words() -> Seq<BusWord> {
    command_words(DRIVER_TIMING_CONTROL_B, seq![0x00u8, 0x00u8])
}

/// What [`ILI9341::power_on_sequence_control`] sends.
pub open spec fn power_on_sequence_control_words() -> Seq<BusWord> {
    command_words(POWER_ON_SEQUENCE_CONTROL, seq![0x64u8, 0x03u8, 0x12u8, 0x81u8])
}

/// What [`ILI9341::pump_ratio_control`] sends.
pub open spec fn pump_ratio_control_words() -> Seq<BusWord> {
    command_words(PUMP_RATIO_CONTROL, seq![0x20u8])
}

/// What [`ILI9341::power_control_1`] sends.
pub open spec fn power_control_1_words() -> Seq<BusWord> {
    command_words(POWER_CONTROL_1, seq![0x23u8])
}

/// What [`ILI9341::power_control_2`] sends.
pub open spec fn power_control_2_words() -> Seq<BusWord> {
    command_words(POWER_CONTROL_2, seq![0x10u8])
}

/// What [`ILI9341::vcom_control_1`] sends.
pub open spec fn vcom_control_1_words() -> Seq<BusWord> {
    command_words(VCOM_CONTROL_1, seq![0x3Eu8, 0x28u8])
}

/// What [`ILI9341::positive_gamma_correction`] sends.
pub open spec fn positive_gamma_correction_words() -> Seq<BusWord> {
    command_words(POSITIVE_GAMMA_CORRECTION, seq![0x0Fu8, 0x31u8, 0x2Bu8, 0x0Cu8, 0x0Eu8, 0x08u8, 0x4Eu8, 0xF1u8, 0x37u8, 0x07u8, 0x10u8, 0x03u8, 0x0Eu8, 0x09u8, 0x00u8])
}

/// What [`ILI9341::negative_gamma_correction`] sends.
pub open spec fn negative_gamma_correction_words() -> Seq<BusWord> {
    command_words(NEGATIVE_GAMMA_CORRECTION, seq![0x00u8, 0x0Eu8, 0x14u8, 0x03u8, 0x11u8, 0x07u8, 0x31u8, 0xC1u8, 0x48u8, 0x08u8, 0x0Fu8, 0x0Cu8, 0x31u8, 0x36u8, 0x0Fu8])
}

/// What [`ILI9341::vcom_control_2`] sends.
pub open spec fn vcom_control_2_words() -> Seq<BusWord> {
    command_words(VCOM_CONTROL_2, seq![0x86u8])
}

/// What [`ILI9341::memory_access_control`] sends.
pub open spec fn memory_access_control_words() -> Seq<BusWord> {
    command_words(MEMORY_ACCESS_CONTROL, seq![0x38u8])
}

/// What [`ILI9341::colmod_pixel_format_set`] sends.
pub open spec fn colmod_pixel_format_set_words() -> Seq<BusWord> {
    command_words(COLMOD_PIXEL_FORMAT_SET, seq![0x55u8])
}

/// What [`ILI9341::frame_rate_control`] sends.
pub open spec fn frame_rate_control_words() -> Seq<BusWord> {
    command_words(FRAME_RATE_CONTROL_NORMAL_MODE_FULL_COLORS, seq![0x00u8, 0x18u8])
}

/// What [`ILI9341::display_function_control`] sends.
pub open spec fn display_function_control_words() -> Seq<BusWord> {
    command_words(DISPLAY_FUNCTION_CONTROL, seq![0x08u8, 0x82u8, 0x27u8])
}

/// What [`ILI9341::enable_3g`] sends.
pub open spec fn enable_3g_words() -> Seq<BusWord> {
    command_words(ENABLE_3G, seq![0x00u8])
}

/// What [`ILI9341::gamma_set`] sends.
pub open spec fn gamma_set_words() -> Seq<BusWord> {
    command_words(GAMMA_SET, seq![0x01u8])
}

/// What [`ILI9341::frame_rate_control_normal_mode_full_colors`] sends.
pub open spec fn frame_rate_control_normal_mode_full_colors_words() -> Seq<BusWord> {
    command_words(FRAME_RATE_CONTROL_NORMAL_MODE_FULL_COLORS, seq![0x00u8, 0x18u8])
}

/// Everything [`ILI9341::new`] sends before the pause that follows `SLEEP_OUT`.
pub open spec fn init_words() -> Seq<BusWord> {
    power_up_words() + panel_setup_words() + gamma_setup_words()
}

pub open spec fn power_up_words() -> Seq<BusWord> {
    software_reset_words()
        + power_control_a_words()
        + power_control_b_words()
        + driver_timing_control_a_words()
        + driver_timing_control_b_words()
        + power_on_sequence_control_words()
        + pump_ratio_control_words()
}

pub open spec fn panel_setup_words() -> Seq<BusWord> {
    power_control_1_words()
        + power_control_2_words()
        + vcom_control_1_words()
        + vcom_control_2_words()
        + memory_access_control_words()
        + colmod_pixel_format_set_words()
        + frame_rate_control_normal_mode_full_colors_words()
        + display_function_control_words()
}

pub open spec fn gamma_setup_words() -> Seq<BusWord> {
    enable_3g_words()
        + gamma_set_words()
        + positive_gamma_correction_words()
        + sleep_out_words()
}

/// The operations that enable the bus pins, raise the idle lines and select
/// the chip.
pub open spec fn bus_setup_ops() -> Seq<GpioOp> {
    seq![
        GpioOp::EnableSet(PINS_ENABLE_MASK),
        GpioOp::OutSet(PINS_IDLE_MASK),
        GpioOp::OutClear(CS_BIT),
    ]
}


/// `after` is `before` once the words `w` have been sent: the writes that
/// send them are appended to the queue, D/CX and the data lines are left as
/// the last word leaves them, and the display latches `w` after what it
/// latched before.
pub open spec fn sends(before: ILI9341, after: ILI9341, w: Seq<BusWord>) -> bool {
    &&& after.pending() == before.pending() + words_ops(before.dc_level(), before.last_byte(), w)
    &&& after.dc_level() == end_dc(before.dc_level(), w)
    &&& after.last_byte() == end_byte(before.last_byte(), w)
    &&& after.origin() == before.origin()
    &&& after.words() == before.words() + w
}

/// Sending nothing changes nothing.
pub proof fn lemma_sends_nothing(a: ILI9341)
    ensures
        sends(a, a, Seq::<BusWord>::empty()),
{
    assert(a.pending() + Seq::<GpioOp>::empty() =~= a.pending());
    assert(a.words() + Seq::<BusWord>::empty() =~= a.words());
}

/// Sending `w1`, then `w2`, is sending `w1 + w2`.
pub proof fn lemma_sends_then(a: ILI9341, b: ILI9341, c: ILI9341, w1: Seq<BusWord>, w2: Seq<BusWord>)
    requires
        sends(a, b, w1),
        sends(b, c, w2),
    ensures
        sends(a, c, w1 + w2),
{
    lemma_words_ops_append(a.dc_level(), a.last_byte(), w1, w2);
    assert(a.pending() + words_ops(a.dc_level(), a.last_byte(), w1) + words_ops(
        b.dc_level(),
        b.last_byte(),
        w2,
    ) =~= a.pending() + words_ops(a.dc_level(), a.last_byte(), w1 + w2));
    assert(a.words() + w1 + w2 =~= a.words() + (w1 + w2));
}

impl ILI9341 {
    /// The level of D/CX: high for data, low for a command.
    pub closed spec fn dc_level(&self) -> bool {
        self.dc_state
    }

    /// The byte on the data lines.
    pub closed spec fn last_byte(&self) -> u8 {
        self.last_data
    }

    /// The register writes queued and not yet taken.
    pub closed spec fn pending(&self) -> Seq<GpioOp> {
        self.ops@
    }

    /// The modelled `OUT1` value before the first queued write.
    pub closed spec fn origin(&self) -> u32 {
        self.origin@
    }

    /// The modelled `OUT1` value once the queued writes are performed.
    pub open spec fn out1(&self) -> u32 {
        run(self.origin(), self.pending())
    }

    /// Once the queued writes are performed, the bus is idle with D/CX and the
    /// data lines as the driver records them.
    pub open spec fn wf(&self) -> bool {
        line_ok(self.out1(), self.dc_level(), self.last_byte())
    }

    /// The words the display latches when the queued writes are performed.
    pub open spec fn words(&self) -> Seq<BusWord> {
        latched(self.origin(), self.pending())
    }

    /// Hands out the queued register writes, in the order they must be
    /// performed, and empties the queue.
    pub fn take_ops(&mut self) -> (taken: Vec<GpioOp>)
        requires
            old(self).wf(),
        ensures
            final(self).wf(),
            taken@ == old(self).pending(),
            latched(old(self).origin(), taken@) == old(self).words(),
            final(self).pending() == Seq::<GpioOp>::empty(),
            final(self).origin() == run(old(self).origin(), taken@),
            final(self).words() == Seq::<BusWord>::empty(),
            final(self).dc_level() == old(self).dc_level(),
            final(self).last_byte() == old(self).last_byte(),
    {
        let mut taken: Vec<GpioOp> = Vec::new();
        std::mem::swap(&mut taken, &mut self.ops);
        self.origin = Ghost(run(self.origin@, taken@));
        proof {
            assert(self.ops@ =~= Seq::<GpioOp>::empty());
        }
        taken
    }

    fn push_op(&mut self, op: GpioOp)
        ensures
            final(self).ops@ == old(self).ops@.push(op),
            final(self).origin == old(self).origin,
            final(self).dc_state == old(self).dc_state,
            final(self).last_data == old(self).last_data,
            run(final(self).origin@, final(self).ops@) == apply_op(
                run(old(self).origin@, old(self).ops@),
                op,
            ),
            latched(final(self).origin@, final(self).ops@) == latched(old(self).origin@, old(self).ops@)
                + (if strobed(run(old(self).origin@, old(self).ops@), apply_op(run(old(self).origin@, old(self).ops@), op)) {
                seq![word_on_bus(apply_op(run(old(self).origin@, old(self).ops@), op))]
            } else {
                seq![]
            }),
    {
        proof {
            lemma_latched_append(self.origin@, self.ops@, seq![op]);
            lemma_run_one(run(self.origin@, self.ops@), op);
            assert(self.ops@.push(op) =~= self.ops@ + seq![op]);
        }
        self.ops.push(op);
    }

    /// Puts one byte on the bus and strobes WRX. The data lines are only
    /// rewritten when the byte differs from the one already there.
    fn write8(&mut self, data: u8) -> (ret: &mut Self)
        requires
            old(self).wf(),
        ensures
            ret.wf(),
            ret.words() == old(self).words().push(BusWord { is_data: old(self).dc_state, byte: data }),
            ret.ops@ == old(self).ops@ + byte_ops(old(self).last_data, data),
            ret.dc_state == old(self).dc_state,
            ret.last_data == data,
            ret.origin@ == old(self).origin@,
            *final(self) == *final(ret),
    {
        let ghost ops0 = self.ops@;
        let ghost last = self.last_data;
        if data != self.last_data {
            let rev: u8 = reverse_bits(data);
            let set: u32 = (rev as u32) << 3u32;
            assert((((!rev) as u32) << 3u32) <= 0x7f8) by (bit_vector);
            let clear: u32 = (((!rev) as u32) << 3u32) + WR_BIT;
            self.push_op(GpioOp::OutSet(set));
            self.push_op(GpioOp::OutClear(clear));
            self.push_op(GpioOp::OutSet(WR_BIT));
            self.last_data = data;
        } else {
            self.push_op(GpioOp::OutClear(WR_BIT));
            self.push_op(GpioOp::OutSet(WR_BIT));
        }
        proof {
            assert(self.ops@ =~= ops0 + byte_ops(last, data));
            lemma_latched_append(self.origin@, ops0, byte_ops(last, data));
            lemma_byte_ops_latch(run(self.origin@, ops0), self.dc_state, last, data);
        }
        self
    }

    /// Lowers D/CX if it is high, then sends a command byte.
    fn write_command(&mut self, c: u8) -> (ret: &mut Self)
        requires
            old(self).wf(),
        ensures
            ret.wf(),
            sends(*old(self), *ret, seq![cmd(c)]),
            *final(self) == *final(ret),
    {
        let ghost ops0 = self.ops@;
        let ghost w0 = self.words();
        let ghost dc0 = self.dc_state;
        let ghost last0 = self.last_data;
        if self.dc_state {
            let ghost r0 = run(self.origin@, self.ops@);
            let ghost last = self.last_data;
            self.push_op(GpioOp::OutClear(DC_BIT));
            self.dc_state = false;
            proof {
                let r1 = r0 & !DC_BIT;
                assert(!strobed(r0, r1) && line_ok(r1, false, last)) by (bit_vector)
                    requires
                        line_ok(r0, true, last),
                        r1 == r0 & !0x10000u32,
                ;
            }
        }
        let ghost ops1 = self.ops@;
        let ret = self.write8(c);
        proof {
            lemma_words_ops_single(dc0, last0, cmd(c));
            assert(ret.words() =~= w0 + seq![cmd(c)]);
            assert(ret.ops@ =~= ops0 + word_ops(dc0, last0, cmd(c))) by {
                if dc0 {
                    assert(ops1 =~= ops0 + seq![GpioOp::OutClear(DC_BIT)]);
                } else {
                    assert(ops1 =~= ops0);
                }
            }
        }
        ret
    }

    /// Raises D/CX if it is low, then sends a parameter byte.
    fn write_data(&mut self, d: u8) -> (ret: &mut Self)
        requires
            old(self).wf(),
        ensures
            ret.wf(),
            sends(*old(self), *ret, seq![data(d)]),
            *final(self) == *final(ret),
    {
        let ghost ops0 = self.ops@;
        let ghost w0 = self.words();
        let ghost dc0 = self.dc_state;
        let ghost last0 = self.last_data;
        if !self.dc_state {
            let ghost r0 = run(self.origin@, self.ops@);
            let ghost last = self.last_data;
            self.push_op(GpioOp::OutSet(DC_BIT));
            self.dc_state = true;
            proof {
                let r1 = r0 | DC_BIT;
                assert(!strobed(r0, r1) && line_ok(r1, true, last)) by (bit_vector)
                    requires
                        line_ok(r0, false, last),
                        r1 == r0 | 0x10000u32,
                ;
            }
        }
        let ghost ops1 = self.ops@;
        let ret = self.write8(d);
        proof {
            lemma_words_ops_single(dc0, last0, data(d));
            assert(ret.words() =~= w0 + seq![data(d)]);
            assert(ret.ops@ =~= ops0 + word_ops(dc0, last0, data(d))) by {
                if !dc0 {
                    assert(ops1 =~= ops0 + seq![GpioOp::OutSet(DC_BIT)]);
                } else {
                    assert(ops1 =~= ops0);
                }
            }
        }
        ret
    }

    /// Sends each byte of `params` as a parameter, in order.
    fn write_params(&mut self, params: &[u8])
        requires
            old(self).wf(),
        ensures
            final(self).wf(),
            sends(*old(self), *final(self), params@.map_values(|d: u8| data(d))),
    {
        let ghost s0 = *self;
        proof {
            lemma_sends_nothing(s0);
            assert(params@.take(0).map_values(|d: u8| data(d)) =~= Seq::<BusWord>::empty());
        }
        let mut i: usize = 0;
        while i < params.len()
            invariant
                i <= params.len(),
                self.wf(),
                sends(s0, *self, params@.take(i as int).map_values(|d: u8| data(d))),
                s0 == *old(self),
            decreases params.len() - i,
        {
            let ghost before = *self;
            self.write_data(params[i]);
            proof {
                lemma_sends_then(
                    s0,
                    before,
                    *self,
                    params@.take(i as int).map_values(|d: u8| data(d)),
                    seq![data(params@[i as int])],
                );
                assert(params@.take(i as int).map_values(|d: u8| data(d)) + seq![data(params@[i as int])]
                    =~= params@.take(i + 1).map_values(|d: u8| data(d)));
            }
            i = i + 1;
        }
        proof {
            assert(params@.take(params@.len() as int) =~= params@);
        }
    }

    /// Sends a command byte followed by its parameters.
    fn send(&mut self, c: u8, params: &[u8])
        requires
            old(self).wf(),
        ensures
            final(self).wf(),
            sends(*old(self), *final(self), command_words(c, params@)),
    {
        let ghost s0 = *self;
        self.write_command(c);
        let ghost s1 = *self;
        self.write_params(params);
        proof {
            lemma_sends_then(s0, s1, *self, seq![cmd(c)], params@.map_values(|d: u8| data(d)));
        }
    }

    /// Sets up the bus pins and runs the power-on sequence: software reset,
    /// power, timing, VCOM, orientation, pixel format, frame rate, gamma, then
    /// sleep-out, a 160 ms pause, and display-on. D/CX is left low and
    /// `DISPLAY_ON` (0x29) on the data lines.
    ///
    /// The model starts from `OUT1` at its reset value, zero.
    pub fn new() -> (s: ILI9341)
        ensures
            s.wf(),
            s.origin() == 0,
            s.pending() == bus_setup_ops() + words_ops(true, 0, init_words()) + seq![
                GpioOp::DelayMs(160),
            ] + words_ops(false, SLEEP_OUT, display_on_words()),
            s.words() == init_words() + display_on_words(),
            s.dc_level() == false,
            s.last_byte() == DISPLAY_ON,
            exists|k: int|
                #![trigger s.pending()[k]]
                3 <= k < s.pending().len() && s.pending()[k] == GpioOp::DelayMs(160)
                    && latched(0, s.pending().take(k)) == init_words()
                    && latched(run(0, s.pending().take(k)), s.pending().skip(k)) == display_on_words(),
    {
        let mut res = ILI9341 { dc_state: true, last_data: 0, ops: Vec::new(), origin: Ghost(0u32) };
        res.push_op(GpioOp::EnableSet(PINS_ENABLE_MASK));
        res.push_op(GpioOp::OutSet(PINS_IDLE_MASK));
        res.push_op(GpioOp::OutClear(CS_BIT));
        proof {
            let r1 = 0u32 | 0x19800u32;
            let r2 = r1 & !0x8000u32;
            assert(!strobed(0u32, r1) && !strobed(r1, r2) && line_ok(r2, true, 0u8)) by (bit_vector)
                requires
                    r1 == 0u32 | 0x19800u32,
                    r2 == r1 & !0x8000u32,
            ;
            assert(res.ops@ =~= bus_setup_ops());
            assert(res.words() =~= Seq::<BusWord>::empty());
        }
        let ghost s0 = res;
        res.power_up();
        let ghost s1 = res;
        res.panel_setup();
        proof {
            lemma_sends_then(s0, s1, res, power_up_words(), panel_setup_words());
        }
        let ghost s2 = res;
        res.gamma_setup();
        proof {
            lemma_sends_then(s0, s2, res, power_up_words() + panel_setup_words(), gamma_setup_words());
            assert(power_up_words() + panel_setup_words() + gamma_setup_words() =~= init_words());
            assert(gamma_setup_words().last() == cmd(SLEEP_OUT));
            assert(init_words().last() == cmd(SLEEP_OUT));
        }
        let ghost before_pause = res.ops@;
        let ghost w1 = res.words();
        res.push_op(GpioOp::DelayMs(160));
        let ghost k = before_pause.len() as int;
        let ghost after_pause = res.ops@;
        let ghost s3 = res;
        res.display_on();
        proof {
            assert(w1 =~= init_words());
            assert(res.ops@ =~= after_pause + words_ops(false, SLEEP_OUT, display_on_words()));
            assert(after_pause =~= before_pause + seq![GpioOp::DelayMs(160)]);
            assert(before_pause =~= bus_setup_ops() + words_ops(true, 0, init_words()));
            assert(res.ops@.take(3) =~= bus_setup_ops());
            assert(res.ops@[k] == GpioOp::DelayMs(160));
            assert(res.ops@.take(k) =~= before_pause);
            lemma_latched_append(0u32, res.ops@.take(k), res.ops@.skip(k));
            assert(res.ops@.take(k) + res.ops@.skip(k) =~= res.ops@);
            assert(latched(0u32, res.ops@.take(k)) == init_words());
            let tail = latched(run(0u32, res.ops@.take(k)), res.ops@.skip(k));
            assert(res.words() == init_words() + tail);
            assert(tail =~= (init_words() + tail).skip(init_words().len() as int));
            assert(tail =~= (init_words() + display_on_words()).skip(init_words().len() as int));
            assert(3 <= k);
        }
        res
    }

    /// Sends the reset, power and timing commands of the power-on sequence.
    fn power_up(&mut self)
        requires
            old(self).wf(),
        ensures
            final(self).wf(),
            sends(*old(self), *final(self), power_up_words()),
    {
        let ghost s0 = *self;
        let ghost b0 = *self;
        self.software_reset();
        let ghost b1 = *self;
        self.power_control_a();
        proof {
            lemma_sends_then(s0, b1, *self, software_reset_words(), power_control_a_words());
        }
        let ghost b2 = *self;
        self.power_control_b();
        proof {
            lemma_sends_then(s0, b2, *self, software_reset_words() + power_control_a_words(), power_control_b_words());
        }
        let ghost b3 = *self;
        self.driver_timing_control_a();
        proof {
            lemma_sends_then(s0, b3, *self, software_reset_words() + power_control_a_words() + power_control_b_words(), driver_timing_control_a_words());
        }
        let ghost b4 = *self;
        self.driver_timing_control_b();
        proof {
            lemma_sends_then(s0, b4, *self, software_reset_words() + power_control_a_words() + power_control_b_words() + driver_timing_control_a_words(), driver_timing_control_b_words());
        }
        let ghost b5 = *self;
        self.power_on_sequence_control();
        proof {
            lemma_sends_then(s0, b5, *self, software_reset_words() + power_control_a_words() + power_control_b_words() + driver_timing_control_a_words() + driver_timing_control_b_words(), power_on_sequence_control_words());
        }
        let ghost b6 = *self;
        self.pump_ratio_control();
        proof {
            lemma_sends_then(s0, b6, *self, software_reset_words() + power_control_a_words() + power_control_b_words() + driver_timing_control_a_words() + driver_timing_control_b_words() + power_on_sequence_control_words(), pump_ratio_control_words());
        }
    }

    /// Sends the power, VCOM, orientation, pixel format and frame-rate commands of the power-on sequence.
    fn panel_setup(&mut self)
        requires
            old(self).wf(),
        ensures
            final(self).wf(),
            sends(*old(self), *final(self), panel_setup_words()),
    {
        let ghost s0 = *self;
        let ghost b0 = *self;
        self.power_control_1();
        let ghost b1 = *self;
        self.power_control_2();
        proof {
            lemma_sends_then(s0, b1, *self, power_control_1_words(), power_control_2_words());
        }
        let ghost b2 = *self;
        self.vcom_control_1();
        proof {
            lemma_sends_then(s0, b2, *self, power_control_1_words() + power_control_2_words(), vcom_control_1_words());
        }
        let ghost b3 = *self;
        self.vcom_control_2();
        proof {
            lemma_sends_then(s0, b3, *self, power_control_1_words() + power_control_2_words() + vcom_control_1_words(), vcom_control_2_words());
        }
        let ghost b4 = *self;
        self.memory_access_control();
        proof {
            lemma_sends_then(s0, b4, *self, power_control_1_words() + power_control_2_words() + vcom_control_1_words() + vcom_control_2_words(), memory_access_control_words());
        }
        let ghost b5 = *self;
        self.colmod_pixel_format_set();
        proof {
            lemma_sends_then(s0, b5, *self, power_control_1_words() + power_control_2_words() + vcom_control_1_words() + vcom_control_2_words() + memory_access_control_words(), colmod_pixel_format_set_words());
        }
        let ghost b6 = *self;
        self.frame_rate_control_normal_mode_full_colors();
        proof {
            lemma_sends_then(s0, b6, *self, power_control_1_words() + power_control_2_words() + vcom_control_1_words() + vcom_control_2_words() + memory_access_control_words() + colmod_pixel_format_set_words(), frame_rate_control_normal_mode_full_colors_words());
        }
        let ghost b7 = *self;
        self.display_function_control();
        proof {
            lemma_sends_then(s0, b7, *self, power_control_1_words() + power_control_2_words() + vcom_control_1_words() + vcom_control_2_words() + memory_access_control_words() + colmod_pixel_format_set_words() + frame_rate_control_normal_mode_full_colors_words(), display_function_control_words());
        }
    }

    /// Sends the gamma commands of the power-on sequence and leaves sleep mode.
    fn gamma_setup(&mut self)
        requires
            old(self).wf(),
        ensures
            final(self).wf(),
            sends(*old(self), *final(self), gamma_setup_words()),
    {
        let ghost s0 = *self;
        let ghost b0 = *self;
        self.enable_3g();
        let ghost b1 = *self;
        self.gamma_set();
        proof {
            lemma_sends_then(s0, b1, *self, enable_3g_words(), gamma_set_words());
        }
        let ghost b2 = *self;
        self.positive_gamma_correction();
        proof {
            lemma_sends_then(s0, b2, *self, enable_3g_words() + gamma_set_words(), positive_gamma_correction_words());
        }
        let ghost b3 = *self;
        self.sleep_out();
        proof {
            lemma_sends_then(s0, b3, *self, enable_3g_words() + gamma_set_words() + positive_gamma_correction_words(), sleep_out_words());
        }
    }

    /// The whole panel: 320 by 240 pixels from the origin.
    pub fn bounding_box(&self) -> (a: Area)
        ensures
            a == (Area { x: 0, y: 0, width: 320, height: 240 }),
    {
        Area { x: 0, y: 0, width: WIDTH as u32, height: HEIGHT as u32 }
    }

    /// Sends a column or page window command: start and end coordinate.
    fn write_window(&mut self, c: u8, from: i32, to: i32)
        requires
            old(self).wf(),
        ensures
            final(self).wf(),
            sends(*old(self), *final(self), window_words(c, from, to)),
    {
        let (f1, f0) = coordinate_bytes(from);
        let (t1, t0) = coordinate_bytes(to);
        self.send(c, &[f1, f0, t1, t0]);
    }

    /// Sends one pixel when the display holds the windows `at`.
    fn draw_pixel(&mut self, p: Pixel, at: Option<(i32, i32)>)
        requires
            old(self).wf(),
        ensures
            final(self).wf(),
            sends(*old(self), *final(self), pixel_words(p, at)),
    {
        let (send_column, send_row) = match at {
            None => (true, true),
            Some((x, y)) => (x != p.x, y != p.y),
        };
        let ghost s0 = *self;
        proof {
            lemma_sends_nothing(s0);
        }
        if send_column {
            self.write_window(COLUMN_ADDRESS_SET, p.x, p.x);
        }
        let ghost s1 = *self;
        let ghost w1: Seq<BusWord> = if send_column { window_words(COLUMN_ADDRESS_SET, p.x, p.x) } else { seq![] };
        proof {
            lemma_sends_nothing(s1);
        }
        if send_row {
            self.write_window(PAGE_ADDRESS_SET, p.y, p.y);
        }
        let ghost s2 = *self;
        let ghost w2: Seq<BusWord> = if send_row { window_words(PAGE_ADDRESS_SET, p.y, p.y) } else { seq![] };
        proof {
            lemma_sends_then(s0, s1, s2, w1, w2);
        }
        self.send(MEMORY_WRITE, &[p.color.0, p.color.1]);
        proof {
            lemma_sends_then(s0, s2, *self, w1 + w2, command_words(MEMORY_WRITE, seq![p.color.0, p.color.1]));
            assert([p.color.0, p.color.1]@ =~= seq![p.color.0, p.color.1]);
        }
    }

    /// Draws each pixel in turn, each at its own point. The first pixel of a
    /// call sends both its column and its page window; after that a window is
    /// only resent when the pixel's column or row differs from the previous
    /// pixel's. Never fails; with no pixels nothing is queued and nothing
    /// changes.
    pub fn draw_iter(&mut self, pixels: &Vec<Pixel>) -> (r: Result<(), ()>)
        requires
            old(self).wf(),
        ensures
            final(self).wf(),
            r is Ok,
            sends(*old(self), *final(self), draw_words(pixels@)),
            pixels@.len() == 0 ==> final(self).pending() == old(self).pending(),
            pixels@.len() == 0 ==> final(self).dc_level() == old(self).dc_level(),
            pixels@.len() == 0 ==> final(self).last_byte() == old(self).last_byte(),
    {
        let ghost s0 = *self;
        proof {
            lemma_sends_nothing(s0);
            assert(pixels@.take(0) =~= Seq::<Pixel>::empty());
        }
        let mut at: Option<(i32, i32)> = None;
        let mut i: usize = 0;
        while i < pixels.len()
            invariant
                i <= pixels.len(),
                self.wf(),
                sends(s0, *self, draw_words(pixels@.take(i as int))),
                at == cursor(pixels@.take(i as int)),
                s0 == *old(self),
            decreases pixels.len() - i,
        {
            let p = pixels[i];
            let ghost before = *self;
            self.draw_pixel(p, at);
            at = Some((p.x, p.y));
            proof {
                let px = pixels@.take(i + 1);
                assert(px.drop_last() =~= pixels@.take(i as int));
                assert(px.last() == p);
                lemma_sends_then(s0, before, *self, draw_words(pixels@.take(i as int)), pixel_words(p, cursor(pixels@.take(i as int))));
            }
            i = i + 1;
        }
        proof {
            assert(pixels@.take(pixels@.len() as int) =~= pixels@);
        }
        Ok(())
    }

    /// Fills `area` with the colours in order: sets the column and page
    /// windows to the area (a one-pixel window at the top-left corner when the
    /// area is empty), starts a memory write and sends at most
    /// `width * height` colours. Never fails.
    pub fn fill_contiguous(&mut self, area: &Area, colors: &Vec<MyColor>) -> (r: Result<(), ()>)
        requires
            old(self).wf(),
            area_in_range(*area),
            area.width * area.height <= u32::MAX,
        ensures
            final(self).wf(),
            r is Ok,
            sends(*old(self), *final(self), fill_words(*area, colors@)),
    {
        let corner = rect_bottom_right(area.x, area.y, area.width, area.height);
        let (x2, y2) = match corner {
            Some(p) => p,
            None => (area.x, area.y),
        };
        let ghost s0 = *self;
        self.write_window(COLUMN_ADDRESS_SET, area.x, x2);
        let ghost s1 = *self;
        self.write_window(PAGE_ADDRESS_SET, area.y, y2);
        let ghost s2 = *self;
        self.write_command(MEMORY_WRITE);
        let ghost w1 = window_words(COLUMN_ADDRESS_SET, area.x, x2) + window_words(PAGE_ADDRESS_SET, area.y, y2) + seq![cmd(MEMORY_WRITE)];
        proof {
            lemma_sends_then(s0, s1, s2, window_words(COLUMN_ADDRESS_SET, area.x, x2), window_words(PAGE_ADDRESS_SET, area.y, y2));
            lemma_sends_then(s0, s2, *self, window_words(COLUMN_ADDRESS_SET, area.x, x2) + window_words(PAGE_ADDRESS_SET, area.y, y2), seq![cmd(MEMORY_WRITE)]);
            assert(colors@.take(0) =~= Seq::<MyColor>::empty());
            assert(w1 + color_words(colors@.take(0)) =~= w1);
        }
        let count: u32 = area.width * area.height;
        let n: usize = if (colors.len() as u64) < (count as u64) {
            colors.len()
        } else {
            count as usize
        };
        let mut i: usize = 0;
        while i < n
            invariant
                i <= n,
                n <= colors.len(),
                self.wf(),
                sends(s0, *self, w1 + color_words(colors@.take(i as int))),
            decreases n - i,
        {
            let c = colors[i];
            let ghost before = *self;
            self.write_data(c.0);
            let ghost mid = *self;
            self.write_data(c.1);
            proof {
                lemma_sends_then(before, mid, *self, seq![data(c.0)], seq![data(c.1)]);
                lemma_sends_then(s0, before, *self, w1 + color_words(colors@.take(i as int)), seq![data(c.0)] + seq![data(c.1)]);
                let cs = colors@.take(i + 1);
                assert(cs.drop_last() =~= colors@.take(i as int));
                assert(cs.last() == c);
                assert(w1 + color_words(colors@.take(i as int)) + (seq![data(c.0)] + seq![data(c.1)])
                    =~= w1 + color_words(cs));
            }
            i = i + 1;
        }
        Ok(())
    }

    /// Turns display inversion on. Leaves D/CX low and the last byte sent on
    /// the data lines.
    pub fn display_inversion_on(&mut self) -> (ret: &mut Self)
        requires
            old(self).wf(),
        ensures
            ret.wf(),
            sends(*old(self), *ret, display_inversion_on_words()),
            ret.dc_level() == false,
            ret.last_byte() == DISPLAY_INVERSION_ON,
            *final(self) == *final(ret),
    {
        let params: [u8; 0] = [];
        self.send(DISPLAY_INVERSION_ON, &params);
        proof {
            assert(params@ =~= seq![]);
        }
        self
    }

    /// Enters sleep mode. Leaves D/CX low and the last byte sent on
    /// the data lines.
    pub fn enter_sleep_mode(&mut self) -> (ret: &mut Self)
        requires
            old(self).wf(),
        ensures
            ret.wf(),
            sends(*old(self), *ret, enter_sleep_mode_words()),
            ret.dc_level() == false,
            ret.last_byte() == ENTER_SLEEP_MODE,
            *final(self) == *final(ret),
    {
        let params: [u8; 0] = [];
        self.send(ENTER_SLEEP_MODE, &params);
        proof {
            assert(params@ =~= seq![]);
        }
        self
    }

    /// Leaves sleep mode. Leaves D/CX low and the last byte sent on
    /// the data lines.
    pub fn sleep_out(&mut self) -> (ret: &mut Self)
        requires
            old(self).wf(),
        ensures
            ret.wf(),
            sends(*old(self), *ret, sleep_out_words()),
            ret.dc_level() == false,
            ret.last_byte() == SLEEP_OUT,
            *final(self) == *final(ret),
    {
        let params: [u8; 0] = [];
        self.send(SLEEP_OUT, &params);
        proof {
            assert(params@ =~= seq![]);
        }
        self
    }

    /// Turns display inversion off. Leaves D/CX low and the last byte sent on
    /// the data lines.
    pub fn display_inversion_off(&mut self) -> (ret: &mut Self)
        requires
            old(self).wf(),
        ensures
            ret.wf(),
            sends(*old(self), *ret, display_inversion_off_words()),
            ret.dc_level() == false,
            ret.last_byte() == DISPLAY_INVERSION_OFF,
            *final(self) == *final(ret),
    {
        let params: [u8; 0] = [];
        self.send(DISPLAY_INVERSION_OFF, &params);
        proof {
            assert(params@ =~= seq![]);
        }
        self
    }

    /// Turns the display on. Leaves D/CX low and the last byte sent on
    /// the data lines.
    pub fn display_on(&mut self) -> (ret: &mut Self)
        requires
            old(self).wf(),
        ensures
            ret.wf(),
            sends(*old(self), *ret, display_on_words()),
            ret.dc_level() == false,
            ret.last_byte() == DISPLAY_ON,
            *final(self) == *final(ret),
    {
        let params: [u8; 0] = [];
        self.send(DISPLAY_ON, &params);
        proof {
            assert(params@ =~= seq![]);
        }
        self
    }

    /// Turns the display off. Leaves D/CX low and the last byte sent on
    /// the data lines.
    pub fn display_off(&mut self) -> (ret: &mut Self)
        requires
            old(self).wf(),
        ensures
            ret.wf(),
            sends(*old(self), *ret, display_off_words()),
            ret.dc_level() == false,
            ret.last_byte() == DISPLAY_OFF,
            *final(self) == *final(ret),
    {
        let params: [u8; 0] = [];
        self.send(DISPLAY_OFF, &params);
        proof {
            assert(params@ =~= seq![]);
        }
        self
    }

    /// Resets the controller. Leaves D/CX low and the last byte sent on
    /// the data lines.
    pub fn software_reset(&mut self) -> (ret: &mut Self)
        requires
            old(self).wf(),
        ensures
            ret.wf(),
            sends(*old(self), *ret, software_reset_words()),
            ret.dc_level() == false,
            ret.last_byte() == SOFTWARE_RESET,
            *final(self) == *final(ret),
    {
        let params: [u8; 0] = [];
        self.send(SOFTWARE_RESET, &params);
        proof {
            assert(params@ =~= seq![]);
        }
        self
    }

    /// Sends register 0xCB (power control A) with its datasheet parameters. Leaves D/CX high and the last byte sent on
    /// the data lines.
    pub fn power_control_b(&mut self) -> (ret: &mut Self)
        requires
            old(self).wf(),
        ensures
            ret.wf(),
            sends(*old(self), *ret, power_control_b_words()),
            ret.dc_level() == true,
            ret.last_byte() == 0x02u8,
            *final(self) == *final(ret),
    {
        let params: [u8; 5] = [0x39u8, 0x2Cu8, 0x00u8, 0x34u8, 0x02u8];
        self.send(POWER_CONTROL_A, &params);
        proof {
            assert(params@ =~= seq![0x39u8, 0x2Cu8, 0x00u8, 0x34u8, 0x02u8]);
        }
        self
    }

    /// Sends register 0xCF (power control B) with its parameters. Leaves D/CX high and the last byte sent on
    /// the data lines.
    pub fn power_control_a(&mut self) -> (ret: &mut Self)
        requires
            old(self).wf(),
        ensures
            ret.wf(),
            sends(*old(self), *ret, power_control_a_words()),
            ret.dc_level() == true,
            ret.last_byte() == 0x30u8,
            *final(self) == *final(ret),
    {
        let params: [u8; 3] = [0x00u8, 0xC1u8, 0x30u8];
        self.send(POWER_CONTROL_B, &params);
        proof {
            assert(params@ =~= seq![0x00u8, 0xC1u8, 0x30u8]);
        }
        self
    }

    /// Sends driver timing control A (0xE9): non-overlap timing. Leaves D/CX high and the last byte sent on
    /// the data lines.
    pub fn driver_timing_control_a(&mut self) -> (ret: &mut Self)
        requires
            old(self).wf(),
        ensures
            ret.wf(),
            sends(*old(self), *ret, driver_timing_control_a_words()),
            ret.dc_level() == true,
            ret.last_byte() == 0x78u8,
            *final(self) == *final(ret),
    {
        let params: [u8; 3] = [0x84u8, 0x00u8, 0x78u8];
        self.send(DRIVER_TIMING_CONTROL_A_2, &params);
        proof {
            assert(params@ =~= seq![0x84u8, 0x00u8, 0x78u8]);
        }
        self
    }

    /// Sends driver timing control B (0xEA). Leaves D/CX high and the last byte sent on
    /// the data lines.
    pub fn driver_timing_control_b(&mut self) -> (ret: &mut Self)
        requires
            old(self).wf(),
        ensures
            ret.wf(),
            sends(*old(self), *ret, driver_timing_control_b_words()),
            ret.dc_level() == true,
            ret.last_byte() == 0x00u8,
            *final(self) == *final(ret),
    {
        let params: [u8; 2] = [0x00u8, 0x00u8];
        self.send(DRIVER_TIMING_CONTROL_B, &params);
        proof {
            assert(params@ =~= seq![0x00u8, 0x00u8]);
        }
        self
    }

    /// Sends the power-on sequence control (0xED). Leaves D/CX high and the last byte sent on
    /// the data lines.
    pub fn power_on_sequence_control(&mut self) -> (ret: &mut Self)
        requires
            old(self).wf(),
        ensures
            ret.wf(),
            sends(*old(self), *ret, power_on_sequence_control_words()),
            ret.dc_level() == true,
            ret.last_byte() == 0x81u8,
            *final(self) == *final(ret),
    {
        let params: [u8; 4] = [0x64u8, 0x03u8, 0x12u8, 0x81u8];
        self.send(POWER_ON_SEQUENCE_CONTROL, &params);
        proof {
            assert(params@ =~= seq![0x64u8, 0x03u8, 0x12u8, 0x81u8]);
        }
        self
    }

    /// Sends the pump ratio control (0xF7). Leaves D/CX high and the last byte sent on
    /// the data lines.
    pub fn pump_ratio_control(&mut self) -> (ret: &mut Self)
        requires
            old(self).wf(),
        ensures
            ret.wf(),
            sends(*old(self), *ret, pump_ratio_control_words()),
            ret.dc_level() == true,
            ret.last_byte() == 0x20u8,
            *final(self) == *final(ret),
    {
        let params: [u8; 1] = [0x20u8];
        self.send(PUMP_RATIO_CONTROL, &params);
        proof {
            assert(params@ =~= seq![0x20u8]);
        }
        self
    }

    /// Sends power control 1 (0xC0). Leaves D/CX high and the last byte sent on
    /// the data lines.
    pub fn power_control_1(&mut self) -> (ret: &mut Self)
        requires
            old(self).wf(),
        ensures
            ret.wf(),
            sends(*old(self), *ret, power_control_1_words()),
            ret.dc_level() == true,
            ret.last_byte() == 0x23u8,
            *final(self) == *final(ret),
    {
        let params: [u8; 1] = [0x23u8];
        self.send(POWER_CONTROL_1, &params);
        proof {
            assert(params@ =~= seq![0x23u8]);
        }
        self
    }

    /// Sends power control 2 (0xC1). Leaves D/CX high and the last byte sent on
    /// the data lines.
    pub fn power_control_2(&mut self) -> (ret: &mut Self)
        requires
            old(self).wf(),
        ensures
            ret.wf(),
            sends(*old(self), *ret, power_control_2_words()),
            ret.dc_level() == true,
            ret.last_byte() == 0x10u8,
            *final(self) == *final(ret),
    {
        let params: [u8; 1] = [0x10u8];
        self.send(POWER_CONTROL_2, &params);
        proof {
            assert(params@ =~= seq![0x10u8]);
        }
        self
    }

    /// Sends VCOM control 1 (0xC5). Leaves D/CX high and the last byte sent on
    /// the data lines.
    pub fn vcom_control_1(&mut self) -> (ret: &mut Self)
        requires
            old(self).wf(),
        ensures
            ret.wf(),
            sends(*old(self), *ret, vcom_control_1_words()),
            ret.dc_level() == true,
            ret.last_byte() == 0x28u8,
            *final(self) == *final(ret),
    {
        let params: [u8; 2] = [0x3Eu8, 0x28u8];
        self.send(VCOM_CONTROL_1, &params);
        proof {
            assert(params@ =~= seq![0x3Eu8, 0x28u8]);
        }
        self
    }

    /// Sends the positive gamma correction curve (0xE0). Leaves D/CX high and the last byte sent on
    /// the data lines.
    pub fn positive_gamma_correction(&mut self) -> (ret: &mut Self)
        requires
            old(self).wf(),
        ensures
            ret.wf(),
            sends(*old(self), *ret, positive_gamma_correction_words()),
            ret.dc_level() == true,
            ret.last_byte() == 0x00u8,
            *final(self) == *final(ret),
    {
        let params: [u8; 15] = [0x0Fu8, 0x31u8, 0x2Bu8, 0x0Cu8, 0x0Eu8, 0x08u8, 0x4Eu8, 0xF1u8, 0x37u8, 0x07u8, 0x10u8, 0x03u8, 0x0Eu8, 0x09u8, 0x00u8];
        self.send(POSITIVE_GAMMA_CORRECTION, &params);
        proof {
            assert(params@ =~= seq![0x0Fu8, 0x31u8, 0x2Bu8, 0x0Cu8, 0x0Eu8, 0x08u8, 0x4Eu8, 0xF1u8, 0x37u8, 0x07u8, 0x10u8, 0x03u8, 0x0Eu8, 0x09u8, 0x00u8]);
        }
        self
    }

    /// Sends the negative gamma correction curve (0xE1). Leaves D/CX high and the last byte sent on
    /// the data lines.
    pub fn negative_gamma_correction(&mut self) -> (ret: &mut Self)
        requires
            old(self).wf(),
        ensures
            ret.wf(),
            sends(*old(self), *ret, negative_gamma_correction_words()),
            ret.dc_level() == true,
            ret.last_byte() == 0x0Fu8,
            *final(self) == *final(ret),
    {
        let params: [u8; 15] = [0x00u8, 0x0Eu8, 0x14u8, 0x03u8, 0x11u8, 0x07u8, 0x31u8, 0xC1u8, 0x48u8, 0x08u8, 0x0Fu8, 0x0Cu8, 0x31u8, 0x36u8, 0x0Fu8];
        self.send(NEGATIVE_GAMMA_CORRECTION, &params);
        proof {
            assert(params@ =~= seq![0x00u8, 0x0Eu8, 0x14u8, 0x03u8, 0x11u8, 0x07u8, 0x31u8, 0xC1u8, 0x48u8, 0x08u8, 0x0Fu8, 0x0Cu8, 0x31u8, 0x36u8, 0x0Fu8]);
        }
        self
    }

    /// Sends VCOM control 2 (0xC7). Leaves D/CX high and the last byte sent on
    /// the data lines.
    pub fn vcom_control_2(&mut self) -> (ret: &mut Self)
        requires
            old(self).wf(),
        ensures
            ret.wf(),
            sends(*old(self), *ret, vcom_control_2_words()),
            ret.dc_level() == true,
            ret.last_byte() == 0x86u8,
            *final(self) == *final(ret),
    {
        let params: [u8; 1] = [0x86u8];
        self.send(VCOM_CONTROL_2, &params);
        proof {
            assert(params@ =~= seq![0x86u8]);
        }
        self
    }

    /// Sets the memory access control (0x36): landscape orientation. Leaves D/CX high and the last byte sent on
    /// the data lines.
    pub fn memory_access_control(&mut self) -> (ret: &mut Self)
        requires
            old(self).wf(),
        ensures
            ret.wf(),
            sends(*old(self), *ret, memory_access_control_words()),
            ret.dc_level() == true,
            ret.last_byte() == 0x38u8,
            *final(self) == *final(ret),
    {
        let params: [u8; 1] = [0x38u8];
        self.send(MEMORY_ACCESS_CONTROL, &params);
        proof {
            assert(params@ =~= seq![0x38u8]);
        }
        self
    }

    /// Selects 16 bits per pixel (0x3A). Leaves D/CX high and the last byte sent on
    /// the data lines.
    pub fn colmod_pixel_format_set(&mut self) -> (ret: &mut Self)
        requires
            old(self).wf(),
        ensures
            ret.wf(),
            sends(*old(self), *ret, colmod_pixel_format_set_words()),
            ret.dc_level() == true,
            ret.last_byte() == 0x55u8,
            *final(self) == *final(ret),
    {
        let params: [u8; 1] = [0x55u8];
        self.send(COLMOD_PIXEL_FORMAT_SET, &params);
        proof {
            assert(params@ =~= seq![0x55u8]);
        }
        self
    }

    /// Sets the frame rate for normal mode (0xB1). Leaves D/CX high and the last byte sent on
    /// the data lines.
    pub fn frame_rate_control(&mut self) -> (ret: &mut Self)
        requires
            old(self).wf(),
        ensures
            ret.wf(),
            sends(*old(self), *ret, frame_rate_control_words()),
            ret.dc_level() == true,
            ret.last_byte() == 0x18u8,
            *final(self) == *final(ret),
    {
        let params: [u8; 2] = [0x00u8, 0x18u8];
        self.send(FRAME_RATE_CONTROL_NORMAL_MODE_FULL_COLORS, &params);
        proof {
            assert(params@ =~= seq![0x00u8, 0x18u8]);
        }
        self
    }

    /// Sends the display function control (0xB6). Leaves D/CX high and the last byte sent on
    /// the data lines.
    pub fn display_function_control(&mut self) -> (ret: &mut Self)
        requires
            old(self).wf(),
        ensures
            ret.wf(),
            sends(*old(self), *ret, display_function_control_words()),
            ret.dc_level() == true,
            ret.last_byte() == 0x27u8,
            *final(self) == *final(ret),
    {
        let params: [u8; 3] = [0x08u8, 0x82u8, 0x27u8];
        self.send(DISPLAY_FUNCTION_CONTROL, &params);
        proof {
            assert(params@ =~= seq![0x08u8, 0x82u8, 0x27u8]);
        }
        self
    }

    /// Disables the 3-gamma function (0xF2). Leaves D/CX high and the last byte sent on
    /// the data lines.
    pub fn enable_3g(&mut self) -> (ret: &mut Self)
        requires
            old(self).wf(),
        ensures
            ret.wf(),
            sends(*old(self), *ret, enable_3g_words()),
            ret.dc_level() == true,
            ret.last_byte() == 0x00u8,
            *final(self) == *final(ret),
    {
        let params: [u8; 1] = [0x00u8];
        self.send(ENABLE_3G, &params);
        proof {
            assert(params@ =~= seq![0x00u8]);
        }
        self
    }

    /// Selects gamma curve 1 (0x26). Leaves D/CX high and the last byte sent on
    /// the data lines.
    pub fn gamma_set(&mut self) -> (ret: &mut Self)
        requires
            old(self).wf(),
        ensures
            ret.wf(),
            sends(*old(self), *ret, gamma_set_words()),
            ret.dc_level() == true,
            ret.last_byte() == 0x01u8,
            *final(self) == *final(ret),
    {
        let params: [u8; 1] = [0x01u8];
        self.send(GAMMA_SET, &params);
        proof {
            assert(params@ =~= seq![0x01u8]);
        }
        self
    }

    /// Sets the frame rate for normal mode, full colours (0xB1). Leaves D/CX high and the last byte sent on
    /// the data lines.
    pub fn frame_rate_control_normal_mode_full_colors(&mut self) -> (ret: &mut Self)
        requires
            old(self).wf(),
        ensures
            ret.wf(),
            sends(*old(self), *ret, frame_rate_control_normal_mode_full_colors_words()),
            ret.dc_level() == true,
            ret.last_byte() == 0x18u8,
            *final(self) == *final(ret),
    {
        let params: [u8; 2] = [0x00u8, 0x18u8];
        self.send(FRAME_RATE_CONTROL_NORMAL_MODE_FULL_COLORS, &params);
        proof {
            assert(params@ =~= seq![0x00u8, 0x18u8]);
        }
        self
    }
}

} // verus!
