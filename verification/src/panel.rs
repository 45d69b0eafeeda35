//! What the ILI9341 controller does with the words it latches: a model of its
//! command decoder, its column and page windows and its frame memory writes.
//!
//! The laws here state, through this model and in terms of the inputs alone,
//! what the driver's words make the panel do: which registers a command
//! sets, which window a window command selects, and where each colour that a
//! drawing call sends lands on the screen.
use vstd::prelude::*;

use crate::color::MyColor;
use crate::ili9341::{
    addr_hi, addr_lo, bottom_right_of, cmd, color_words, command_words, cursor, data, draw_words,
    fill_words, pixel_words, sends, window_words, Area, BusWord, Pixel, ILI9341,
};

verus! {

/// The controller as the driver's words leave it.
pub struct Panel {
    /// The command whose parameters are being received.
    pub command: Option<u8>,
    /// The parameters received since that command.
    pub params: Seq<u8>,
    /// For each command received, the parameters that followed it last.
    pub regs: Map<u8, Seq<u8>>,
    /// The column window: first and last column.
    pub columns: (int, int),
    /// The page window: first and last row.
    pub pages: (int, int),
    /// Where the next pixel of a memory write goes: column, row.
    pub at: (int, int),
    /// The pixels written to frame memory, in order: column, row, colour.
    pub written: Seq<(int, int, MyColor)>,
}

/// A 16-bit coordinate sent high byte first.
pub open spec fn coord(hi: u8, lo: u8) -> int {
    hi as int * 256 + lo as int
}

/// The controller after latching one word.
///
/// A command starts a new parameter list; `0x2C` (memory write) also moves
/// the write position to the top-left corner of the windows. A parameter is
/// appended to the list of the current command. The fourth parameter of
/// `0x2A` (column address set) or `0x2B` (page address set) sets that window
/// from two big-endian coordinates. Each second parameter of a memory write
/// completes a colour, high byte first, which is written at the write
/// position; the position then moves one column right, or back to the first
/// column of the next row after the last column of the window.
pub open spec fn panel_step(p: Panel, w: BusWord) -> Panel {
    if !w.is_data {
        Panel {
            command: Some(w.byte),
            params: Seq::empty(),
            regs: p.regs.insert(w.byte, Seq::empty()),
            columns: p.columns,
            pages: p.pages,
            at: if w.byte == 0x2Cu8 { (p.columns.0, p.pages.0) } else { p.at },
            written: p.written,
        }
    } else {
        match p.command {
            None => p,
            Some(c) => {
                let ps = p.params.push(w.byte);
                let regs = p.regs.insert(c, ps);
                if c == 0x2Au8 && ps.len() == 4 {
                    Panel {
                        command: p.command,
                        params: ps,
                        regs,
                        columns: (coord(ps[0], ps[1]), coord(ps[2], ps[3])),
                        pages: p.pages,
                        at: p.at,
                        written: p.written,
                    }
                } else if c == 0x2Bu8 && ps.len() == 4 {
                    Panel {
                        command: p.command,
                        params: ps,
                        regs,
                        columns: p.columns,
                        pages: (coord(ps[0], ps[1]), coord(ps[2], ps[3])),
                        at: p.at,
                        written: p.written,
                    }
                } else if c == 0x2Cu8 && ps.len() % 2 == 0 {
                    Panel {
                        command: p.command,
                        params: ps,
                        regs,
                        columns: p.columns,
                        pages: p.pages,
                        at: if p.at.0 >= p.columns.1 {
                            (p.columns.0, p.at.1 + 1)
                        } else {
                            (p.at.0 + 1, p.at.1)
                        },
                        written: p.written.push((p.at.0, p.at.1, MyColor(ps[ps.len() - 2], w.byte))),
                    }
                } else {
                    Panel {
                        command: p.command,
                        params: ps,
                        regs,
                        columns: p.columns,
                        pages: p.pages,
                        at: p.at,
                        written: p.written,
                    }
                }
            },
        }
    }
}

/// The controller after latching the words `ws` in order.
pub open spec fn panel_run(p: Panel, ws: Seq<BusWord>) -> Panel
    decreases ws.len(),
{
    if ws.len() == 0 {
        p
    } else {
        panel_step(panel_run(p, ws.drop_last()), ws.last())
    }
}

/// Latching `a` and then `b` is latching `a + b`.
pub proof fn lemma_panel_run_append(p: Panel, a: Seq<BusWord>, b: Seq<BusWord>)
    ensures
        panel_run(p, a + b) == panel_run(panel_run(p, a), b),
    decreases b.len(),
{
    if b.len() == 0 {
        assert(a + b =~= a);
    } else {
        assert((a + b).drop_last() =~= a + b.drop_last());
        assert((a + b).last() == b.last());
        lemma_panel_run_append(p, a, b.drop_last());
    }
}

proof fn lemma_panel_run_one(p: Panel, w: BusWord)
    ensures
        panel_run(p, seq![w]) == panel_step(p, w),
{
    assert(seq![w].drop_last() =~= Seq::<BusWord>::empty());
    assert(seq![w].last() == w);
    assert(panel_run(p, seq![w].drop_last()) == p);
}

proof fn lemma_command_words_split(c: u8, params: Seq<u8>)
    requires
        params.len() > 0,
    ensures
        command_words(c, params) == command_words(c, params.drop_last()) + seq![
            data(params.last()),
        ],
{
    assert(command_words(c, params) =~= command_words(c, params.drop_last()) + seq![
        data(params.last()),
    ]);
}

/// Any command other than a window or memory write: the controller records
/// the command with its parameters and keeps its windows, write position and
/// frame memory.
pub proof fn lemma_command_sets_register(p: Panel, c: u8, params: Seq<u8>)
    requires
        c != 0x2Au8,
        c != 0x2Bu8,
        c != 0x2Cu8,
    ensures
        panel_run(p, command_words(c, params)).command == Some(c),
        panel_run(p, command_words(c, params)).params == params,
        panel_run(p, command_words(c, params)).regs == p.regs.insert(c, params),
        panel_run(p, command_words(c, params)).columns == p.columns,
        panel_run(p, command_words(c, params)).pages == p.pages,
        panel_run(p, command_words(c, params)).at == p.at,
        panel_run(p, command_words(c, params)).written == p.written,
    decreases params.len(),
{
    if params.len() == 0 {
        assert(command_words(c, params) =~= seq![cmd(c)]);
        lemma_panel_run_one(p, cmd(c));
        assert(params =~= Seq::<u8>::empty());
    } else {
        lemma_command_words_split(c, params);
        lemma_command_sets_register(p, c, params.drop_last());
        let r = panel_run(p, command_words(c, params.drop_last()));
        lemma_panel_run_append(p, command_words(c, params.drop_last()), seq![data(params.last())]);
        lemma_panel_run_one(r, data(params.last()));
        assert(params.drop_last().push(params.last()) =~= params);
        assert(p.regs.insert(c, params.drop_last()).insert(c, params) =~= p.regs.insert(c, params));
    }
}

/// A column window command selects, as its window, the two coordinates it
/// is given (modulo 65536); the page window, the write position and the
/// frame memory stay as they were.
pub proof fn lemma_column_window(p: Panel, from: i32, to: i32)
    ensures
        panel_run(p, window_words(0x2Au8, from, to)).columns == (from as int % 65536, to as int % 65536),
        panel_run(p, window_words(0x2Au8, from, to)).pages == p.pages,
        panel_run(p, window_words(0x2Au8, from, to)).at == p.at,
        panel_run(p, window_words(0x2Au8, from, to)).written == p.written,
        panel_run(p, window_words(0x2Au8, from, to)).command == Some(0x2Au8),
{
    lemma_window_run(p, 0x2Au8, from, to);
}

/// A page window command selects, as its window, the two rows it is given
/// (modulo 65536); the column window, the write position and the frame
/// memory stay as they were.
pub proof fn lemma_page_window(p: Panel, from: i32, to: i32)
    ensures
        panel_run(p, window_words(0x2Bu8, from, to)).pages == (from as int % 65536, to as int % 65536),
        panel_run(p, window_words(0x2Bu8, from, to)).columns == p.columns,
        panel_run(p, window_words(0x2Bu8, from, to)).at == p.at,
        panel_run(p, window_words(0x2Bu8, from, to)).written == p.written,
        panel_run(p, window_words(0x2Bu8, from, to)).command == Some(0x2Bu8),
{
    lemma_window_run(p, 0x2Bu8, from, to);
}

proof fn lemma_window_run(p: Panel, c: u8, from: i32, to: i32)
    requires
        c == 0x2Au8 || c == 0x2Bu8,
    ensures
        ({
            let r = panel_run(p, window_words(c, from, to));
            &&& r.command == Some(c)
            &&& r.at == p.at
            &&& r.written == p.written
            &&& c == 0x2Au8 ==> r.columns == (from as int % 65536, to as int % 65536) && r.pages
                == p.pages
            &&& c == 0x2Bu8 ==> r.pages == (from as int % 65536, to as int % 65536) && r.columns
                == p.columns
        }),
{
    let b0 = addr_hi(from);
    let b1 = addr_lo(from);
    let b2 = addr_hi(to);
    let b3 = addr_lo(to);
    let ws = window_words(c, from, to);
    assert(ws =~= seq![cmd(c)] + seq![data(b0)] + seq![data(b1)] + seq![data(b2)] + seq![data(b3)]);
    let p1 = panel_step(p, cmd(c));
    let p2 = panel_step(p1, data(b0));
    let p3 = panel_step(p2, data(b1));
    let p4 = panel_step(p3, data(b2));
    let p5 = panel_step(p4, data(b3));
    lemma_panel_run_one(p, cmd(c));
    lemma_panel_run_append(p, seq![cmd(c)], seq![data(b0)]);
    lemma_panel_run_one(p1, data(b0));
    lemma_panel_run_append(p, seq![cmd(c)] + seq![data(b0)], seq![data(b1)]);
    lemma_panel_run_one(p2, data(b1));
    lemma_panel_run_append(p, seq![cmd(c)] + seq![data(b0)] + seq![data(b1)], seq![data(b2)]);
    lemma_panel_run_one(p3, data(b2));
    lemma_panel_run_append(
        p,
        seq![cmd(c)] + seq![data(b0)] + seq![data(b1)] + seq![data(b2)],
        seq![data(b3)],
    );
    lemma_panel_run_one(p4, data(b3));
    assert(p4.params =~= seq![b0, b1, b2]);
    assert(p4.params.push(b3) =~= seq![b0, b1, b2, b3]);
    lemma_coord_of_address(from);
    lemma_coord_of_address(to);
}

/// A memory write of one colour: the colour is written at the top-left
/// corner of the windows, which stay as they were.
pub proof fn lemma_memory_write_one(p: Panel, hi: u8, lo: u8)
    ensures
        panel_run(p, command_words(0x2Cu8, seq![hi, lo])).written == p.written.push(
            (p.columns.0, p.pages.0, MyColor(hi, lo)),
        ),
        panel_run(p, command_words(0x2Cu8, seq![hi, lo])).columns == p.columns,
        panel_run(p, command_words(0x2Cu8, seq![hi, lo])).pages == p.pages,
{
    let ws = command_words(0x2Cu8, seq![hi, lo]);
    assert(ws =~= seq![cmd(0x2Cu8)] + seq![data(hi)] + seq![data(lo)]);
    let p1 = panel_step(p, cmd(0x2Cu8));
    let p2 = panel_step(p1, data(hi));
    lemma_panel_run_one(p, cmd(0x2Cu8));
    lemma_panel_run_append(p, seq![cmd(0x2Cu8)], seq![data(hi)]);
    lemma_panel_run_one(p1, data(hi));
    lemma_panel_run_append(p, seq![cmd(0x2Cu8)] + seq![data(hi)], seq![data(lo)]);
    lemma_panel_run_one(p2, data(lo));
    assert(p2.params =~= seq![hi]);
    assert(p2.params.push(lo) =~= seq![hi, lo]);
}

proof fn lemma_pixel_lands(r: Panel, q: Pixel, at: Option<(i32, i32)>)
    requires
        at matches Some(c) ==> r.columns == (c.0 as int % 65536, c.0 as int % 65536) && r.pages
            == (c.1 as int % 65536, c.1 as int % 65536),
    ensures
        panel_run(r, pixel_words(q, at)).written == r.written.push(
            (q.x as int % 65536, q.y as int % 65536, q.color),
        ),
        panel_run(r, pixel_words(q, at)).columns == (q.x as int % 65536, q.x as int % 65536),
        panel_run(r, pixel_words(q, at)).pages == (q.y as int % 65536, q.y as int % 65536),
{
    let a: Seq<BusWord> = if crate::ili9341::column_stale(q.x, at) {
        window_words(0x2Au8, q.x, q.x)
    } else {
        seq![]
    };
    let b: Seq<BusWord> = if crate::ili9341::row_stale(q.y, at) {
        window_words(0x2Bu8, q.y, q.y)
    } else {
        seq![]
    };
    let c = command_words(0x2Cu8, seq![q.color.0, q.color.1]);
    assert(pixel_words(q, at) == a + b + c);
    lemma_panel_run_append(r, a + b, c);
    lemma_panel_run_append(r, a, b);
    let r1 = panel_run(r, a);
    if crate::ili9341::column_stale(q.x, at) {
        lemma_column_window(r, q.x, q.x);
    }
    let r2 = panel_run(r1, b);
    if crate::ili9341::row_stale(q.y, at) {
        lemma_page_window(r1, q.y, q.y);
    }
    lemma_memory_write_one(r2, q.color.0, q.color.1);
}

/// Drawing pixels: whatever the controller held before, every pixel of a
/// call is written to frame memory at its own column and row (as the
/// display reads 16-bit coordinates), with its own colour, in order; nothing
/// else is written.
pub proof fn lemma_draw_iter_places_pixels(p: Panel, px: Seq<Pixel>)
    ensures
        panel_run(p, draw_words(px)).written == p.written + px.map_values(
            |q: Pixel| (q.x as int % 65536, q.y as int % 65536, q.color),
        ),
        px.len() > 0 ==> panel_run(p, draw_words(px)).columns == (
            px.last().x as int % 65536,
            px.last().x as int % 65536,
        ),
        px.len() > 0 ==> panel_run(p, draw_words(px)).pages == (
            px.last().y as int % 65536,
            px.last().y as int % 65536,
        ),
    decreases px.len(),
{
    let f = |q: Pixel| (q.x as int % 65536, q.y as int % 65536, q.color);
    if px.len() == 0 {
        assert(p.written + px.map_values(f) =~= p.written);
    } else {
        let init = px.drop_last();
        lemma_draw_iter_places_pixels(p, init);
        let r = panel_run(p, draw_words(init));
        lemma_pixel_lands(r, px.last(), cursor(init));
        lemma_panel_run_append(p, draw_words(init), pixel_words(px.last(), cursor(init)));
        assert(px.map_values(f) =~= init.map_values(f).push(f(px.last())));
        assert(p.written + init.map_values(f).push(f(px.last())) =~= (p.written + init.map_values(f)).push(
            f(px.last()),
        ));
    }
}

proof fn lemma_advance(m: int, w: int)
    requires
        m >= 0,
        w > 0,
    ensures
        0 <= m % w < w,
        m % w == w - 1 ==> (m + 1) % w == 0 && (m + 1) / w == m / w + 1,
        m % w != w - 1 ==> (m + 1) % w == m % w + 1 && (m + 1) / w == m / w,
{
    vstd::arithmetic::div_mod::lemma_fundamental_div_mod(m, w);
    vstd::arithmetic::div_mod::lemma_mod_pos_bound(m, w);
    let q = m / w;
    let r = m % w;
    if r == w - 1 {
        assert(m + 1 == (q + 1) * w + 0) by (nonlinear_arith)
            requires
                m == w * q + r,
                r == w - 1,
        ;
        vstd::arithmetic::div_mod::lemma_fundamental_div_mod_converse(m + 1, w, q + 1, 0);
    } else {
        assert(m + 1 == q * w + (r + 1)) by (nonlinear_arith)
            requires
                m == w * q + r,
        ;
        vstd::arithmetic::div_mod::lemma_fundamental_div_mod_converse(m + 1, w, q, r + 1);
    }
}

proof fn lemma_colors_fill(r: Panel, cs: Seq<MyColor>, x0: int, y0: int, w: int, j: int)
    requires
        w > 0,
        j >= 0,
        r.command == Some(0x2Cu8),
        r.params.len() % 2 == 0,
        r.columns == (x0, x0 + w - 1),
        r.at == (x0 + j % w, y0 + j / w),
    ensures
        panel_run(r, color_words(cs)).written == r.written + Seq::new(
            cs.len(),
            |k: int| (x0 + (j + k) % w, y0 + (j + k) / w, cs[k]),
        ),
        panel_run(r, color_words(cs)).command == Some(0x2Cu8),
        panel_run(r, color_words(cs)).params.len() % 2 == 0,
        panel_run(r, color_words(cs)).columns == r.columns,
        panel_run(r, color_words(cs)).at == (x0 + (j + cs.len()) % w, y0 + (j + cs.len()) / w),
    decreases cs.len(),
{
    if cs.len() == 0 {
        assert(r.written + Seq::new(
            cs.len(),
            |k: int| (x0 + (j + k) % w, y0 + (j + k) / w, cs[k]),
        ) =~= r.written);
    } else {
        let init = cs.drop_last();
        let c = cs.last();
        lemma_colors_fill(r, init, x0, y0, w, j);
        let t = panel_run(r, color_words(init));
        let m = j + init.len();
        lemma_advance(m, w);
        lemma_panel_run_append(r, color_words(init), seq![data(c.0)] + seq![data(c.1)]);
        lemma_panel_run_append(t, seq![data(c.0)], seq![data(c.1)]);
        lemma_panel_run_one(t, data(c.0));
        let t1 = panel_step(t, data(c.0));
        lemma_panel_run_one(t1, data(c.1));
        assert(color_words(cs) == color_words(init) + (seq![data(c.0)] + seq![data(c.1)])) by {
            assert(color_words(init) + seq![data(c.0), data(c.1)] =~= color_words(init) + (seq![
                data(c.0),
            ] + seq![data(c.1)]));
        }
        let t2 = panel_step(t1, data(c.1));
        assert(t1.params.len() == t.params.len() + 1);
        assert(t2.written == t.written.push((t.at.0, t.at.1, MyColor(c.0, c.1))));
        let f = |k: int| (x0 + (j + k) % w, y0 + (j + k) / w, cs[k]);
        let g = |k: int| (x0 + (j + k) % w, y0 + (j + k) / w, init[k]);
        assert(Seq::new(cs.len(), f) =~= Seq::new(init.len(), g).push(f(init.len() as int)));
        assert(r.written + Seq::new(cs.len(), f) =~= (r.written + Seq::new(init.len(), g)).push(
            f(init.len() as int),
        ));
    }
}

/// Filling a rectangle: whatever the controller held before, the colours
/// are written to frame memory in order, row by row from the top-left corner
/// of the rectangle, `width` to a row, and as many of them as the rectangle
/// has pixels, or all of them if there are fewer; nothing else is written.
/// (The display addresses 16-bit coordinates, so a non-empty rectangle must
/// lie between 0 and 65535 in both directions.)
#[verifier::spinoff_prover]
pub proof fn lemma_fill_contiguous_fills_area(p: Panel, a: Area, cs: Seq<MyColor>)
    requires
        a.width > 0 && a.height > 0 ==> 0 <= a.x && a.x + a.width <= 65536 && 0 <= a.y && a.y
            + a.height <= 65536,
    ensures
        ({
            let pixels = a.width as int * a.height as int;
            let n = if cs.len() < pixels { cs.len() as int } else { pixels };
            panel_run(p, fill_words(a, cs)).written == p.written + Seq::new(
                n as nat,
                |k: int| (a.x + k % (a.width as int), a.y + k / (a.width as int), cs[k]),
            )
        }),
{
    let pixels = a.width as int * a.height as int;
    let n = if cs.len() < pixels { cs.len() as int } else { pixels };
    let taken = cs.take(n);
    let head = fill_head(a);
    assert(fill_words(a, cs) == head + color_words(taken));
    lemma_panel_run_append(p, head, color_words(taken));
    let r3 = panel_run(p, head);
    lemma_fill_head(p, a);
    let f = |k: int| (a.x + k % (a.width as int), a.y + k / (a.width as int), cs[k]);
    if a.width > 0 && a.height > 0 {
        let w = a.width as int;
        assert(r3.at == (a.x + 0int % w, a.y + 0int / w));
        lemma_colors_fill(r3, taken, a.x as int, a.y as int, w, 0);
        assert(Seq::new(
            taken.len(),
            |k: int| (a.x + (0 + k) % w, a.y + (0 + k) / w, taken[k]),
        ) =~= Seq::new(n as nat, f));
    } else {
        assert(pixels == 0) by (nonlinear_arith)
            requires
                pixels == a.width as int * a.height as int,
                !(a.width > 0 && a.height > 0),
        ;
        assert(taken =~= Seq::<MyColor>::empty());
        assert(color_words(taken) =~= Seq::<BusWord>::empty());
        assert(p.written + Seq::new(n as nat, f) =~= p.written);
    }
}

/// A draw call on the driver: once its queued writes are performed, the
/// controller holds, after whatever the earlier writes left in frame memory,
/// each pixel at its own column and row with its own colour, in order.
pub proof fn lemma_draw_iter_on_display(
    before: ILI9341,
    after: ILI9341,
    px: Seq<Pixel>,
    p: Panel,
)
    requires
        sends(before, after, draw_words(px)),
    ensures
        panel_run(p, after.words()).written == panel_run(p, before.words()).written + px.map_values(
            |q: Pixel| (q.x as int % 65536, q.y as int % 65536, q.color),
        ),
{
    lemma_panel_run_append(p, before.words(), draw_words(px));
    lemma_draw_iter_places_pixels(panel_run(p, before.words()), px);
}

/// A fill call on the driver: once its queued writes are performed, the
/// controller holds, after whatever the earlier writes left in frame memory,
/// the colours row by row over the rectangle, as many as it has pixels or
/// all of them if there are fewer.
pub proof fn lemma_fill_contiguous_on_display(
    before: ILI9341,
    after: ILI9341,
    a: Area,
    cs: Seq<MyColor>,
    p: Panel,
)
    requires
        sends(before, after, fill_words(a, cs)),
        a.width > 0 && a.height > 0 ==> 0 <= a.x && a.x + a.width <= 65536 && 0 <= a.y && a.y
            + a.height <= 65536,
    ensures
        ({
            let pixels = a.width as int * a.height as int;
            let n = if cs.len() < pixels { cs.len() as int } else { pixels };
            panel_run(p, after.words()).written == panel_run(p, before.words()).written + Seq::new(
                n as nat,
                |k: int| (a.x + k % (a.width as int), a.y + k / (a.width as int), cs[k]),
            )
        }),
{
    lemma_panel_run_append(p, before.words(), fill_words(a, cs));
    lemma_fill_contiguous_fills_area(panel_run(p, before.words()), a, cs);
}

spec fn fill_head(a: Area) -> Seq<BusWord> {
    let (x2, y2) = match bottom_right_of(a) {
        Some(c) => c,
        None => (a.x, a.y),
    };
    window_words(0x2Au8, a.x, x2) + window_words(0x2Bu8, a.y, y2) + seq![cmd(0x2Cu8)]
}

proof fn lemma_fill_head(p: Panel, a: Area)
    requires
        a.width > 0 && a.height > 0 ==> 0 <= a.x && a.x + a.width <= 65536 && 0 <= a.y && a.y
            + a.height <= 65536,
    ensures
        panel_run(p, fill_head(a)).written == p.written,
        panel_run(p, fill_head(a)).command == Some(0x2Cu8),
        panel_run(p, fill_head(a)).params.len() == 0,
        a.width > 0 && a.height > 0 ==> panel_run(p, fill_head(a)).columns == (
            a.x as int,
            a.x + a.width - 1,
        ),
        a.width > 0 && a.height > 0 ==> panel_run(p, fill_head(a)).at == (a.x as int, a.y as int),
{
    let (x2, y2) = match bottom_right_of(a) {
        Some(c) => c,
        None => (a.x, a.y),
    };
    let w1 = window_words(0x2Au8, a.x, x2);
    let w2 = window_words(0x2Bu8, a.y, y2);
    lemma_panel_run_append(p, w1 + w2, seq![cmd(0x2Cu8)]);
    lemma_panel_run_append(p, w1, w2);
    lemma_column_window(p, a.x, x2);
    let r1 = panel_run(p, w1);
    lemma_page_window(r1, a.y, y2);
    let r2 = panel_run(r1, w2);
    lemma_panel_run_one(r2, cmd(0x2Cu8));
}

/// Each configuration command sets exactly one controller register: the one
/// named by its command code, to exactly its parameters. It selects no
/// window and writes no pixel. The codes and parameters are those of the
/// ILI9341 data sheet that this driver programs (for example memory access
/// control `0x36` with `0x38`, landscape; pixel format `0x3A` with `0x55`,
/// 16 bits per pixel; display on `0x29`).
#[verifier::spinoff_prover]
pub proof fn lemma_commands_set_registers(p: Panel)
    ensures
        panel_run(p, crate::ili9341::software_reset_words()).regs == p.regs.insert(0x01u8, Seq::<u8>::empty()),
        panel_run(p, crate::ili9341::software_reset_words()).written == p.written,
        panel_run(p, crate::ili9341::power_control_a_words()).regs == p.regs.insert(0xCFu8, seq![0x00u8, 0xC1u8, 0x30u8]),
        panel_run(p, crate::ili9341::power_control_a_words()).written == p.written,
        panel_run(p, crate::ili9341::power_control_b_words()).regs == p.regs.insert(0xCBu8, seq![0x39u8, 0x2Cu8, 0x00u8, 0x34u8, 0x02u8]),
        panel_run(p, crate::ili9341::power_control_b_words()).written == p.written,
        panel_run(p, crate::ili9341::driver_timing_control_a_words()).regs == p.regs.insert(0xE9u8, seq![0x84u8, 0x00u8, 0x78u8]),
        panel_run(p, crate::ili9341::driver_timing_control_a_words()).written == p.written,
        panel_run(p, crate::ili9341::driver_timing_control_b_words()).regs == p.regs.insert(0xEAu8, seq![0x00u8, 0x00u8]),
        panel_run(p, crate::ili9341::driver_timing_control_b_words()).written == p.written,
        panel_run(p, crate::ili9341::power_on_sequence_control_words()).regs == p.regs.insert(0xEDu8, seq![0x64u8, 0x03u8, 0x12u8, 0x81u8]),
        panel_run(p, crate::ili9341::power_on_sequence_control_words()).written == p.written,
        panel_run(p, crate::ili9341::pump_ratio_control_words()).regs == p.regs.insert(0xF7u8, seq![0x20u8]),
        panel_run(p, crate::ili9341::pump_ratio_control_words()).written == p.written,
        panel_run(p, crate::ili9341::power_control_1_words()).regs == p.regs.insert(0xC0u8, seq![0x23u8]),
        panel_run(p, crate::ili9341::power_control_1_words()).written == p.written,
        panel_run(p, crate::ili9341::power_control_2_words()).regs == p.regs.insert(0xC1u8, seq![0x10u8]),
        panel_run(p, crate::ili9341::power_control_2_words()).written == p.written,
        panel_run(p, crate::ili9341::vcom_control_1_words()).regs == p.regs.insert(0xC5u8, seq![0x3Eu8, 0x28u8]),
        panel_run(p, crate::ili9341::vcom_control_1_words()).written == p.written,
        panel_run(p, crate::ili9341::vcom_control_2_words()).regs == p.regs.insert(0xC7u8, seq![0x86u8]),
        panel_run(p, crate::ili9341::vcom_control_2_words()).written == p.written,
        panel_run(p, crate::ili9341::memory_access_control_words()).regs == p.regs.insert(0x36u8, seq![0x38u8]),
        panel_run(p, crate::ili9341::memory_access_control_words()).written == p.written,
        panel_run(p, crate::ili9341::colmod_pixel_format_set_words()).regs == p.regs.insert(0x3Au8, seq![0x55u8]),
        panel_run(p, crate::ili9341::colmod_pixel_format_set_words()).written == p.written,
        panel_run(p, crate::ili9341::frame_rate_control_normal_mode_full_colors_words()).regs == p.regs.insert(0xB1u8, seq![0x00u8, 0x18u8]),
        panel_run(p, crate::ili9341::frame_rate_control_normal_mode_full_colors_words()).written == p.written,
        panel_run(p, crate::ili9341::display_function_control_words()).regs == p.regs.insert(0xB6u8, seq![0x08u8, 0x82u8, 0x27u8]),
        panel_run(p, crate::ili9341::display_function_control_words()).written == p.written,
        panel_run(p, crate::ili9341::enable_3g_words()).regs == p.regs.insert(0xF2u8, seq![0x00u8]),
        panel_run(p, crate::ili9341::enable_3g_words()).written == p.written,
        panel_run(p, crate::ili9341::gamma_set_words()).regs == p.regs.insert(0x26u8, seq![0x01u8]),
        panel_run(p, crate::ili9341::gamma_set_words()).written == p.written,
        panel_run(p, crate::ili9341::positive_gamma_correction_words()).regs == p.regs.insert(0xE0u8, seq![0x0Fu8, 0x31u8, 0x2Bu8, 0x0Cu8, 0x0Eu8, 0x08u8, 0x4Eu8, 0xF1u8, 0x37u8, 0x07u8, 0x10u8, 0x03u8, 0x0Eu8, 0x09u8, 0x00u8]),
        panel_run(p, crate::ili9341::positive_gamma_correction_words()).written == p.written,
        panel_run(p, crate::ili9341::sleep_out_words()).regs == p.regs.insert(0x11u8, Seq::<u8>::empty()),
        panel_run(p, crate::ili9341::sleep_out_words()).written == p.written,
        panel_run(p, crate::ili9341::display_on_words()).regs == p.regs.insert(0x29u8, Seq::<u8>::empty()),
        panel_run(p, crate::ili9341::display_on_words()).written == p.written,
        panel_run(p, crate::ili9341::display_off_words()).regs == p.regs.insert(0x28u8, Seq::<u8>::empty()),
        panel_run(p, crate::ili9341::display_off_words()).written == p.written,
        panel_run(p, crate::ili9341::display_inversion_on_words()).regs == p.regs.insert(0x21u8, Seq::<u8>::empty()),
        panel_run(p, crate::ili9341::display_inversion_on_words()).written == p.written,
        panel_run(p, crate::ili9341::display_inversion_off_words()).regs == p.regs.insert(0x20u8, Seq::<u8>::empty()),
        panel_run(p, crate::ili9341::display_inversion_off_words()).written == p.written,
        panel_run(p, crate::ili9341::enter_sleep_mode_words()).regs == p.regs.insert(0x10u8, Seq::<u8>::empty()),
        panel_run(p, crate::ili9341::enter_sleep_mode_words()).written == p.written,
        panel_run(p, crate::ili9341::negative_gamma_correction_words()).regs == p.regs.insert(0xE1u8, seq![0x00u8, 0x0Eu8, 0x14u8, 0x03u8, 0x11u8, 0x07u8, 0x31u8, 0xC1u8, 0x48u8, 0x08u8, 0x0Fu8, 0x0Cu8, 0x31u8, 0x36u8, 0x0Fu8]),
        panel_run(p, crate::ili9341::negative_gamma_correction_words()).written == p.written,
        panel_run(p, crate::ili9341::frame_rate_control_words()).regs == p.regs.insert(0xB1u8, seq![0x00u8, 0x18u8]),
        panel_run(p, crate::ili9341::frame_rate_control_words()).written == p.written,
{
    lemma_words_set_register(p, crate::ili9341::software_reset_words(), 0x01u8, Seq::<u8>::empty());
    lemma_words_set_register(p, crate::ili9341::power_control_a_words(), 0xCFu8, seq![0x00u8, 0xC1u8, 0x30u8]);
    lemma_words_set_register(p, crate::ili9341::power_control_b_words(), 0xCBu8, seq![0x39u8, 0x2Cu8, 0x00u8, 0x34u8, 0x02u8]);
    lemma_words_set_register(p, crate::ili9341::driver_timing_control_a_words(), 0xE9u8, seq![0x84u8, 0x00u8, 0x78u8]);
    lemma_words_set_register(p, crate::ili9341::driver_timing_control_b_words(), 0xEAu8, seq![0x00u8, 0x00u8]);
    lemma_words_set_register(p, crate::ili9341::power_on_sequence_control_words(), 0xEDu8, seq![0x64u8, 0x03u8, 0x12u8, 0x81u8]);
    lemma_words_set_register(p, crate::ili9341::pump_ratio_control_words(), 0xF7u8, seq![0x20u8]);
    lemma_words_set_register(p, crate::ili9341::power_control_1_words(), 0xC0u8, seq![0x23u8]);
    lemma_words_set_register(p, crate::ili9341::power_control_2_words(), 0xC1u8, seq![0x10u8]);
    lemma_words_set_register(p, crate::ili9341::vcom_control_1_words(), 0xC5u8, seq![0x3Eu8, 0x28u8]);
    lemma_words_set_register(p, crate::ili9341::vcom_control_2_words(), 0xC7u8, seq![0x86u8]);
    lemma_words_set_register(p, crate::ili9341::memory_access_control_words(), 0x36u8, seq![0x38u8]);
    lemma_words_set_register(p, crate::ili9341::colmod_pixel_format_set_words(), 0x3Au8, seq![0x55u8]);
    lemma_words_set_register(p, crate::ili9341::frame_rate_control_normal_mode_full_colors_words(), 0xB1u8, seq![0x00u8, 0x18u8]);
    lemma_words_set_register(p, crate::ili9341::display_function_control_words(), 0xB6u8, seq![0x08u8, 0x82u8, 0x27u8]);
    lemma_words_set_register(p, crate::ili9341::enable_3g_words(), 0xF2u8, seq![0x00u8]);
    lemma_words_set_register(p, crate::ili9341::gamma_set_words(), 0x26u8, seq![0x01u8]);
    lemma_words_set_register(p, crate::ili9341::positive_gamma_correction_words(), 0xE0u8, seq![0x0Fu8, 0x31u8, 0x2Bu8, 0x0Cu8, 0x0Eu8, 0x08u8, 0x4Eu8, 0xF1u8, 0x37u8, 0x07u8, 0x10u8, 0x03u8, 0x0Eu8, 0x09u8, 0x00u8]);
    lemma_words_set_register(p, crate::ili9341::sleep_out_words(), 0x11u8, Seq::<u8>::empty());
    lemma_words_set_register(p, crate::ili9341::display_on_words(), 0x29u8, Seq::<u8>::empty());
    lemma_words_set_register(p, crate::ili9341::display_off_words(), 0x28u8, Seq::<u8>::empty());
    lemma_words_set_register(p, crate::ili9341::display_inversion_on_words(), 0x21u8, Seq::<u8>::empty());
    lemma_words_set_register(p, crate::ili9341::display_inversion_off_words(), 0x20u8, Seq::<u8>::empty());
    lemma_words_set_register(p, crate::ili9341::enter_sleep_mode_words(), 0x10u8, Seq::<u8>::empty());
    lemma_words_set_register(p, crate::ili9341::negative_gamma_correction_words(), 0xE1u8, seq![0x00u8, 0x0Eu8, 0x14u8, 0x03u8, 0x11u8, 0x07u8, 0x31u8, 0xC1u8, 0x48u8, 0x08u8, 0x0Fu8, 0x0Cu8, 0x31u8, 0x36u8, 0x0Fu8]);
    lemma_words_set_register(p, crate::ili9341::frame_rate_control_words(), 0xB1u8, seq![0x00u8, 0x18u8]);
}

/// What [`crate::ili9341::ILI9341::new`] leaves in the controller: whatever
/// it held before, the power, timing, gamma and panel registers hold the
/// values this driver programs (among them landscape orientation `0x38` in
/// memory access control `0x36` and 16-bit pixels `0x55` in the pixel
/// format `0x3A`), the panel is out of sleep and switched on, and no pixel
/// has been written.
#[verifier::spinoff_prover]
pub proof fn lemma_new_configures_panel(p: Panel)
    ensures
        panel_run(p, crate::ili9341::init_words() + crate::ili9341::display_on_words()).regs[0x01u8] == Seq::<u8>::empty(),
        panel_run(p, crate::ili9341::init_words() + crate::ili9341::display_on_words()).regs[0xCFu8] == seq![0x00u8, 0xC1u8, 0x30u8],
        panel_run(p, crate::ili9341::init_words() + crate::ili9341::display_on_words()).regs[0xCBu8] == seq![0x39u8, 0x2Cu8, 0x00u8, 0x34u8, 0x02u8],
        panel_run(p, crate::ili9341::init_words() + crate::ili9341::display_on_words()).regs[0xE9u8] == seq![0x84u8, 0x00u8, 0x78u8],
        panel_run(p, crate::ili9341::init_words() + crate::ili9341::display_on_words()).regs[0xEAu8] == seq![0x00u8, 0x00u8],
        panel_run(p, crate::ili9341::init_words() + crate::ili9341::display_on_words()).regs[0xEDu8] == seq![0x64u8, 0x03u8, 0x12u8, 0x81u8],
        panel_run(p, crate::ili9341::init_words() + crate::ili9341::display_on_words()).regs[0xF7u8] == seq![0x20u8],
        panel_run(p, crate::ili9341::init_words() + crate::ili9341::display_on_words()).regs[0xC0u8] == seq![0x23u8],
        panel_run(p, crate::ili9341::init_words() + crate::ili9341::display_on_words()).regs[0xC1u8] == seq![0x10u8],
        panel_run(p, crate::ili9341::init_words() + crate::ili9341::display_on_words()).regs[0xC5u8] == seq![0x3Eu8, 0x28u8],
        panel_run(p, crate::ili9341::init_words() + crate::ili9341::display_on_words()).regs[0xC7u8] == seq![0x86u8],
        panel_run(p, crate::ili9341::init_words() + crate::ili9341::display_on_words()).regs[0x36u8] == seq![0x38u8],
        panel_run(p, crate::ili9341::init_words() + crate::ili9341::display_on_words()).regs[0x3Au8] == seq![0x55u8],
        panel_run(p, crate::ili9341::init_words() + crate::ili9341::display_on_words()).regs[0xB1u8] == seq![0x00u8, 0x18u8],
        panel_run(p, crate::ili9341::init_words() + crate::ili9341::display_on_words()).regs[0xB6u8] == seq![0x08u8, 0x82u8, 0x27u8],
        panel_run(p, crate::ili9341::init_words() + crate::ili9341::display_on_words()).regs[0xF2u8] == seq![0x00u8],
        panel_run(p, crate::ili9341::init_words() + crate::ili9341::display_on_words()).regs[0x26u8] == seq![0x01u8],
        panel_run(p, crate::ili9341::init_words() + crate::ili9341::display_on_words()).regs[0xE0u8] == seq![0x0Fu8, 0x31u8, 0x2Bu8, 0x0Cu8, 0x0Eu8, 0x08u8, 0x4Eu8, 0xF1u8, 0x37u8, 0x07u8, 0x10u8, 0x03u8, 0x0Eu8, 0x09u8, 0x00u8],
        panel_run(p, crate::ili9341::init_words() + crate::ili9341::display_on_words()).regs[0x11u8] == Seq::<u8>::empty(),
        panel_run(p, crate::ili9341::init_words() + crate::ili9341::display_on_words()).regs[0x29u8] == Seq::<u8>::empty(),
        panel_run(p, crate::ili9341::init_words() + crate::ili9341::display_on_words()).written == p.written,
{
    let ws = crate::ili9341::init_words() + crate::ili9341::display_on_words();
    assert(ws =~= crate::ili9341::software_reset_words()
        + crate::ili9341::power_control_a_words()
        + crate::ili9341::power_control_b_words()
        + crate::ili9341::driver_timing_control_a_words()
        + crate::ili9341::driver_timing_control_b_words()
        + crate::ili9341::power_on_sequence_control_words()
        + crate::ili9341::pump_ratio_control_words()
        + crate::ili9341::power_control_1_words()
        + crate::ili9341::power_control_2_words()
        + crate::ili9341::vcom_control_1_words()
        + crate::ili9341::vcom_control_2_words()
        + crate::ili9341::memory_access_control_words()
        + crate::ili9341::colmod_pixel_format_set_words()
        + crate::ili9341::frame_rate_control_normal_mode_full_colors_words()
        + crate::ili9341::display_function_control_words()
        + crate::ili9341::enable_3g_words()
        + crate::ili9341::gamma_set_words()
        + crate::ili9341::positive_gamma_correction_words()
        + crate::ili9341::sleep_out_words()
        + crate::ili9341::display_on_words());
    let mut pre: Seq<BusWord> = Seq::empty();
    let mut q = p;
    assert(panel_run(p, pre) == q);
    lemma_words_set_register(q, crate::ili9341::software_reset_words(), 0x01u8, Seq::<u8>::empty());
    lemma_panel_run_append(p, pre, crate::ili9341::software_reset_words());
    pre = pre + crate::ili9341::software_reset_words();
    q = panel_run(q, crate::ili9341::software_reset_words());
    lemma_words_set_register(q, crate::ili9341::power_control_a_words(), 0xCFu8, seq![0x00u8, 0xC1u8, 0x30u8]);
    lemma_panel_run_append(p, pre, crate::ili9341::power_control_a_words());
    pre = pre + crate::ili9341::power_control_a_words();
    q = panel_run(q, crate::ili9341::power_control_a_words());
    lemma_words_set_register(q, crate::ili9341::power_control_b_words(), 0xCBu8, seq![0x39u8, 0x2Cu8, 0x00u8, 0x34u8, 0x02u8]);
    lemma_panel_run_append(p, pre, crate::ili9341::power_control_b_words());
    pre = pre + crate::ili9341::power_control_b_words();
    q = panel_run(q, crate::ili9341::power_control_b_words());
    lemma_words_set_register(q, crate::ili9341::driver_timing_control_a_words(), 0xE9u8, seq![0x84u8, 0x00u8, 0x78u8]);
    lemma_panel_run_append(p, pre, crate::ili9341::driver_timing_control_a_words());
    pre = pre + crate::ili9341::driver_timing_control_a_words();
    q = panel_run(q, crate::ili9341::driver_timing_control_a_words());
    lemma_words_set_register(q, crate::ili9341::driver_timing_control_b_words(), 0xEAu8, seq![0x00u8, 0x00u8]);
    lemma_panel_run_append(p, pre, crate::ili9341::driver_timing_control_b_words());
    pre = pre + crate::ili9341::driver_timing_control_b_words();
    q = panel_run(q, crate::ili9341::driver_timing_control_b_words());
    lemma_words_set_register(q, crate::ili9341::power_on_sequence_control_words(), 0xEDu8, seq![0x64u8, 0x03u8, 0x12u8, 0x81u8]);
    lemma_panel_run_append(p, pre, crate::ili9341::power_on_sequence_control_words());
    pre = pre + crate::ili9341::power_on_sequence_control_words();
    q = panel_run(q, crate::ili9341::power_on_sequence_control_words());
    lemma_words_set_register(q, crate::ili9341::pump_ratio_control_words(), 0xF7u8, seq![0x20u8]);
    lemma_panel_run_append(p, pre, crate::ili9341::pump_ratio_control_words());
    pre = pre + crate::ili9341::pump_ratio_control_words();
    q = panel_run(q, crate::ili9341::pump_ratio_control_words());
    lemma_words_set_register(q, crate::ili9341::power_control_1_words(), 0xC0u8, seq![0x23u8]);
    lemma_panel_run_append(p, pre, crate::ili9341::power_control_1_words());
    pre = pre + crate::ili9341::power_control_1_words();
    q = panel_run(q, crate::ili9341::power_control_1_words());
    lemma_words_set_register(q, crate::ili9341::power_control_2_words(), 0xC1u8, seq![0x10u8]);
    lemma_panel_run_append(p, pre, crate::ili9341::power_control_2_words());
    pre = pre + crate::ili9341::power_control_2_words();
    q = panel_run(q, crate::ili9341::power_control_2_words());
    lemma_words_set_register(q, crate::ili9341::vcom_control_1_words(), 0xC5u8, seq![0x3Eu8, 0x28u8]);
    lemma_panel_run_append(p, pre, crate::ili9341::vcom_control_1_words());
    pre = pre + crate::ili9341::vcom_control_1_words();
    q = panel_run(q, crate::ili9341::vcom_control_1_words());
    lemma_words_set_register(q, crate::ili9341::vcom_control_2_words(), 0xC7u8, seq![0x86u8]);
    lemma_panel_run_append(p, pre, crate::ili9341::vcom_control_2_words());
    pre = pre + crate::ili9341::vcom_control_2_words();
    q = panel_run(q, crate::ili9341::vcom_control_2_words());
    lemma_words_set_register(q, crate::ili9341::memory_access_control_words(), 0x36u8, seq![0x38u8]);
    lemma_panel_run_append(p, pre, crate::ili9341::memory_access_control_words());
    pre = pre + crate::ili9341::memory_access_control_words();
    q = panel_run(q, crate::ili9341::memory_access_control_words());
    lemma_words_set_register(q, crate::ili9341::colmod_pixel_format_set_words(), 0x3Au8, seq![0x55u8]);
    lemma_panel_run_append(p, pre, crate::ili9341::colmod_pixel_format_set_words());
    pre = pre + crate::ili9341::colmod_pixel_format_set_words();
    q = panel_run(q, crate::ili9341::colmod_pixel_format_set_words());
    lemma_words_set_register(q, crate::ili9341::frame_rate_control_normal_mode_full_colors_words(), 0xB1u8, seq![0x00u8, 0x18u8]);
    lemma_panel_run_append(p, pre, crate::ili9341::frame_rate_control_normal_mode_full_colors_words());
    pre = pre + crate::ili9341::frame_rate_control_normal_mode_full_colors_words();
    q = panel_run(q, crate::ili9341::frame_rate_control_normal_mode_full_colors_words());
    lemma_words_set_register(q, crate::ili9341::display_function_control_words(), 0xB6u8, seq![0x08u8, 0x82u8, 0x27u8]);
    lemma_panel_run_append(p, pre, crate::ili9341::display_function_control_words());
    pre = pre + crate::ili9341::display_function_control_words();
    q = panel_run(q, crate::ili9341::display_function_control_words());
    lemma_words_set_register(q, crate::ili9341::enable_3g_words(), 0xF2u8, seq![0x00u8]);
    lemma_panel_run_append(p, pre, crate::ili9341::enable_3g_words());
    pre = pre + crate::ili9341::enable_3g_words();
    q = panel_run(q, crate::ili9341::enable_3g_words());
    lemma_words_set_register(q, crate::ili9341::gamma_set_words(), 0x26u8, seq![0x01u8]);
    lemma_panel_run_append(p, pre, crate::ili9341::gamma_set_words());
    pre = pre + crate::ili9341::gamma_set_words();
    q = panel_run(q, crate::ili9341::gamma_set_words());
    lemma_words_set_register(q, crate::ili9341::positive_gamma_correction_words(), 0xE0u8, seq![0x0Fu8, 0x31u8, 0x2Bu8, 0x0Cu8, 0x0Eu8, 0x08u8, 0x4Eu8, 0xF1u8, 0x37u8, 0x07u8, 0x10u8, 0x03u8, 0x0Eu8, 0x09u8, 0x00u8]);
    lemma_panel_run_append(p, pre, crate::ili9341::positive_gamma_correction_words());
    pre = pre + crate::ili9341::positive_gamma_correction_words();
    q = panel_run(q, crate::ili9341::positive_gamma_correction_words());
    lemma_words_set_register(q, crate::ili9341::sleep_out_words(), 0x11u8, Seq::<u8>::empty());
    lemma_panel_run_append(p, pre, crate::ili9341::sleep_out_words());
    pre = pre + crate::ili9341::sleep_out_words();
    q = panel_run(q, crate::ili9341::sleep_out_words());
    lemma_words_set_register(q, crate::ili9341::display_on_words(), 0x29u8, Seq::<u8>::empty());
    lemma_panel_run_append(p, pre, crate::ili9341::display_on_words());
    pre = pre + crate::ili9341::display_on_words();
    q = panel_run(q, crate::ili9341::display_on_words());
    assert(pre =~= ws);
}

proof fn lemma_words_set_register(p: Panel, ws: Seq<BusWord>, c: u8, params: Seq<u8>)
    requires
        ws == command_words(c, params),
        c != 0x2Au8,
        c != 0x2Bu8,
        c != 0x2Cu8,
    ensures
        panel_run(p, ws).regs == p.regs.insert(c, params),
        panel_run(p, ws).written == p.written,
{
    lemma_command_sets_register(p, c, params);
}

/// The two address bytes of a coordinate read back, big-endian, as the
/// coordinate modulo 65536.
pub proof fn lemma_coord_of_address(v: i32)
    ensures
        coord(addr_hi(v), addr_lo(v)) == v as int % 65536,
{
    let x = v as int;
    let h = (x / 256) % 256;
    let l = x % 256;
    let q = x / 256;
    let q2 = q / 256;
    vstd::arithmetic::div_mod::lemma_fundamental_div_mod(x, 256);
    vstd::arithmetic::div_mod::lemma_fundamental_div_mod(q, 256);
    assert(0 <= h < 256 && 0 <= l < 256);
    assert(x == q2 * 65536 + (h * 256 + l)) by (nonlinear_arith)
        requires
            x == 256 * q + l,
            q == 256 * q2 + h,
    ;
    vstd::arithmetic::div_mod::lemma_fundamental_div_mod_converse(x, 65536, q2, h * 256 + l);
}

} // verus!
