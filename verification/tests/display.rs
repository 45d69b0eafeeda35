use ass_code::ili9341::{Area, BusWord, GpioOp, Pixel, ILI9341};
use ass_code::MyColor;

/// Replays register writes on a model of the OUT1 register and returns the
/// words latched on each rising edge of WRX while CSX is low.
fn replay(reg: &mut u32, ops: &[GpioOp]) -> Vec<(bool, u8)> {
    let mut out = Vec::new();
    for op in ops {
        let before = *reg;
        match *op {
            GpioOp::OutSet(m) => *reg |= m,
            GpioOp::OutClear(m) => *reg &= !m,
            _ => {}
        }
        let after = *reg;
        if before & 0x800 == 0 && after & 0x800 != 0 && after & 0x8000 == 0 {
            let byte = (((after >> 3) & 0xff) as u8).reverse_bits();
            out.push((after & 0x10000 != 0, byte));
        }
    }
    out
}

fn cmd(c: u8) -> (bool, u8) {
    (false, c)
}

fn dat(d: u8) -> (bool, u8) {
    (true, d)
}

fn ready() -> (ILI9341, u32) {
    let mut s = ILI9341::new();
    let ops = s.take_ops();
    let mut reg = 0u32;
    replay(&mut reg, &ops);
    (s, reg)
}

#[test]
fn new_sends_power_up_sequence() {
    let mut s = ILI9341::new();
    let ops = s.take_ops();
    assert_eq!(ops[0], GpioOp::EnableSet(0x19FF8));
    assert_eq!(ops[1], GpioOp::OutSet(0x19800));
    assert_eq!(ops[2], GpioOp::OutClear(0x8000));
    let pause = ops.iter().position(|o| *o == GpioOp::DelayMs(160)).unwrap();
    let mut reg = 0u32;
    let before = replay(&mut reg, &ops[..pause]);
    let after = replay(&mut reg, &ops[pause..]);
    assert_eq!(before[0], cmd(0x01));
    assert_eq!(&before[1..5], &[cmd(0xCF), dat(0x00), dat(0xC1), dat(0x30)]);
    assert_eq!(before.last().copied(), Some(cmd(0x11)));
    assert_eq!(after, vec![cmd(0x29)]);
    let total: usize = 1 + 4 + 6 + 4 + 3 + 5 + 2 + 2 + 2 + 3 + 2 + 2 + 2 + 3 + 4 + 2 + 2 + 16 + 1;
    assert_eq!(before.len(), total);
}

#[test]
fn display_on_latches_one_command() {
    let (mut s, mut reg) = ready();
    s.display_on();
    let ops = s.take_ops();
    assert_eq!(replay(&mut reg, &ops), vec![cmd(0x29)]);
}

#[test]
fn chained_commands_latch_in_order() {
    let (mut s, mut reg) = ready();
    s.display_off().display_inversion_on().display_inversion_off().enter_sleep_mode();
    let ops = s.take_ops();
    assert_eq!(replay(&mut reg, &ops), vec![cmd(0x28), cmd(0x21), cmd(0x20), cmd(0x10)]);
}

#[test]
fn command_with_parameters() {
    let (mut s, mut reg) = ready();
    s.power_control_b();
    let ops = s.take_ops();
    assert_eq!(
        replay(&mut reg, &ops),
        vec![cmd(0xCB), dat(0x39), dat(0x2C), dat(0x00), dat(0x34), dat(0x02)]
    );
}

#[test]
fn repeated_byte_only_strobes() {
    let (mut s, mut reg) = ready();
    s.driver_timing_control_b();
    let ops = s.take_ops();
    assert_eq!(replay(&mut reg, &ops), vec![cmd(0xEA), dat(0x00), dat(0x00)]);
    // the second 0x00 only toggles WRX: two writes
    assert_eq!(&ops[ops.len() - 2..], &[GpioOp::OutClear(0x800), GpioOp::OutSet(0x800)]);
}

#[test]
fn negative_gamma_curve() {
    let (mut s, mut reg) = ready();
    s.negative_gamma_correction();
    let ops = s.take_ops();
    let words = replay(&mut reg, &ops);
    assert_eq!(words.len(), 16);
    assert_eq!(words[0], cmd(0xE1));
    assert_eq!(words[8], dat(0xC1));
    assert_eq!(words[15], dat(0x0F));
}

#[test]
fn all_setup_commands_are_accepted() {
    let (mut s, mut reg) = ready();
    s.software_reset()
        .sleep_out()
        .power_control_a()
        .driver_timing_control_a()
        .power_on_sequence_control()
        .pump_ratio_control()
        .power_control_1()
        .power_control_2()
        .vcom_control_1()
        .positive_gamma_correction()
        .vcom_control_2()
        .memory_access_control()
        .colmod_pixel_format_set()
        .frame_rate_control()
        .display_function_control()
        .enable_3g()
        .gamma_set()
        .frame_rate_control_normal_mode_full_colors();
    let ops = s.take_ops();
    let words = replay(&mut reg, &ops);
    assert_eq!(words.len(), 1 + 1 + 4 + 4 + 5 + 2 + 2 + 2 + 3 + 16 + 2 + 2 + 2 + 3 + 4 + 2 + 2 + 3);
    assert_eq!(words[2], cmd(0xCF));
    assert_eq!(words[words.len() - 3], cmd(0xB1));
}

#[test]
fn draw_iter_resends_windows_only_on_change() {
    let (mut s, mut reg) = ready();
    let c = MyColor(0xAB, 0xCD);
    let pixels = vec![
        Pixel { x: 0, y: 5, color: c },
        Pixel { x: 0, y: 5, color: c },
        Pixel { x: 300, y: 5, color: c },
    ];
    assert_eq!(s.draw_iter(&pixels), Ok(()));
    let ops = s.take_ops();
    let expected = vec![
        cmd(0x2A), dat(0), dat(0), dat(0), dat(0),
        cmd(0x2B), dat(0), dat(5), dat(0), dat(5),
        cmd(0x2C), dat(0xAB), dat(0xCD),
        cmd(0x2C), dat(0xAB), dat(0xCD),
        cmd(0x2A), dat(0x01), dat(0x2C), dat(0x01), dat(0x2C),
        cmd(0x2C), dat(0xAB), dat(0xCD),
    ];
    assert_eq!(replay(&mut reg, &ops), expected);
}

#[test]
fn draw_iter_each_call_starts_with_both_windows() {
    let (mut s, mut reg) = ready();
    let c = MyColor(0x12, 0x34);
    assert_eq!(s.draw_iter(&vec![Pixel { x: 5, y: 5, color: c }]), Ok(()));
    let first = s.take_ops();
    assert_eq!(
        replay(&mut reg, &first),
        vec![
            cmd(0x2A), dat(0), dat(5), dat(0), dat(5),
            cmd(0x2B), dat(0), dat(5), dat(0), dat(5),
            cmd(0x2C), dat(0x12), dat(0x34),
        ]
    );
    assert_eq!(s.draw_iter(&vec![Pixel { x: 0, y: 0, color: c }]), Ok(()));
    let second = s.take_ops();
    assert_eq!(
        replay(&mut reg, &second),
        vec![
            cmd(0x2A), dat(0), dat(0), dat(0), dat(0),
            cmd(0x2B), dat(0), dat(0), dat(0), dat(0),
            cmd(0x2C), dat(0x12), dat(0x34),
        ]
    );
}

#[test]
fn fill_contiguous_sets_window_and_limits_colours() {
    let (mut s, mut reg) = ready();
    let area = Area { x: 10, y: 20, width: 2, height: 1 };
    let colors = vec![MyColor(1, 2), MyColor(3, 4), MyColor(5, 6)];
    assert_eq!(s.fill_contiguous(&area, &colors), Ok(()));
    let ops = s.take_ops();
    let expected = vec![
        cmd(0x2A), dat(0), dat(10), dat(0), dat(11),
        cmd(0x2B), dat(0), dat(20), dat(0), dat(20),
        cmd(0x2C), dat(1), dat(2), dat(3), dat(4),
    ];
    assert_eq!(replay(&mut reg, &ops), expected);
}

#[test]
fn fill_contiguous_empty_area() {
    let (mut s, mut reg) = ready();
    let area = Area { x: 7, y: 8, width: 0, height: 3 };
    let colors = vec![MyColor(1, 2)];
    assert_eq!(s.fill_contiguous(&area, &colors), Ok(()));
    let ops = s.take_ops();
    let expected = vec![
        cmd(0x2A), dat(0), dat(7), dat(0), dat(7),
        cmd(0x2B), dat(0), dat(8), dat(0), dat(8),
        cmd(0x2C),
    ];
    assert_eq!(replay(&mut reg, &ops), expected);
}

#[test]
fn take_ops_empties_queue() {
    let (mut s, _) = ready();
    assert!(s.take_ops().is_empty());
    s.display_on();
    assert!(!s.take_ops().is_empty());
    assert!(s.take_ops().is_empty());
}

#[test]
fn bounding_box_is_panel() {
    let (s, _) = ready();
    assert_eq!(s.bounding_box(), Area { x: 0, y: 0, width: 320, height: 240 });
}

#[test]
fn reverse_bits_matches_std() {
    for b in 0..=255u8 {
        assert_eq!(ass_code::ili9341::reverse_bits(b), b.reverse_bits());
    }
}

#[test]
fn bus_word_fields() {
    let w = BusWord { is_data: true, byte: 3 };
    assert!(w.is_data);
}

#[test]
fn state_after_new() {
    let mut s = ILI9341::new();
    let ops = s.take_ops();
    let mut reg = 0u32;
    replay(&mut reg, &ops);
    // D/CX low, 0x29 on the data lines, WRX and RDX high, CSX low
    assert_eq!(reg & 0x10000, 0);
    assert_eq!(reg & (0xff << 3), (0x29u8.reverse_bits() as u32) << 3);
    assert_eq!(reg & (0xff << 3), 0x4A0);
    assert_ne!(reg & 0x800, 0);
    assert_ne!(reg & 0x1000, 0);
    assert_eq!(reg & 0x8000, 0);
}

#[test]
fn repeated_command_only_strobes() {
    let (mut s, mut reg) = ready();
    s.display_on();
    let ops = s.take_ops();
    assert_eq!(ops, vec![GpioOp::OutClear(0x800), GpioOp::OutSet(0x800)]);
    assert_eq!(replay(&mut reg, &ops), vec![cmd(0x29)]);
}

#[test]
fn data_after_command_raises_dc_once() {
    let (mut s, _) = ready();
    s.pump_ratio_control();
    let ops = s.take_ops();
    let dc_sets: Vec<_> = ops.iter().filter(|o| **o == GpioOp::OutSet(0x10000)).collect();
    assert_eq!(dc_sets.len(), 1);
    assert!(!ops.contains(&GpioOp::OutClear(0x10000)));
}

#[test]
fn draw_iter_empty_queues_nothing() {
    let (mut s, _) = ready();
    assert_eq!(s.draw_iter(&Vec::new()), Ok(()));
    assert!(s.take_ops().is_empty());
}
