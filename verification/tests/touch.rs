use ass_code::bus::I2cOp;
use ass_code::touchbreakout::TouchBreakout;
use ass_code::touchbreakout_cap::{ReadStep, Touch, TouchBreakoutCap, TouchEventFlag};

#[test]
fn touch_from_regs() {
    let t = Touch::from_regs(&[0x81, 0x23, 0x5A, 0xBC, 7, 9]);
    assert_eq!(t, Touch { x: 0x123, y: 0xABC, weight: 7, area: 9, id: 5, event_flag: 2 });
}

fn read_with(status: u8, p2: [u8; 6]) -> (Touch, Option<Touch>) {
    let ts = TouchBreakoutCap::new();
    let mut r = ts.read_points();
    let step = r.next(&[]);
    match step {
        ReadStep::Op(op) => {
            assert_eq!(op, I2cOp::WriteRead { address: 0x38, bytes: vec![0x03], read_len: 6 })
        }
        _ => panic!(),
    }
    let step = r.next(&[0x40, 0x10, 0x10, 0x20, 1, 2]);
    match step {
        ReadStep::Op(op) => {
            assert_eq!(op, I2cOp::WriteRead { address: 0x38, bytes: vec![0x02], read_len: 1 })
        }
        _ => panic!(),
    }
    match r.next(&[status]) {
        ReadStep::Finished(a, b) => (a, b),
        ReadStep::Op(op) => {
            assert_eq!(op, I2cOp::WriteRead { address: 0x38, bytes: vec![0x09], read_len: 6 });
            match r.next(&p2) {
                ReadStep::Finished(a, b) => (a, b),
                _ => panic!(),
            }
        }
    }
}

#[test]
fn read_points_one_touch() {
    let (a, b) = read_with(1, [0; 6]);
    assert_eq!((a.x, a.y, a.event_flag, a.id), (0x010, 0x020, 1, 1));
    assert!(b.is_none());
}

#[test]
fn read_points_two_touches() {
    let (a, b) = read_with(2, [0x02, 0x00, 0x13, 0x00, 0, 0]);
    assert_eq!(a.x, 0x010);
    let b = b.unwrap();
    assert_eq!((b.x, b.y, b.id), (0x200, 0x300, 1));
}

#[test]
fn resistive_coordinates() {
    let t = TouchBreakout::new(320, 240);
    let full = [4096u16; 10];
    assert_eq!(t.get_x(&full), 240);
    assert_eq!(t.get_y(&full), 0);
    let half = [2048u16; 10];
    assert_eq!(t.get_x(&half), 120);
    assert_eq!(t.get_y(&half), 160);
    assert_eq!(t.get_z(&[1, 2, 3, 4, 5, 6, 7, 8, 9, 10]), 5);
}

#[test]
fn resistive_negative_scale_rounds_toward_zero() {
    let t = TouchBreakout::new(-3, -3);
    assert_eq!(t.get_x(&[1u16; 10]), 0);
    assert_eq!(t.get_y(&[4096u16; 10]), 0);
}

#[test]
fn event_flags() {
    assert_eq!(TouchEventFlag::from_bits(0), TouchEventFlag::PressDown);
    assert_eq!(TouchEventFlag::from_bits(1), TouchEventFlag::LiftUp);
    assert_eq!(TouchEventFlag::from_bits(2), TouchEventFlag::Contact);
    assert_eq!(TouchEventFlag::from_bits(3), TouchEventFlag::NoEvent);
    let t = Touch::from_regs(&[0x80, 0, 0, 0, 0, 0]);
    assert_eq!(TouchEventFlag::from_bits(t.event_flag), TouchEventFlag::Contact);
}

#[test]
fn trail_corner_maps_touch_to_screen() {
    let t = Touch { x: 100, y: 40, weight: 0, area: 0, id: 0, event_flag: 0 };
    assert_eq!(t.trail_corner(), Some((275, 95)));
    let edge = Touch { x: 1, y: 0, weight: 0, area: 0, id: 0, event_flag: 0 };
    assert_eq!(edge.trail_corner(), Some((315, -4)));
    let far = Touch { x: 4095, y: 4095, weight: 0, area: 0, id: 0, event_flag: 0 };
    assert_eq!(far.trail_corner(), Some((-3780, 4090)));
}

#[test]
fn trail_corner_skips_touch_without_position() {
    let t = Touch { x: 0, y: 200, weight: 9, area: 1, id: 0, event_flag: 0 };
    assert_eq!(t.trail_corner(), None);
}
