use ass_code::color::MyColor;

#[test]
fn from_u16_splits_bytes() {
    assert_eq!(MyColor::from(0x1234u16), MyColor(0x12, 0x34));
    assert_eq!(MyColor::from(0xFFFFu16), MyColor(0xFF, 0xFF));
    assert_eq!(MyColor::from(0u16), MyColor(0, 0));
}

#[test]
fn from_rgb_packs() {
    assert_eq!(MyColor::from_rgb(0x1F, 0x3F, 0x1F), MyColor(0xFF, 0xFF));
    assert_eq!(MyColor::from_rgb(0x0F, 0x1F, 0x0F), MyColor(0x7B, 0xEF));
    assert_eq!(MyColor::from_rgb(0, 0, 0), MyColor(0, 0));
    assert_eq!(MyColor::from_rgb(1, 0, 0), MyColor(0x08, 0));
    assert_eq!(MyColor::from_rgb(0, 1, 0), MyColor(0, 0x20));
    assert_eq!(MyColor::from_rgb(0, 0, 1), MyColor(0, 0x01));
    // bits shifted past the top of a byte are dropped
    assert_eq!(MyColor::from_rgb(0xFF, 0, 0), MyColor(0xF8, 0));
}
