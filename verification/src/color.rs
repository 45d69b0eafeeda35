use vstd::prelude::*;

verus! {

/// A 16-bit colour, stored as the two bytes sent to the display:
/// high byte first, then low byte.
#[derive(Clone, Copy, PartialEq, Eq, Structural, Debug)]
pub struct MyColor(pub u8, pub u8);

/// The 16-bit word that a colour stands for on the display bus.
pub open spec fn color_word(c: MyColor) -> nat {
    c.0 as nat * 256 + c.1 as nat
}

impl MyColor {
    /// Packs 5-bit red, 6-bit green and 5-bit blue into the two RGB565
    /// bytes: the high byte is `r` shifted left by three, or-ed with the top
    /// three bits of `g` (`g >> 3`); the low byte is `g` shifted left by five,
    /// or-ed with `b`. Bits shifted past the eighth are dropped.
    pub fn from_rgb(r: u8, g: u8, b: u8) -> (c: Self)
        ensures
            c.0 == (((r as nat * 8) % 256) as u8 | (g / 8)),
            c.1 == (((g as nat * 32) % 256) as u8 | b),
            r < 32 && g < 64 && b < 32 ==> color_word(c) == r as nat * 2048 + g as nat * 32 + b as nat,
    {
        let hi: u8 = r << 3u8;
        let lo: u8 = g << 5u8;
        assert(hi == ((r as nat * 8) % 256) as u8) by (bit_vector)
            requires hi == r << 3u8;
        assert(lo == ((g as nat * 32) % 256) as u8) by (bit_vector)
            requires lo == g << 5u8;
        assert(g >> 3u8 == g / 8) by (bit_vector);
        let hi2: u8 = hi | (g >> 3u8);
        let lo2: u8 = lo | b;
        assert(r < 32 && g < 64 && b < 32 ==> (hi2 as u32) * 256 + (lo2 as u32) == (r as u32)
            * 2048 + (g as u32) * 32 + (b as u32)) by (bit_vector)
            requires
                hi2 == (r << 3u8) | (g >> 3u8),
                lo2 == (g << 5u8) | b,
        ;
        let c = MyColor(hi2, lo2);
        c
    }
}

impl From<u16> for MyColor {
    /// Splits a 16-bit colour word into its high and low byte.
    fn from(value: u16) -> (c: Self) {
        let hi: u8 = #[verifier::truncate] ((value >> 8u16) as u8);
        let lo: u8 = #[verifier::truncate] (value as u8);
        assert(hi == value / 256 && lo == value % 256) by (bit_vector)
            requires
                hi == #[verifier::truncate] ((value >> 8u16) as u8),
                lo == #[verifier::truncate] (value as u8),
        ;
        MyColor(hi, lo)
    }
}

impl vstd::std_specs::convert::FromSpecImpl<u16> for MyColor {
    open spec fn obeys_from_spec() -> bool {
        true
    }

    open spec fn from_spec(value: u16) -> MyColor {
        MyColor((value / 256) as u8, (value % 256) as u8)
    }
}

/// Splitting a 16-bit word into colour bytes loses nothing: the bytes
/// recombine to the word.
pub proof fn lemma_color_word_roundtrip(value: u16)
    ensures
        color_word(<MyColor as vstd::std_specs::convert::FromSpec<u16>>::from_spec(value))
            == value,
{
}

} // verus!
