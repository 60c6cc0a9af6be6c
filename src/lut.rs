//! Waveform lookup tables of the 4.2" controller.
use vstd::prelude::*;

verus! {

/// VCOM table of the full refresh.
pub const LUT_VCOM0: [u8; 44] = [
    0x00, 0x17, 0x00, 0x00, 0x00, 0x02,
    0x00, 0x17, 0x17, 0x00, 0x00, 0x02,
    0x00, 0x0A, 0x01, 0x00, 0x00, 0x01,
    0x00, 0x0E, 0x0E, 0x00, 0x00, 0x02,
    0x00, 0x00, 0x00, 0x00, 0x00, 0x00,
    0x00, 0x00, 0x00, 0x00, 0x00, 0x00,
    0x00, 0x00, 0x00, 0x00, 0x00, 0x00,
    0x00, 0x00,
];

/// White-to-white table of the full refresh.
pub const LUT_WW: [u8; 42] = [
    0x40, 0x17, 0x00, 0x00, 0x00, 0x02,
    0x90, 0x17, 0x17, 0x00, 0x00, 0x02,
    0x40, 0x0A, 0x01, 0x00, 0x00, 0x01,
    0xA0, 0x0E, 0x0E, 0x00, 0x00, 0x02,
    0x00, 0x00, 0x00, 0x00, 0x00, 0x00,
    0x00, 0x00, 0x00, 0x00, 0x00, 0x00,
    0x00, 0x00, 0x00, 0x00, 0x00, 0x00,
];

/// Black-to-white table of the full refresh.
pub const LUT_BW: [u8; 42] = [
    0x40, 0x17, 0x00, 0x00, 0x00, 0x02,
    0x90, 0x17, 0x17, 0x00, 0x00, 0x02,
    0x40, 0x0A, 0x01, 0x00, 0x00, 0x01,
    0xA0, 0x0E, 0x0E, 0x00, 0x00, 0x02,
    0x00, 0x00, 0x00, 0x00, 0x00, 0x00,
    0x00, 0x00, 0x00, 0x00, 0x00, 0x00,
    0x00, 0x00, 0x00, 0x00, 0x00, 0x00,
];

/// White-to-black table of the full refresh.
pub const LUT_WB: [u8; 42] = [
    0x80, 0x17, 0x00, 0x00, 0x00, 0x02,
    0x90, 0x17, 0x17, 0x00, 0x00, 0x02,
    0x80, 0x0A, 0x01, 0x00, 0x00, 0x01,
    0x50, 0x0E, 0x0E, 0x00, 0x00, 0x02,
    0x00, 0x00, 0x00, 0x00, 0x00, 0x00,
    0x00, 0x00, 0x00, 0x00, 0x00, 0x00,
    0x00, 0x00, 0x00, 0x00, 0x00, 0x00,
];

/// Black-to-black table of the full refresh.
pub const LUT_BB: [u8; 42] = [
    0x80, 0x17, 0x00, 0x00, 0x00, 0x02,
    0x90, 0x17, 0x17, 0x00, 0x00, 0x02,
    0x80, 0x0A, 0x01, 0x00, 0x00, 0x01,
    0x50, 0x0E, 0x0E, 0x00, 0x00, 0x02,
    0x00, 0x00, 0x00, 0x00, 0x00, 0x00,
    0x00, 0x00, 0x00, 0x00, 0x00, 0x00,
    0x00, 0x00, 0x00, 0x00, 0x00, 0x00,
];

/// VCOM table of the quick refresh.
pub const LUT_VCOM0_QUICK: [u8; 44] = [
    0x00, 0x0E, 0x00, 0x00, 0x00, 0x01,
    0x00, 0x00, 0x00, 0x00, 0x00, 0x00,
    0x00, 0x00, 0x00, 0x00, 0x00, 0x00,
    0x00, 0x00, 0x00, 0x00, 0x00, 0x00,
    0x00, 0x00, 0x00, 0x00, 0x00, 0x00,
    0x00, 0x00, 0x00, 0x00, 0x00, 0x00,
    0x00, 0x00, 0x00, 0x00, 0x00, 0x00,
    0x00, 0x00,
];

/// White-to-white table of the quick refresh.
pub const LUT_WW_QUICK: [u8; 42] = [
    0xA0, 0x0E, 0x00, 0x00, 0x00, 0x01,
    0x00, 0x00, 0x00, 0x00, 0x00, 0x00,
    0x00, 0x00, 0x00, 0x00, 0x00, 0x00,
    0x00, 0x00, 0x00, 0x00, 0x00, 0x00,
    0x00, 0x00, 0x00, 0x00, 0x00, 0x00,
    0x00, 0x00, 0x00, 0x00, 0x00, 0x00,
    0x00, 0x00, 0x00, 0x00, 0x00, 0x00,
];

/// Black-to-white table of the quick refresh.
pub const LUT_BW_QUICK: [u8; 42] = [
    0xA0, 0x0E, 0x00, 0x00, 0x00, 0x01,
    0x00, 0x00, 0x00, 0x00, 0x00, 0x00,
    0x00, 0x00, 0x00, 0x00, 0x00, 0x00,
    0x00, 0x00, 0x00, 0x00, 0x00, 0x00,
    0x00, 0x00, 0x00, 0x00, 0x00, 0x00,
    0x00, 0x00, 0x00, 0x00, 0x00, 0x00,
    0x00, 0x00, 0x00, 0x00, 0x00, 0x00,
];

/// White-to-black table of the quick refresh.
pub const LUT_WB_QUICK: [u8; 42] = [
    0x50, 0x0E, 0x00, 0x00, 0x00, 0x01,
    0x00, 0x00, 0x00, 0x00, 0x00, 0x00,
    0x00, 0x00, 0x00, 0x00, 0x00, 0x00,
    0x00, 0x00, 0x00, 0x00, 0x00, 0x00,
    0x00, 0x00, 0x00, 0x00, 0x00, 0x00,
    0x00, 0x00, 0x00, 0x00, 0x00, 0x00,
    0x00, 0x00, 0x00, 0x00, 0x00, 0x00,
];

/// Black-to-black table of the quick refresh.
pub const LUT_BB_QUICK: [u8; 42] = [
    0x50, 0x0E, 0x00, 0x00, 0x00, 0x01,
    0x00, 0x00, 0x00, 0x00, 0x00, 0x00,
    0x00, 0x00, 0x00, 0x00, 0x00, 0x00,
    0x00, 0x00, 0x00, 0x00, 0x00, 0x00,
    0x00, 0x00, 0x00, 0x00, 0x00, 0x00,
    0x00, 0x00, 0x00, 0x00, 0x00, 0x00,
    0x00, 0x00, 0x00, 0x00, 0x00, 0x00,
];

/// The waveform tables, by name.
#[derive(Copy, Clone, Debug, PartialEq, Eq, Structural)]
pub enum Lut {
    Vcom0,
    WhiteToWhite,
    BlackToWhite,
    WhiteToBlack,
    BlackToBlack,
    Vcom0Quick,
    WhiteToWhiteQuick,
    BlackToWhiteQuick,
    WhiteToBlackQuick,
    BlackToBlackQuick,
}

impl Lut {
    /// The bytes of the table.
    pub open spec fn spec_bytes(self) -> Seq<u8> {
        match self {
            Lut::Vcom0 => LUT_VCOM0@,
            Lut::WhiteToWhite => LUT_WW@,
            Lut::BlackToWhite => LUT_BW@,
            Lut::WhiteToBlack => LUT_WB@,
            Lut::BlackToBlack => LUT_BB@,
            Lut::Vcom0Quick => LUT_VCOM0_QUICK@,
            Lut::WhiteToWhiteQuick => LUT_WW_QUICK@,
            Lut::BlackToWhiteQuick => LUT_BW_QUICK@,
            Lut::WhiteToBlackQuick => LUT_WB_QUICK@,
            Lut::BlackToBlackQuick => LUT_BB_QUICK@,
        }
    }

    /// Returns the bytes of the table, as they are sent to the controller.
    pub fn bytes(self) -> (r: &'static [u8])
        ensures
            r@ == self.spec_bytes(),
    {
        match self {
            Lut::Vcom0 => &LUT_VCOM0,
            Lut::WhiteToWhite => &LUT_WW,
            Lut::BlackToWhite => &LUT_BW,
            Lut::WhiteToBlack => &LUT_WB,
            Lut::BlackToBlack => &LUT_BB,
            Lut::Vcom0Quick => &LUT_VCOM0_QUICK,
            Lut::WhiteToWhiteQuick => &LUT_WW_QUICK,
            Lut::BlackToWhiteQuick => &LUT_BW_QUICK,
            Lut::WhiteToBlackQuick => &LUT_WB_QUICK,
            Lut::BlackToBlackQuick => &LUT_BB_QUICK,
        }
    }
}

} // verus!
