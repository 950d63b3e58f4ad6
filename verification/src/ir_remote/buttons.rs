//! Placeholder button codes for the PicoBricks remote used with the polling
//! receiver; the codes measured with the PIO decoder are in `ir_nec_pio::buttons`.
use vstd::prelude::*;

verus! {

pub const KEY_0: u8 = 0x16;
pub const KEY_1: u8 = 0x0C;
pub const KEY_2: u8 = 0x18;
pub const KEY_3: u8 = 0x5E;
pub const KEY_4: u8 = 0x08;
pub const KEY_5: u8 = 0x1C;
pub const KEY_6: u8 = 0x5A;
pub const KEY_7: u8 = 0x42;
pub const KEY_8: u8 = 0x52;
pub const KEY_9: u8 = 0x4A;
pub const KEY_STAR: u8 = 0x40;
pub const KEY_HASH: u8 = 0x43;
pub const KEY_UP: u8 = 0x46;
pub const KEY_DOWN: u8 = 0x15;
pub const KEY_LEFT: u8 = 0x44;
pub const KEY_RIGHT: u8 = 0x07;
pub const KEY_OK: u8 = 0x47;

} // verus!
