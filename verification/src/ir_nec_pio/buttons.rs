//! Button codes of the PicoBricks remote and their names.
use vstd::prelude::*;

verus! {

pub const KEY_0: u8 = 0x19;
pub const KEY_1: u8 = 0x45;
pub const KEY_2: u8 = 0x46;
pub const KEY_3: u8 = 0x47;
pub const KEY_4: u8 = 0x44;
pub const KEY_5: u8 = 0x40;
pub const KEY_6: u8 = 0x43;
pub const KEY_7: u8 = 0x07;
pub const KEY_8: u8 = 0x15;
pub const KEY_9: u8 = 0x09;
pub const KEY_STAR: u8 = 0x16;
pub const KEY_HASH: u8 = 0x0D;
pub const KEY_UP: u8 = 0x18;
pub const KEY_DOWN: u8 = 0x52;
pub const KEY_LEFT: u8 = 0x08;
pub const KEY_RIGHT: u8 = 0x5A;
pub const KEY_OK: u8 = 0x1C;

/// The label of a command byte: the name of the key with that code, or
/// `UNKNOWN` for codes that are not on the PicoBricks remote.
pub open spec fn button_name(cmd: u8) -> Seq<char> {
    if cmd == KEY_0 {
        "KEY_0"@
    } else if cmd == KEY_1 {
        "KEY_1"@
    } else if cmd == KEY_2 {
        "KEY_2"@
    } else if cmd == KEY_3 {
        "KEY_3"@
    } else if cmd == KEY_4 {
        "KEY_4"@
    } else if cmd == KEY_5 {
        "KEY_5"@
    } else if cmd == KEY_6 {
        "KEY_6"@
    } else if cmd == KEY_7 {
        "KEY_7"@
    } else if cmd == KEY_8 {
        "KEY_8"@
    } else if cmd == KEY_9 {
        "KEY_9"@
    } else if cmd == KEY_STAR {
        "KEY_STAR"@
    } else if cmd == KEY_HASH {
        "KEY_HASH"@
    } else if cmd == KEY_UP {
        "KEY_UP"@
    } else if cmd == KEY_DOWN {
        "KEY_DOWN"@
    } else if cmd == KEY_LEFT {
        "KEY_LEFT"@
    } else if cmd == KEY_RIGHT {
        "KEY_RIGHT"@
    } else if cmd == KEY_OK {
        "KEY_OK"@
    } else {
        "UNKNOWN"@
    }
}

/// Returns the button label for a NEC command byte, or `"UNKNOWN"` for codes
/// not on the PicoBricks remote.
pub fn name_of(cmd: u8) -> (r: &'static str)
    ensures
        r@ == button_name(cmd),
{
    match cmd {
        0x19 => "KEY_0",
        0x45 => "KEY_1",
        0x46 => "KEY_2",
        0x47 => "KEY_3",
        0x44 => "KEY_4",
        0x40 => "KEY_5",
        0x43 => "KEY_6",
        0x07 => "KEY_7",
        0x15 => "KEY_8",
        0x09 => "KEY_9",
        0x16 => "KEY_STAR",
        0x0D => "KEY_HASH",
        0x18 => "KEY_UP",
        0x52 => "KEY_DOWN",
        0x08 => "KEY_LEFT",
        0x5A => "KEY_RIGHT",
        0x1C => "KEY_OK",
        _ => "UNKNOWN",
    }
}

} // verus!
