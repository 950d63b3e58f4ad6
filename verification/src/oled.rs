//! Text shown on the SSD1306 OLED for a decoded IR command: a header line
//! with the address and command bytes in hex, and the button's name.
use vstd::prelude::*;

use crate::ir_nec_pio::buttons::{button_name, name_of};
use crate::ir_nec_pio::IrCommand;

verus! {

/// Capacity of the display's header line buffer, in characters.
pub const HEADER_CAPACITY: usize = 20;

/// The upper-case hex digit for a value below 16.
pub open spec fn hex_digit(n: u8) -> char {
    if n < 10 {
        (48 + n) as char
    } else {
        (55 + n) as char
    }
}

/// A byte as two upper-case hex digits, e.g. 0x0D as `0D`.
pub open spec fn hex_byte(b: u8) -> Seq<char> {
    seq![hex_digit(b / 16), hex_digit(b % 16)]
}

/// The header line for a command: `IR: 0x` address ` 0x` command, e.g. `IR: 0x00 0x1C`.
pub open spec fn header_text(cmd: IrCommand) -> Seq<char> {
    "IR: 0x"@ + hex_byte(cmd.address) + " 0x"@ + hex_byte(cmd.command)
}

fn hex_digit_str(n: u8) -> (r: &'static str)
    requires
        n < 16,
    ensures
        r@ == seq![hex_digit(n)],
{
    proof {
        reveal_strlit("0");
        reveal_strlit("1");
        reveal_strlit("2");
        reveal_strlit("3");
        reveal_strlit("4");
        reveal_strlit("5");
        reveal_strlit("6");
        reveal_strlit("7");
        reveal_strlit("8");
        reveal_strlit("9");
        reveal_strlit("A");
        reveal_strlit("B");
        reveal_strlit("C");
        reveal_strlit("D");
        reveal_strlit("E");
        reveal_strlit("F");
    }
    match n {
        0 => "0",
        1 => "1",
        2 => "2",
        3 => "3",
        4 => "4",
        5 => "5",
        6 => "6",
        7 => "7",
        8 => "8",
        9 => "9",
        10 => "A",
        11 => "B",
        12 => "C",
        13 => "D",
        14 => "E",
        _ => "F",
    }
}

fn push_hex_byte(s: &mut String, b: u8)
    ensures
        final(s)@ == old(s)@ + hex_byte(b),
{
    s.append(hex_digit_str(b / 16));
    s.append(hex_digit_str(b % 16));
    assert(s@ =~= old(s)@ + hex_byte(b));
}

/// The header line for a command, e.g. `IR: 0x00 0x1C`. It is always 13
/// characters, so it fits the display's 20-character line buffer.
pub fn command_header(cmd: IrCommand) -> (r: String)
    ensures
        r@ == header_text(cmd),
        r@.len() == 13,
        r@.len() <= HEADER_CAPACITY,
{
    let mut s = String::new();
    s.append("IR: 0x");
    push_hex_byte(&mut s, cmd.address);
    s.append(" 0x");
    push_hex_byte(&mut s, cmd.command);
    proof {
        reveal_strlit("IR: 0x");
        reveal_strlit(" 0x");
        assert(s@ =~= header_text(cmd));
    }
    s
}

/// The two lines shown for a command: the header and the button's name.
pub fn command_lines(cmd: IrCommand) -> (r: (String, &'static str))
    ensures
        r.0@ == header_text(cmd),
        r.1@ == button_name(cmd.command),
{
    (command_header(cmd), name_of(cmd.command))
}

/// The value of an upper-case hexadecimal digit, or -1 for any other character.
pub open spec fn hex_value(ch: char) -> int {
    let v = ch as int;
    if 48 <= v <= 57 {
        v - 48
    } else if 65 <= v <= 70 {
        v - 55
    } else {
        -1
    }
}

proof fn lemma_hex_byte_reads_back(b: u8)
    ensures
        hex_byte(b).len() == 2,
        0 <= hex_value(hex_byte(b)[0]) < 16,
        0 <= hex_value(hex_byte(b)[1]) < 16,
        hex_value(hex_byte(b)[0]) * 16 + hex_value(hex_byte(b)[1]) == b,
{
    let hi = b / 16;
    let lo = b % 16;
    assert(hex_byte(b)[0] == hex_digit(hi));
    assert(hex_byte(b)[1] == hex_digit(lo));
    assert(hi < 16 && lo < 16);
    assert(hi as int * 16 + lo as int == b as int);
}

/// The header for a command is `IR: 0x`, two upper-case hex digits that read
/// back as the address, ` 0x`, and two upper-case hex digits that read back as
/// the command: 13 characters in all.
pub proof fn lemma_header_reads_back(cmd: IrCommand)
    ensures
        header_text(cmd).len() == 13,
        header_text(cmd).subrange(0, 6) == "IR: 0x"@,
        header_text(cmd).subrange(8, 11) == " 0x"@,
        0 <= hex_value(header_text(cmd)[6]) < 16,
        0 <= hex_value(header_text(cmd)[7]) < 16,
        hex_value(header_text(cmd)[6]) * 16 + hex_value(header_text(cmd)[7]) == cmd.address,
        0 <= hex_value(header_text(cmd)[11]) < 16,
        0 <= hex_value(header_text(cmd)[12]) < 16,
        hex_value(header_text(cmd)[11]) * 16 + hex_value(header_text(cmd)[12]) == cmd.command,
{
    reveal_strlit("IR: 0x");
    reveal_strlit(" 0x");
    lemma_hex_byte_reads_back(cmd.address);
    lemma_hex_byte_reads_back(cmd.command);
    let h = header_text(cmd);
    assert(h.subrange(0, 6) =~= "IR: 0x"@);
    assert(h.subrange(8, 11) =~= " 0x"@);
    assert(h[6] == hex_byte(cmd.address)[0]);
    assert(h[7] == hex_byte(cmd.address)[1]);
    assert(h[11] == hex_byte(cmd.command)[0]);
    assert(h[12] == hex_byte(cmd.command)[1]);
}

} // verus!
