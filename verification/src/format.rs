//! Formatting of one NES controller input byte for display: either the
//! user-facing button row (bits are active low — 0 means pressed) or a
//! debug row with the index, the byte in hex and its bits.

use vstd::prelude::*;
use vstd::string::StrSliceExecFns;
use vstd::string::StringExecFns;

verus! {

/// The character of one decimal digit.
pub open spec fn dec_digit_char(d: int) -> char {
    if d == 0 {
        '0'
    } else if d == 1 {
        '1'
    } else if d == 2 {
        '2'
    } else if d == 3 {
        '3'
    } else if d == 4 {
        '4'
    } else if d == 5 {
        '5'
    } else if d == 6 {
        '6'
    } else if d == 7 {
        '7'
    } else if d == 8 {
        '8'
    } else {
        '9'
    }
}

/// The decimal notation of a non-negative number, most significant digit
/// first.
pub open spec fn dec_chars(n: int) -> Seq<char>
    recommends
        n >= 0,
    decreases n,
{
    if n < 10 {
        seq![dec_digit_char(n)]
    } else {
        dec_chars(n / 10).push(dec_digit_char(n % 10))
    }
}

/// The character of one hexadecimal digit, upper case.
pub open spec fn hex_digit_char(d: int) -> char {
    if d < 10 {
        dec_digit_char(d)
    } else if d == 10 {
        'A'
    } else if d == 11 {
        'B'
    } else if d == 12 {
        'C'
    } else if d == 13 {
        'D'
    } else if d == 14 {
        'E'
    } else {
        'F'
    }
}

/// A byte as two hexadecimal digits.
pub open spec fn hex_chars(b: u8) -> Seq<char> {
    seq![hex_digit_char(b as int / 16), hex_digit_char(b as int % 16)]
}

/// Bit `i` of a byte, as `'1'` or `'0'`.
pub open spec fn bit_char(b: u8, i: u8) -> char {
    if b & (1u8 << i) != 0 {
        '1'
    } else {
        '0'
    }
}

/// A byte as eight binary digits, most significant bit first.
pub open spec fn bin_chars(b: u8) -> Seq<char> {
    seq![
        bit_char(b, 7),
        bit_char(b, 6),
        bit_char(b, 5),
        bit_char(b, 4),
        bit_char(b, 3),
        bit_char(b, 2),
        bit_char(b, 1),
        bit_char(b, 0),
    ]
}

/// One button cell: the button's symbol when its bit is low (pressed), a
/// middle dot otherwise.
pub open spec fn button_char(b: u8, mask: u8, sym: char) -> char {
    if b & mask == 0 {
        sym
    } else {
        '·'
    }
}

/// The user-facing button row: up, down, left, right, A, B, select, start,
/// separated by spaces.
pub open spec fn nes_line(b: u8) -> Seq<char> {
    seq![
        button_char(b, 0x10, '↑'),
        ' ',
        button_char(b, 0x20, '↓'),
        ' ',
        button_char(b, 0x40, '←'),
        ' ',
        button_char(b, 0x80, '→'),
        ' ',
        button_char(b, 0x01, 'A'),
        ' ',
        button_char(b, 0x02, 'B'),
        ' ',
        button_char(b, 0x04, 'S'),
        ' ',
        button_char(b, 0x08, 'T'),
    ]
}

/// What `format_nes_input` prints: for missing data, a blank button row or
/// `[idx] Empty` in debug; otherwise the button row of the first byte, or
/// `[idx] 0xHH BBBBBBBB` in debug.
pub open spec fn spec_format_nes_input(data: Seq<u8>, idx: int, debug: bool) -> Seq<char> {
    if data.len() == 0 {
        if debug {
            seq!['['] + dec_chars(idx) + seq![']', ' ', 'E', 'm', 'p', 't', 'y']
        } else {
            nes_line(0xff)
        }
    } else {
        if debug {
            seq!['['] + dec_chars(idx) + seq![']', ' ', '0', 'x'] + hex_chars(data[0]) + seq![' ']
                + bin_chars(data[0])
        } else {
            nes_line(data[0])
        }
    }
}

/// One decimal digit as text.
fn dec_digit_str(d: usize) -> (r: &'static str)
    requires
        d <= 9,
    ensures
        r@ == seq![dec_digit_char(d as int)],
{
    match d {
        0 => {
            proof {
                reveal_strlit("0");
                assert("0"@ =~= seq![dec_digit_char(0)]);
            }
            "0"
        }
        1 => {
            proof {
                reveal_strlit("1");
                assert("1"@ =~= seq![dec_digit_char(1)]);
            }
            "1"
        }
        2 => {
            proof {
                reveal_strlit("2");
                assert("2"@ =~= seq![dec_digit_char(2)]);
            }
            "2"
        }
        3 => {
            proof {
                reveal_strlit("3");
                assert("3"@ =~= seq![dec_digit_char(3)]);
            }
            "3"
        }
        4 => {
            proof {
                reveal_strlit("4");
                assert("4"@ =~= seq![dec_digit_char(4)]);
            }
            "4"
        }
        5 => {
            proof {
                reveal_strlit("5");
                assert("5"@ =~= seq![dec_digit_char(5)]);
            }
            "5"
        }
        6 => {
            proof {
                reveal_strlit("6");
                assert("6"@ =~= seq![dec_digit_char(6)]);
            }
            "6"
        }
        7 => {
            proof {
                reveal_strlit("7");
                assert("7"@ =~= seq![dec_digit_char(7)]);
            }
            "7"
        }
        8 => {
            proof {
                reveal_strlit("8");
                assert("8"@ =~= seq![dec_digit_char(8)]);
            }
            "8"
        }
        _ => {
            proof {
                reveal_strlit("9");
                assert("9"@ =~= seq![dec_digit_char(9)]);
            }
            "9"
        }
    }
}

/// A number in decimal notation.
pub fn dec_string(n: usize) -> (r: String)
    ensures
        r@ == dec_chars(n as int),
    decreases n,
{
    if n < 10 {
        let mut s = String::new();
        s.append(dec_digit_str(n));
        proof {
            assert(s@ =~= dec_chars(n as int));
        }
        s
    } else {
        let mut s = dec_string(n / 10);
        s.append(dec_digit_str(n % 10));
        proof {
            assert(s@ =~= dec_chars(n as int));
        }
        s
    }
}

/// One hexadecimal digit as text, upper case.
fn hex_digit_str(d: usize) -> (r: &'static str)
    requires
        d <= 15,
    ensures
        r@ == seq![hex_digit_char(d as int)],
{
    if d <= 9 {
        dec_digit_str(d)
    } else {
        match d {
            10 => {
                proof {
                    reveal_strlit("A");
                    assert("A"@ =~= seq![hex_digit_char(10)]);
                }
                "A"
            }
            11 => {
                proof {
                    reveal_strlit("B");
                    assert("B"@ =~= seq![hex_digit_char(11)]);
                }
                "B"
            }
            12 => {
                proof {
                    reveal_strlit("C");
                    assert("C"@ =~= seq![hex_digit_char(12)]);
                }
                "C"
            }
            13 => {
                proof {
                    reveal_strlit("D");
                    assert("D"@ =~= seq![hex_digit_char(13)]);
                }
                "D"
            }
            14 => {
                proof {
                    reveal_strlit("E");
                    assert("E"@ =~= seq![hex_digit_char(14)]);
                }
                "E"
            }
            _ => {
                proof {
                    reveal_strlit("F");
                    assert("F"@ =~= seq![hex_digit_char(15)]);
                }
                "F"
            }
        }
    }
}

/// A byte as two hexadecimal digits.
pub fn hex_string(b: u8) -> (r: String)
    ensures
        r@ == hex_chars(b),
{
    let mut s = String::new();
    s.append(hex_digit_str((b / 16) as usize));
    s.append(hex_digit_str((b % 16) as usize));
    proof {
        assert(s@ =~= hex_chars(b));
    }
    s
}

/// Bit `i` of a byte as text.
fn bit_str(b: u8, i: u8) -> (r: &'static str)
    requires
        i <= 7,
    ensures
        r@ == seq![bit_char(b, i)],
{
    if b & (1u8 << i) != 0 {
        proof {
            reveal_strlit("1");
            assert("1"@ =~= seq![bit_char(b, i)]);
        }
        "1"
    } else {
        proof {
            reveal_strlit("0");
            assert("0"@ =~= seq![bit_char(b, i)]);
        }
        "0"
    }
}

/// A byte as eight binary digits, most significant bit first.
pub fn bin_string(b: u8) -> (r: String)
    ensures
        r@ == bin_chars(b),
{
    let mut s = String::new();
    s.append(bit_str(b, 7));
    s.append(bit_str(b, 6));
    s.append(bit_str(b, 5));
    s.append(bit_str(b, 4));
    s.append(bit_str(b, 3));
    s.append(bit_str(b, 2));
    s.append(bit_str(b, 1));
    s.append(bit_str(b, 0));
    proof {
        assert(s@ =~= bin_chars(b));
    }
    s
}

/// One button cell as text.
fn button_str(b: u8, mask: u8, pressed: &'static str, sym: char) -> (r: &'static str)
    requires
        pressed@ == seq![sym],
    ensures
        r@ == seq![button_char(b, mask, sym)],
{
    if b & mask == 0 {
        pressed
    } else {
        proof {
            reveal_strlit("·");
            assert("·"@ =~= seq![button_char(b, mask, sym)]);
        }
        "·"
    }
}

/// The user-facing button row of one input byte.
pub fn nes_line_string(b: u8) -> (r: String)
    ensures
        r@ == nes_line(b),
{
    proof {
        reveal_strlit("↑");
        reveal_strlit("↓");
        reveal_strlit("←");
        reveal_strlit("→");
        reveal_strlit("A");
        reveal_strlit("B");
        reveal_strlit("S");
        reveal_strlit("T");
        reveal_strlit(" ");
        assert("↑"@ =~= seq!['↑']);
        assert("↓"@ =~= seq!['↓']);
        assert("←"@ =~= seq!['←']);
        assert("→"@ =~= seq!['→']);
        assert("A"@ =~= seq!['A']);
        assert("B"@ =~= seq!['B']);
        assert("S"@ =~= seq!['S']);
        assert("T"@ =~= seq!['T']);
    }
    let mut s = String::new();
    s.append(button_str(b, 0x10, "↑", '↑'));
    s.append(" ");
    s.append(button_str(b, 0x20, "↓", '↓'));
    s.append(" ");
    s.append(button_str(b, 0x40, "←", '←'));
    s.append(" ");
    s.append(button_str(b, 0x80, "→", '→'));
    s.append(" ");
    s.append(button_str(b, 0x01, "A", 'A'));
    s.append(" ");
    s.append(button_str(b, 0x02, "B", 'B'));
    s.append(" ");
    s.append(button_str(b, 0x04, "S", 'S'));
    s.append(" ");
    s.append(button_str(b, 0x08, "T", 'T'));
    proof {
        assert(" "@ =~= seq![' ']);
        assert(s@ =~= nes_line(b));
    }
    s
}

/// Format one NES controller input for display: the button row of the first
/// byte of `input_data` (active low), or an index/hex/bits row in debug
/// view; missing data shows a blank row, or `[idx] Empty` in debug view.
pub fn format_nes_input(input_data: &[u8], input_idx: usize, debug: bool) -> (r: String)
    ensures
        r@ == spec_format_nes_input(input_data@, input_idx as int, debug),
{
    proof {
        reveal_strlit("[");
        reveal_strlit("] Empty");
        reveal_strlit("] 0x");
        reveal_strlit(" ");
    }
    if input_data.len() == 0 {
        if debug {
            let mut s = String::new();
            s.append("[");
            let idx = dec_string(input_idx);
            s.append(idx.as_str());
            s.append("] Empty");
            proof {
                assert("["@ =~= seq!['[']);
                assert("] Empty"@ =~= seq![']', ' ', 'E', 'm', 'p', 't', 'y']);
                assert(s@ =~= spec_format_nes_input(input_data@, input_idx as int, debug));
            }
            s
        } else {
            nes_line_string(0xff)
        }
    } else {
        let byte = input_data[0];
        if debug {
            let mut s = String::new();
            s.append("[");
            let idx = dec_string(input_idx);
            s.append(idx.as_str());
            s.append("] 0x");
            let hex = hex_string(byte);
            s.append(hex.as_str());
            s.append(" ");
            let bits = bin_string(byte);
            s.append(bits.as_str());
            proof {
                assert("["@ =~= seq!['[']);
                assert("] 0x"@ =~= seq![']', ' ', '0', 'x']);
                assert(" "@ =~= seq![' ']);
                assert(s@ =~= spec_format_nes_input(input_data@, input_idx as int, debug));
            }
            s
        } else {
            nes_line_string(byte)
        }
    }
}

} // verus!
