use tasdview::format::{bin_string, dec_string, format_nes_input, hex_string, nes_line_string};

#[test]
fn decimal_notation() {
    assert_eq!(dec_string(0), "0");
    assert_eq!(dec_string(7), "7");
    assert_eq!(dec_string(42), "42");
    assert_eq!(dec_string(1000), "1000");
    assert_eq!(dec_string(90210), "90210");
}

#[test]
fn hex_notation_is_two_upper_case_digits() {
    assert_eq!(hex_string(0x00), "00");
    assert_eq!(hex_string(0x5A), "5A");
    assert_eq!(hex_string(0xFF), "FF");
    assert_eq!(hex_string(0x0C), "0C");
}

#[test]
fn binary_notation_is_eight_bits_msb_first() {
    assert_eq!(bin_string(0x00), "00000000");
    assert_eq!(bin_string(0xFF), "11111111");
    assert_eq!(bin_string(0x5A), "01011010");
    assert_eq!(bin_string(0x01), "00000001");
}

#[test]
fn button_row_all_released() {
    // Bits are active low: an all-ones byte means nothing pressed.
    assert_eq!(nes_line_string(0xFF), "· · · · · · · ·");
}

#[test]
fn button_row_all_pressed() {
    assert_eq!(nes_line_string(0x00), "↑ ↓ ← → A B S T");
}

#[test]
fn button_row_single_buttons() {
    // A is bit 0, up is bit 4.
    assert_eq!(nes_line_string(0xFE), "· · · · A · · ·");
    assert_eq!(nes_line_string(0xEF), "↑ · · · · · · ·");
}

#[test]
fn format_reads_only_the_first_byte() {
    assert_eq!(format_nes_input(&[0xFE, 0x00], 3, false), "· · · · A · · ·");
}

#[test]
fn format_debug_shows_index_hex_and_bits() {
    assert_eq!(format_nes_input(&[0x5A], 3, true), "[3] 0x5A 01011010");
    assert_eq!(format_nes_input(&[0x00], 120, true), "[120] 0x00 00000000");
}

#[test]
fn format_empty_input() {
    assert_eq!(format_nes_input(&[], 5, true), "[5] Empty");
    assert_eq!(format_nes_input(&[], 5, false), "· · · · · · · ·");
}
