use rustycolour_core::color::Rgb8;

#[test]
fn hex_notation_is_upper_case_with_hash() {
    assert_eq!(Rgb8::new(12, 34, 171).to_hex_rgb(), "#0C22AB");
    assert_eq!(Rgb8::new(0, 0, 0).to_hex_rgb(), "#000000");
    assert_eq!(Rgb8::new(255, 255, 255).to_hex_rgb(), "#FFFFFF");
}

#[test]
fn hex_notation_reads_back() {
    for &(r, g, b) in &[(0u8, 0u8, 0u8), (12, 34, 171), (255, 128, 1), (9, 10, 15)] {
        let c = Rgb8::new(r, g, b);
        assert_eq!(Rgb8::from_hex_rgb(&c.to_hex_rgb()), Some(c));
    }
}

#[test]
fn hex_parse_accepts_blanks_case_and_repeated_hashes() {
    assert_eq!(Rgb8::from_hex_rgb("  ##0c22Ab\n"), Some(Rgb8::new(12, 34, 171)));
    assert_eq!(Rgb8::from_hex_rgb("4F46E5"), Some(Rgb8::new(79, 70, 229)));
}

#[test]
fn hex_parse_accepts_plus_signed_pieces() {
    assert_eq!(Rgb8::from_hex_rgb("#+F+F+F"), Some(Rgb8::new(15, 15, 15)));
}

#[test]
fn hex_parse_rejects_bad_notation() {
    assert_eq!(Rgb8::from_hex_rgb("#FFF"), None);
    assert_eq!(Rgb8::from_hex_rgb("#FFFFFFF"), None);
    assert_eq!(Rgb8::from_hex_rgb("#GG0000"), None);
    assert_eq!(Rgb8::from_hex_rgb("#-F0000"), None);
    assert_eq!(Rgb8::from_hex_rgb(""), None);
    assert_eq!(Rgb8::from_hex_rgb("#FF 000"), None);
}

#[test]
fn hex_parse_rejects_non_ascii_body_of_six_bytes() {
    // "é" is two bytes: the body is six bytes cut between characters.
    assert_eq!(Rgb8::from_hex_rgb("é1234"), None);
}
