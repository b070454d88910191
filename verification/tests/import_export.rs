use rustycolour_core::color::Rgb8;
use rustycolour_core::export::{export_palette, export_palette_bytes, ExportFormat};
use rustycolour_core::import::{import_ase, import_gpl, AseColor};

/// 8-bit channels of an ASE entry, read as the application does: each channel
/// is clamped to [0, 1], scaled to 255 and rounded.
fn ase_rgb8(color: &AseColor) -> Rgb8 {
    let to_u8 = |bits: u32| (f32::from_bits(bits).clamp(0.0, 1.0) * 255.0).round() as u8;
    match *color {
        AseColor::Rgb { r, g, b } => Rgb8::new(to_u8(r), to_u8(g), to_u8(b)),
        AseColor::Gray { v } => Rgb8::new(to_u8(v), to_u8(v), to_u8(v)),
        AseColor::Cmyk { c, m, y, k } => {
            let f = |bits: u32| f32::from_bits(bits).clamp(0.0, 1.0);
            let (c, m, y, k) = (f(c), f(m), f(y), f(k));
            let u = |x: f32| (x.clamp(0.0, 1.0) * 255.0).round() as u8;
            Rgb8::new(u((1.0 - c) * (1.0 - k)), u((1.0 - m) * (1.0 - k)), u((1.0 - y) * (1.0 - k)))
        }
    }
}

/// Bit pattern of the channel `v / 255`, as the application stores an 8-bit channel.
fn channel_bits(v: u8) -> u32 {
    (f32::from(v) / 255.0).clamp(0.0, 1.0).to_bits()
}

#[test]
fn parses_basic_gpl_palette() {
    let gpl = "GIMP Palette\nName: Test\n#\n255 0 0 Red\n0 255 0 Green\n0 0 255 Blue\n";
    let palette = import_gpl(gpl).expect("should parse valid gpl");
    assert_eq!(palette.len(), 3);
    assert_eq!(palette[0].to_hex_rgb(), "#FF0000");
    assert_eq!(palette[1].to_hex_rgb(), "#00FF00");
    assert_eq!(palette[2].to_hex_rgb(), "#0000FF");
}

#[test]
fn rejects_wrong_gpl_header() {
    let bad = "NOT A GPL\n255 0 0 Red\n";
    let err = import_gpl(bad).expect_err("invalid header should fail");
    assert!(err.contains("Invalid GPL header"));
}

#[test]
fn rejects_empty_gpl_color_section() {
    let empty = "GIMP Palette\nName: Empty\n#\n";
    let err = import_gpl(empty).expect_err("empty palette should fail");
    assert!(err.contains("No colors found"));
}

#[test]
fn parses_minimal_ase_rgb_color() {
    let mut ase = Vec::new();
    ase.extend_from_slice(b"ASEF");
    ase.extend_from_slice(&1u16.to_be_bytes());
    ase.extend_from_slice(&0u16.to_be_bytes());
    ase.extend_from_slice(&1u32.to_be_bytes());

    // Block: color entry
    ase.extend_from_slice(&0x0001u16.to_be_bytes());
    ase.extend_from_slice(&28u32.to_be_bytes());

    // Name length (UTF-16 code units, incl null terminator): 4 for "Red\0"
    ase.extend_from_slice(&4u16.to_be_bytes());
    ase.extend_from_slice(&0x0052u16.to_be_bytes()); // R
    ase.extend_from_slice(&0x0065u16.to_be_bytes()); // e
    ase.extend_from_slice(&0x0064u16.to_be_bytes()); // d
    ase.extend_from_slice(&0x0000u16.to_be_bytes());

    ase.extend_from_slice(b"RGB ");
    ase.extend_from_slice(&1.0f32.to_bits().to_be_bytes());
    ase.extend_from_slice(&0.0f32.to_bits().to_be_bytes());
    ase.extend_from_slice(&0.0f32.to_bits().to_be_bytes());
    ase.extend_from_slice(&0u16.to_be_bytes());

    let palette = import_ase(&ase).expect("valid ase should parse");
    assert_eq!(palette.len(), 1);
    assert_eq!(ase_rgb8(&palette[0]).to_hex_rgb(), "#FF0000");
}

#[test]
fn rejects_invalid_ase_header() {
    let bad = b"NOPE";
    let err = import_ase(bad).expect_err("bad header should fail");
    assert!(err.contains("Invalid ASE header"));
}

#[test]
fn gpl_round_trip_preserves_rgb_values() {
    let palette = vec![Rgb8::new(255, 0, 0), Rgb8::new(12, 34, 56), Rgb8::new(0, 255, 200)];

    let gpl = export_palette(&palette, ExportFormat::Gpl, "RoundTrip");
    let imported = import_gpl(&gpl).expect("exported GPL should be importable");

    assert_eq!(imported.len(), palette.len());
    for (left, right) in imported.iter().zip(palette.iter()) {
        assert_eq!(left, right);
    }
}

#[test]
fn ase_round_trip_preserves_rgb_values() {
    let palette = vec![Rgb8::new(200, 10, 40), Rgb8::new(12, 220, 100), Rgb8::new(77, 88, 210)];
    let channels: Vec<(u32, u32, u32)> = palette
        .iter()
        .map(|c| (channel_bits(c.r), channel_bits(c.g), channel_bits(c.b)))
        .collect();

    let ase = export_palette_bytes(&palette, &channels, ExportFormat::Ase, "")
        .expect("ASE export should produce bytes");
    let imported = import_ase(&ase).expect("exported ASE should be importable");

    assert_eq!(imported.len(), palette.len());
    for (left, right) in imported.iter().zip(palette.iter()) {
        assert_eq!(ase_rgb8(left), *right);
    }
}
