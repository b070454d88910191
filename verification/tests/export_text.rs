use rustycolour_core::color::Rgb8;
use rustycolour_core::export::{export_ase_bytes, export_palette, ExportFormat};

fn sample() -> Vec<Rgb8> {
    vec![Rgb8::new(255, 0, 0), Rgb8::new(12, 34, 171)]
}

#[test]
fn labels_and_menu_order() {
    let labels: Vec<&str> = ExportFormat::ALL.iter().map(|f| f.label()).collect();
    assert_eq!(
        labels,
        vec![
            "HEX list",
            "RGB list",
            "HSL list",
            "OKLCH list",
            "GPL palette",
            "ASE palette",
            "CSS variables",
            "JSON",
        ]
    );
}

#[test]
fn rgb8_text_formats() {
    assert!(ExportFormat::HexList.is_rgb8_text());
    assert!(ExportFormat::Ase.is_rgb8_text());
    assert!(!ExportFormat::HslList.is_rgb8_text());
    assert!(!ExportFormat::OklchList.is_rgb8_text());
    assert!(!ExportFormat::Json.is_rgb8_text());
}

#[test]
fn hex_list_export() {
    assert_eq!(export_palette(&sample(), ExportFormat::HexList, ""), "#FF0000\n#0C22AB");
    assert_eq!(export_palette(&[], ExportFormat::HexList, ""), "");
}

#[test]
fn rgb_list_export() {
    assert_eq!(
        export_palette(&sample(), ExportFormat::RgbList, ""),
        "rgb(255, 0, 0)\nrgb(12, 34, 171)"
    );
}

#[test]
fn css_variables_export() {
    assert_eq!(
        export_palette(&sample(), ExportFormat::CssVariables, "  brand "),
        "--brand-1: #FF0000;\n--brand-2: #0C22AB;"
    );
    assert_eq!(
        export_palette(&sample(), ExportFormat::CssVariables, " \t "),
        "--color-1: #FF0000;\n--color-2: #0C22AB;"
    );
}

#[test]
fn gpl_export() {
    assert_eq!(
        export_palette(&sample(), ExportFormat::Gpl, ""),
        "GIMP Palette\nName: rustycolour\nColumns: 6\n#\n255   0   0\tColor 1\n 12  34 171\tColor 2"
    );
    assert_eq!(
        export_palette(&[], ExportFormat::Gpl, " Brand "),
        "GIMP Palette\nName: Brand\nColumns: 6\n#"
    );
}

#[test]
fn ase_text_notice() {
    assert_eq!(
        export_palette(&sample(), ExportFormat::Ase, ""),
        "Binary ASE format selected. Use \"Export to File\" to write .ase."
    );
}

#[test]
fn ase_bytes_of_one_colour() {
    let one = 1.0f32.to_bits();
    let bytes = export_ase_bytes(&[(one, 0, one)]).expect("non-empty palette");
    let mut expected = Vec::new();
    expected.extend_from_slice(b"ASEF");
    expected.extend_from_slice(&[0, 1, 0, 0, 0, 0, 0, 1]);
    expected.extend_from_slice(&[0, 1, 0, 0, 0, 36]);
    expected.extend_from_slice(&[0, 8]);
    for c in "Color 1".chars() {
        expected.extend_from_slice(&[0, c as u8]);
    }
    expected.extend_from_slice(&[0, 0]);
    expected.extend_from_slice(b"RGB ");
    expected.extend_from_slice(&one.to_be_bytes());
    expected.extend_from_slice(&0u32.to_be_bytes());
    expected.extend_from_slice(&one.to_be_bytes());
    expected.extend_from_slice(&[0, 0]);
    assert_eq!(bytes, expected);
}

#[test]
fn ase_bytes_refuse_empty_palette() {
    assert_eq!(
        export_ase_bytes(&[]),
        Err("Cannot export empty palette to ASE".to_owned())
    );
}
