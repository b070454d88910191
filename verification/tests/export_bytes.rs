use rustycolour_core::color::Rgb8;
use rustycolour_core::export::{export_palette, export_palette_bytes, ExportFormat};

fn first() -> Vec<Rgb8> {
    vec![Rgb8::new(255, 0, 0), Rgb8::new(12, 34, 171)]
}

fn second() -> Vec<Rgb8> {
    vec![Rgb8::new(0, 255, 128)]
}

#[test]
fn text_formats_give_utf8_of_the_text_export() {
    let palette = first();
    let bytes = export_palette_bytes(&palette, &[], ExportFormat::HexList, "").unwrap();
    assert_eq!(bytes, b"#FF0000\n#0C22AB".to_vec());
    let css = export_palette_bytes(&palette, &[], ExportFormat::CssVariables, "brand").unwrap();
    assert_eq!(
        css,
        export_palette(&palette, ExportFormat::CssVariables, "brand").into_bytes()
    );
    let gpl = export_palette_bytes(&palette, &[], ExportFormat::Gpl, "Mine").unwrap();
    assert!(gpl.starts_with(b"GIMP Palette\n"));
}

#[test]
fn ase_format_writes_the_binary_file() {
    let one = 1.0f32.to_bits();
    let bytes =
        export_palette_bytes(&[Rgb8::new(255, 0, 255)], &[(one, 0, one)], ExportFormat::Ase, "")
            .unwrap();
    assert_eq!(&bytes[0..4], b"ASEF");
    assert_eq!(&bytes[8..12], &1u32.to_be_bytes());
    assert_eq!(
        export_palette_bytes(&[], &[], ExportFormat::Ase, ""),
        Err("Cannot export empty palette to ASE".to_owned())
    );
}

#[test]
fn hex_and_rgb_lists_of_joined_palettes_join_the_lists() {
    let p = first();
    let q = second();
    let mut pq = p.clone();
    pq.extend(q.iter().copied());
    for format in [ExportFormat::HexList, ExportFormat::RgbList] {
        let joined = format!(
            "{}\n{}",
            export_palette(&p, format, ""),
            export_palette(&q, format, "")
        );
        assert_eq!(export_palette(&pq, format, ""), joined);
        assert_eq!(export_palette(&[], format, ""), "");
    }
}

#[test]
fn line_exports_have_one_line_per_colour() {
    let mut palette = first();
    palette.extend(second());
    for format in [ExportFormat::HexList, ExportFormat::RgbList, ExportFormat::CssVariables] {
        let text = export_palette(&palette, format, "accent");
        assert_eq!(text.split('\n').count(), palette.len());
    }
    let css = export_palette(&palette, ExportFormat::CssVariables, "accent");
    let third = css.split('\n').nth(2).unwrap();
    assert_eq!(third, "--accent-3: #00FF80;");
}
