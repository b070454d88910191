use rustycolour_core::color::Rgb8;
use rustycolour_core::import::{import_ase, import_gpl, AseColor, ByteReader};

#[test]
fn gpl_accepts_plus_signs_blanks_and_crlf() {
    let gpl = "  GIMP Palette \r\nName: X\r\nColumns: 16\r\n# note\r\n\r\n +255  0\t+7 name\r\n";
    assert_eq!(import_gpl(gpl), Ok(vec![Rgb8::new(255, 0, 7)]));
}

#[test]
fn gpl_skips_lines_of_fewer_than_three_words() {
    let gpl = "GIMP Palette\n1 2\nonly\n3 4 5\n";
    assert_eq!(import_gpl(gpl), Ok(vec![Rgb8::new(3, 4, 5)]));
}

#[test]
fn gpl_reports_the_first_bad_channel_with_the_trimmed_line() {
    assert_eq!(
        import_gpl("GIMP Palette\n  256 0 0 x  \n1 2 3\n"),
        Err("Invalid red channel in line: 256 0 0 x".to_owned())
    );
    assert_eq!(
        import_gpl("GIMP Palette\n0 -1 0\n"),
        Err("Invalid green channel in line: 0 -1 0".to_owned())
    );
    assert_eq!(
        import_gpl("GIMP Palette\n1 2 3\n1 2 blue\n"),
        Err("Invalid blue channel in line: 1 2 blue".to_owned())
    );
}

#[test]
fn gpl_empty_and_headerless_files() {
    assert_eq!(import_gpl(""), Err("GPL file is empty".to_owned()));
    assert_eq!(
        import_gpl("\nGIMP Palette\n1 2 3"),
        Err("Invalid GPL header: expected 'GIMP Palette'".to_owned())
    );
}

fn ase_file(blocks: &[(u16, Vec<u8>)]) -> Vec<u8> {
    let mut out = Vec::new();
    out.extend_from_slice(b"ASEF");
    out.extend_from_slice(&[0, 1, 0, 0]);
    out.extend_from_slice(&(blocks.len() as u32).to_be_bytes());
    for (kind, body) in blocks {
        out.extend_from_slice(&kind.to_be_bytes());
        out.extend_from_slice(&(body.len() as u32).to_be_bytes());
        out.extend_from_slice(body);
    }
    out
}

fn entry(model: &[u8; 4], channels: &[f32]) -> Vec<u8> {
    let mut body = vec![0, 2, 0, 0x41, 0, 0];
    body.extend_from_slice(model);
    for c in channels {
        body.extend_from_slice(&c.to_bits().to_be_bytes());
    }
    body.extend_from_slice(&[0, 2]);
    body
}

#[test]
fn ase_reads_gray_and_cmyk_and_skips_other_blocks() {
    let file = ase_file(&[
        (0xC001, vec![0, 0]),
        (1, entry(b"Gray", &[0.5])),
        (1, entry(b"LAB ", &[50.0, 0.0, 0.0])),
        (1, entry(b"CMYK", &[0.0, 1.0, 0.25, 0.5])),
        (0xC002, vec![]),
    ]);
    let colors = import_ase(&file).expect("two importable colours");
    assert_eq!(
        colors,
        vec![
            AseColor::Gray { v: 0.5f32.to_bits() },
            AseColor::Cmyk {
                c: 0.0f32.to_bits(),
                m: 1.0f32.to_bits(),
                y: 0.25f32.to_bits(),
                k: 0.5f32.to_bits(),
            },
        ]
    );
}

#[test]
fn ase_without_known_models_has_no_colours() {
    let file = ase_file(&[(1, entry(b"LAB ", &[50.0, 0.0, 0.0]))]);
    assert_eq!(
        import_ase(&file),
        Err("No importable colors found in ASE file".to_owned())
    );
}

#[test]
fn ase_rejects_model_bytes_that_are_not_utf8() {
    let file = ase_file(&[(1, entry(&[0xFF, 0x47, 0x42, 0x20], &[1.0, 0.0, 0.0]))]);
    assert_eq!(
        import_ase(&file),
        Err("Invalid ASE color model bytes".to_owned())
    );
}

#[test]
fn ase_truncated_files() {
    assert_eq!(import_ase(b"AS"), Err("Unexpected end of file".to_owned()));
    assert_eq!(import_ase(b"ASEF\x00\x01"), Err("Unexpected end of file".to_owned()));
    let mut file = ase_file(&[(1, entry(b"RGB ", &[1.0, 0.0, 0.0]))]);
    file.truncate(file.len() - 3);
    assert_eq!(import_ase(&file), Err("Unexpected end of file".to_owned()));
    // The header promises two blocks; only one is there.
    let mut file = ase_file(&[(1, entry(b"RGB ", &[1.0, 0.0, 0.0]))]);
    file[11] = 2;
    assert_eq!(import_ase(&file), Err("Unexpected end of file".to_owned()));
}

#[test]
fn ase_entry_too_short_for_its_model() {
    let mut body = entry(b"RGB ", &[1.0, 0.0, 0.0]);
    body.truncate(body.len() - 2);
    let file = ase_file(&[(1, body)]);
    assert_eq!(import_ase(&file), Err("Unexpected end of file".to_owned()));
}

#[test]
fn byte_reader_reads_big_endian_fields() {
    let data = [0x12u8, 0x34, 0xDE, 0xAD, 0xBE, 0xEF, 0x07];
    let mut reader = ByteReader::new(&data);
    assert_eq!(reader.read_u16_be(), Ok(0x1234));
    assert_eq!(reader.read_u32_be(), Ok(0xDEADBEEF));
    assert_eq!(reader.read_exact(2), Err("Unexpected end of file".to_owned()));
    assert_eq!(reader.read_exact(1), Ok(&[0x07u8][..]));
    assert_eq!(reader.read_u16_be(), Err("Unexpected end of file".to_owned()));
}

#[test]
fn byte_reader_advances_by_what_it_reads() {
    let data = [0x00u8, 0x02, 0xAA, 0xBB, 0xCC];
    let mut reader = ByteReader::new(&data);
    assert_eq!(reader.read_u16_be(), Ok(2));
    assert_eq!(reader.read_exact(2), Ok(&data[2..4]));
    assert_eq!(reader.read_exact(2), Err("Unexpected end of file".to_owned()));
    assert_eq!(reader.read_exact(1), Ok(&data[4..5]));
    assert_eq!(reader.read_exact(1), Err("Unexpected end of file".to_owned()));
}
