use vstd::prelude::*;
use vstd::slice::slice_to_vec;
use vstd::utf8::encode_utf8;
use crate::color::{spec_hex_rgb, Rgb8};
use crate::import::{ase_signature, vec_result_is};
use crate::text::{
    chars_of, decimal, join_lines, lemma_join_lines_push, push_char, push_chars, push_decimal,
    push_str, trim, trim_bounds,
};

verus! {

/// Output formats offered by the palette exporters.
#[derive(Debug, Clone, Copy, PartialEq, Eq, Structural)]
pub enum ExportFormat {
    HexList,
    RgbList,
    HslList,
    OklchList,
    Gpl,
    Ase,
    CssVariables,
    Json,
}

impl ExportFormat {
    /// Every format, in menu order.
    pub const ALL: [ExportFormat; 8] = [
        ExportFormat::HexList,
        ExportFormat::RgbList,
        ExportFormat::HslList,
        ExportFormat::OklchList,
        ExportFormat::Gpl,
        ExportFormat::Ase,
        ExportFormat::CssVariables,
        ExportFormat::Json,
    ];

    /// Human-readable label of each format.
    pub open spec fn spec_label(self) -> Seq<char> {
        match self {
            ExportFormat::HexList => "HEX list"@,
            ExportFormat::RgbList => "RGB list"@,
            ExportFormat::HslList => "HSL list"@,
            ExportFormat::OklchList => "OKLCH list"@,
            ExportFormat::Gpl => "GPL palette"@,
            ExportFormat::Ase => "ASE palette"@,
            ExportFormat::CssVariables => "CSS variables"@,
            ExportFormat::Json => "JSON"@,
        }
    }

    pub fn label(self) -> (res: &'static str)
        ensures
            res@ == self.spec_label(),
    {
        match self {
            ExportFormat::HexList => "HEX list",
            ExportFormat::RgbList => "RGB list",
            ExportFormat::HslList => "HSL list",
            ExportFormat::OklchList => "OKLCH list",
            ExportFormat::Gpl => "GPL palette",
            ExportFormat::Ase => "ASE palette",
            ExportFormat::CssVariables => "CSS variables",
            ExportFormat::Json => "JSON",
        }
    }

    /// The formats whose text is written from 8-bit channels; the HSL, OKLCH
    /// and JSON texts are written from floating-point colour values instead.
    pub open spec fn spec_is_rgb8_text(self) -> bool {
        match self {
            ExportFormat::HslList | ExportFormat::OklchList | ExportFormat::Json => false,
            _ => true,
        }
    }

    pub fn is_rgb8_text(self) -> (res: bool)
        ensures
            res == self.spec_is_rgb8_text(),
    {
        match self {
            ExportFormat::HslList | ExportFormat::OklchList | ExportFormat::Json => false,
            _ => true,
        }
    }
}

/// `n` spaces.
pub open spec fn spaces(n: nat) -> Seq<char> {
    Seq::new(n, |_i: int| ' ')
}

/// `format!("{:>3}", v)`: the decimal numeral right-aligned in three columns.
pub open spec fn pad3(v: u8) -> Seq<char> {
    spaces((3 - decimal(v as nat).len()) as nat) + decimal(v as nat)
}

/// `rgb(R, G, B)`.
pub open spec fn rgb_line(c: Rgb8) -> Seq<char> {
    "rgb("@ + decimal(c.r as nat) + ", "@ + decimal(c.g as nat) + ", "@ + decimal(c.b as nat)
        + ")"@
}

/// The GPL line of the colour at position `i`: three right-aligned channels and
/// the name `Color <i + 1>`.
pub open spec fn gpl_color_line(i: int, c: Rgb8) -> Seq<char> {
    pad3(c.r) + seq![' '] + pad3(c.g) + seq![' '] + pad3(c.b) + seq!['\t'] + "Color "@ + decimal(
        (i + 1) as nat,
    )
}

/// `--<prefix>-<i + 1>: #RRGGBB;`.
pub open spec fn css_line(prefix: Seq<char>, i: int, c: Rgb8) -> Seq<char> {
    "--"@ + prefix + "-"@ + decimal((i + 1) as nat) + ": "@ + spec_hex_rgb(c) + ";"@
}

/// The trimmed text, or `default` when nothing is left of it.
pub open spec fn name_or(text: Seq<char>, default: Seq<char>) -> Seq<char> {
    if trim(text).len() == 0 {
        default
    } else {
        trim(text)
    }
}

/// The four header lines of an exported GPL file.
pub open spec fn gpl_header(prefix: Seq<char>) -> Seq<Seq<char>> {
    seq![
        "GIMP Palette"@,
        "Name: "@ + name_or(prefix, "rustycolour"@),
        "Columns: 6"@,
        "#"@,
    ]
}

pub open spec fn gpl_lines(palette: Seq<Rgb8>, prefix: Seq<char>) -> Seq<Seq<char>> {
    gpl_header(prefix) + Seq::new(palette.len(), |i: int| gpl_color_line(i, palette[i]))
}

/// The text shown for the binary ASE format.
pub open spec fn ase_notice() -> Seq<char> {
    "Binary ASE format selected. Use \"Export to File\" to write .ase."@
}

/// The exported text of a palette in a format written from 8-bit channels.
pub open spec fn spec_export_palette(
    palette: Seq<Rgb8>,
    format: ExportFormat,
    prefix: Seq<char>,
) -> Seq<char> {
    match format {
        ExportFormat::HexList => join_lines(
            Seq::new(palette.len(), |i: int| spec_hex_rgb(palette[i])),
        ),
        ExportFormat::RgbList => join_lines(Seq::new(palette.len(), |i: int| rgb_line(palette[i]))),
        ExportFormat::Gpl => join_lines(gpl_lines(palette, prefix)),
        ExportFormat::CssVariables => join_lines(
            Seq::new(palette.len(), |i: int| css_line(name_or(prefix, "color"@), i, palette[i])),
        ),
        _ => ase_notice(),
    }
}

/// Joining the first `i + 1` lines adds the line `i` (after a line feed unless it is the first).
proof fn lemma_join_take_step(ls: Seq<Seq<char>>, i: int)
    requires
        0 <= i < ls.len(),
    ensures
        join_lines(ls.take(i + 1)) == if i == 0 {
            ls[0]
        } else {
            join_lines(ls.take(i)) + seq!['\n'] + ls[i]
        },
{
    assert(ls.take(i + 1) =~= ls.take(i).push(ls[i]));
    if i == 0 {
        assert(ls.take(1) =~= seq![ls[0]]);
    } else {
        lemma_join_lines_push(ls.take(i), ls[i]);
    }
}

proof fn lemma_decimal_small(n: nat)
    requires
        n < 1000,
    ensures
        n < 10 ==> decimal(n).len() == 1,
        10 <= n < 100 ==> decimal(n).len() == 2,
        100 <= n ==> decimal(n).len() == 3,
{
    reveal_with_fuel(decimal, 3);
}

fn push_pad3(out: &mut String, v: u8)
    ensures
        final(out)@ == old(out)@ + pad3(v),
{
    proof {
        lemma_decimal_small(v as nat);
    }
    if v < 10 {
        push_char(out, ' ');
        push_char(out, ' ');
        assert(spaces(2) =~= seq![' ', ' ']);
    } else if v < 100 {
        push_char(out, ' ');
        assert(spaces(1) =~= seq![' ']);
    } else {
        assert(spaces(0) =~= Seq::<char>::empty());
    }
    push_decimal(out, v as u64);
    assert(out@ =~= old(out)@ + pad3(v));
}

/// The trimmed text, or `default` when nothing is left of it.
fn trimmed_or(text: &str, default: &str) -> (res: String)
    ensures
        res@ == name_or(text@, default@),
{
    let v = chars_of(text);
    let (a, b) = trim_bounds(&v, 0, v.len());
    assert(v@.subrange(0, v@.len() as int) =~= text@);
    let mut out = String::new();
    if a == b {
        push_str(&mut out, default);
    } else {
        push_chars(&mut out, &v, a, b);
    }
    out
}

fn export_hex_list(palette: &[Rgb8]) -> (res: String)
    ensures
        res@ == join_lines(Seq::new(palette@.len(), |i: int| spec_hex_rgb(palette@[i]))),
{
    let ghost ls = Seq::new(palette@.len(), |i: int| spec_hex_rgb(palette@[i]));
    let mut out = String::new();
    let mut i: usize = 0;
    while i < palette.len()
        invariant
            0 <= i <= palette@.len(),
            ls == Seq::new(palette@.len(), |i: int| spec_hex_rgb(palette@[i])),
            out@ == join_lines(ls.take(i as int)),
        decreases palette.len() - i,
    {
        proof {
            lemma_join_take_step(ls, i as int);
        }
        if i > 0 {
            push_char(&mut out, '\n');
        }
        let hex = palette[i].to_hex_rgb();
        push_str(&mut out, hex.as_str());
        i += 1;
    }
    assert(ls.take(i as int) =~= ls);
    out
}

fn export_rgb_list(palette: &[Rgb8]) -> (res: String)
    ensures
        res@ == join_lines(Seq::new(palette@.len(), |i: int| rgb_line(palette@[i]))),
{
    let ghost ls = Seq::new(palette@.len(), |i: int| rgb_line(palette@[i]));
    let mut out = String::new();
    let mut i: usize = 0;
    while i < palette.len()
        invariant
            0 <= i <= palette@.len(),
            ls == Seq::new(palette@.len(), |i: int| rgb_line(palette@[i])),
            out@ == join_lines(ls.take(i as int)),
        decreases palette.len() - i,
    {
        proof {
            lemma_join_take_step(ls, i as int);
        }
        if i > 0 {
            push_char(&mut out, '\n');
        }
        let c = palette[i];
        let ghost before = out@;
        push_str(&mut out, "rgb(");
        push_decimal(&mut out, c.r as u64);
        push_str(&mut out, ", ");
        push_decimal(&mut out, c.g as u64);
        push_str(&mut out, ", ");
        push_decimal(&mut out, c.b as u64);
        push_str(&mut out, ")");
        assert(out@ =~= before + rgb_line(c));
        i += 1;
    }
    assert(ls.take(i as int) =~= ls);
    out
}

fn export_css_variables(palette: &[Rgb8], css_prefix: &str) -> (res: String)
    ensures
        res@ == join_lines(
            Seq::new(
                palette@.len(),
                |i: int| css_line(name_or(css_prefix@, "color"@), i, palette@[i]),
            ),
        ),
{
    let prefix = trimmed_or(css_prefix, "color");
    let ghost ls = Seq::new(
        palette@.len(),
        |i: int| css_line(name_or(css_prefix@, "color"@), i, palette@[i]),
    );
    let mut out = String::new();
    let mut i: usize = 0;
    while i < palette.len()
        invariant
            0 <= i <= palette@.len(),
            prefix@ == name_or(css_prefix@, "color"@),
            ls == Seq::new(
                palette@.len(),
                |i: int| css_line(name_or(css_prefix@, "color"@), i, palette@[i]),
            ),
            out@ == join_lines(ls.take(i as int)),
        decreases palette.len() - i,
    {
        proof {
            lemma_join_take_step(ls, i as int);
        }
        if i > 0 {
            push_char(&mut out, '\n');
        }
        let ghost before = out@;
        push_str(&mut out, "--");
        push_str(&mut out, prefix.as_str());
        push_str(&mut out, "-");
        push_decimal(&mut out, (i + 1) as u64);
        push_str(&mut out, ": ");
        let hex = palette[i].to_hex_rgb();
        push_str(&mut out, hex.as_str());
        push_str(&mut out, ";");
        assert(out@ =~= before + css_line(prefix@, i as int, palette@[i as int]));
        i += 1;
    }
    assert(ls.take(i as int) =~= ls);
    out
}

fn export_gpl(palette: &[Rgb8], css_prefix: &str) -> (res: String)
    ensures
        res@ == join_lines(gpl_lines(palette@, css_prefix@)),
{
    let name = trimmed_or(css_prefix, "rustycolour");
    let ghost ls = gpl_lines(palette@, css_prefix@);
    let mut out = String::new();
    push_str(&mut out, "GIMP Palette");
    push_char(&mut out, '\n');
    push_str(&mut out, "Name: ");
    push_str(&mut out, name.as_str());
    push_char(&mut out, '\n');
    push_str(&mut out, "Columns: 6");
    push_char(&mut out, '\n');
    push_str(&mut out, "#");
    proof {
        assert(ls.take(1) =~= seq![ls[0]]);
        lemma_join_take_step(ls, 1);
        lemma_join_take_step(ls, 2);
        lemma_join_take_step(ls, 3);
        assert(out@ =~= join_lines(ls.take(4)));
    }
    let mut i: usize = 0;
    while i < palette.len()
        invariant
            0 <= i <= palette@.len(),
            ls == gpl_lines(palette@, css_prefix@),
            ls.len() == palette@.len() + 4,
            out@ == join_lines(ls.take(i + 4)),
        decreases palette.len() - i,
    {
        proof {
            lemma_join_take_step(ls, i + 4);
        }
        push_char(&mut out, '\n');
        let c = palette[i];
        let ghost before = out@;
        push_pad3(&mut out, c.r);
        push_char(&mut out, ' ');
        push_pad3(&mut out, c.g);
        push_char(&mut out, ' ');
        push_pad3(&mut out, c.b);
        push_char(&mut out, '\t');
        push_str(&mut out, "Color ");
        push_decimal(&mut out, (i + 1) as u64);
        assert(ls[i + 4] == gpl_color_line(i as int, c));
        assert(out@ =~= before + gpl_color_line(i as int, c));
        i += 1;
    }
    assert(ls.take(i + 4) =~= ls);
    out
}

/// The text export of a palette in one of the formats written from 8-bit
/// channels: HEX and RGB lists, a GPL file (named after the trimmed prefix, or
/// `rustycolour`), CSS custom properties (prefix `color` when the trimmed
/// prefix is empty), and, for ASE, the notice that the binary format is written
/// to a file instead.
pub fn export_palette(palette: &[Rgb8], format: ExportFormat, css_prefix: &str) -> (res: String)
    requires
        format.spec_is_rgb8_text(),
    ensures
        res@ == spec_export_palette(palette@, format, css_prefix@),
{
    match format {
        ExportFormat::HexList => export_hex_list(palette),
        ExportFormat::RgbList => export_rgb_list(palette),
        ExportFormat::Gpl => export_gpl(palette, css_prefix),
        ExportFormat::CssVariables => export_css_variables(palette, css_prefix),
        _ => {
            let mut out = String::new();
            push_str(&mut out, "Binary ASE format selected. Use \"Export to File\" to write .ase.");
            out
        },
    }
}


// ---------------------------------------------------------------------------
// ASE bytes

/// A 16-bit number in big-endian order (truncated to 16 bits).
pub open spec fn u16_be(v: nat) -> Seq<u8> {
    seq![(v / 256) as u8, (v % 256) as u8]
}

/// A 32-bit number in big-endian order (truncated to 32 bits).
pub open spec fn u32_be(v: nat) -> Seq<u8> {
    seq![(v / 0x1000000) as u8, ((v / 0x10000) % 256) as u8, ((v / 256) % 256) as u8, (v % 256) as u8]
}

/// UTF-16 big-endian code units of ASCII text.
pub open spec fn ascii_utf16_be(s: Seq<char>) -> Seq<u8>
    decreases s.len(),
{
    if s.len() == 0 {
        seq![]
    } else {
        seq![0u8, s[0] as u8] + ascii_utf16_be(s.drop_first())
    }
}

/// The name of the entry at position `i`: `Color <i + 1>`.
pub open spec fn ase_entry_name(i: int) -> Seq<char> {
    "Color "@ + decimal((i + 1) as nat)
}

/// The colour `RGB ` model bytes.
pub open spec fn rgb_model() -> Seq<u8> {
    seq![0x52u8, 0x47u8, 0x42u8, 0x20u8]
}

/// The body of the colour entry block at position `i`: the name with its
/// terminating NUL in UTF-16, the `RGB ` model, the three channel bit patterns
/// and colour type 0.
pub open spec fn ase_entry(i: int, c: (u32, u32, u32)) -> Seq<u8> {
    let name = ase_entry_name(i);
    u16_be(name.len() + 1) + ascii_utf16_be(name) + seq![0u8, 0u8] + rgb_model() + u32_be(
        c.0 as nat,
    ) + u32_be(c.1 as nat) + u32_be(c.2 as nat) + seq![0u8, 0u8]
}

/// A colour entry block with its type (1) and length.
pub open spec fn ase_framed(i: int, c: (u32, u32, u32)) -> Seq<u8> {
    u16_be(1) + u32_be(ase_entry(i, c).len()) + ase_entry(i, c)
}

/// The blocks of the entries at positions `k..j`.
pub open spec fn ase_framed_between(chs: Seq<(u32, u32, u32)>, k: int, j: int) -> Seq<u8>
    decreases j - k,
{
    if j <= k {
        seq![]
    } else {
        ase_framed_between(chs, k, j - 1) + ase_framed(j - 1, chs[j - 1])
    }
}

/// The ASE file of a palette given by the bit patterns of its clamped RGB
/// channels: header (`ASEF`, version 1.0, the number of entries as a 32-bit
/// count) and one colour entry block per colour; an empty palette is refused.
pub open spec fn spec_export_ase(chs: Seq<(u32, u32, u32)>) -> Result<Seq<u8>, Seq<char>> {
    if chs.len() == 0 {
        Err("Cannot export empty palette to ASE"@)
    } else {
        Ok(
            ase_signature() + u16_be(1) + u16_be(0) + u32_be((chs.len() as u32) as nat)
                + ase_framed_between(chs, 0, chs.len() as int),
        )
    }
}

fn push_u16_be(out: &mut Vec<u8>, v: u16)
    ensures
        final(out)@ == old(out)@ + u16_be(v as nat),
{
    out.push((v / 256) as u8);
    out.push((v % 256) as u8);
    assert(final(out)@ =~= old(out)@ + u16_be(v as nat));
}

fn push_u32_be(out: &mut Vec<u8>, v: u32)
    ensures
        final(out)@ == old(out)@ + u32_be(v as nat),
{
    out.push((v / 0x1000000) as u8);
    out.push(((v / 0x10000) % 256) as u8);
    out.push(((v / 256) % 256) as u8);
    out.push((v % 256) as u8);
    assert(final(out)@ =~= old(out)@ + u32_be(v as nat));
}

fn push_bytes(out: &mut Vec<u8>, b: &Vec<u8>)
    ensures
        final(out)@ == old(out)@ + b@,
{
    let mut i: usize = 0;
    while i < b.len()
        invariant
            0 <= i <= b.len(),
            out@ == old(out)@ + b@.take(i as int),
        decreases b.len() - i,
    {
        out.push(b[i]);
        i += 1;
        assert(b@.take(i as int) =~= b@.take(i - 1).push(b@[i - 1]));
    }
    assert(b@.take(i as int) =~= b@);
}

pub open spec fn pow10(k: nat) -> nat
    decreases k,
{
    if k == 0 {
        1
    } else {
        10 * pow10((k - 1) as nat)
    }
}

/// A number below `10^k` has at most `k` digits.
pub proof fn lemma_decimal_len_bound(n: nat, k: nat)
    requires
        k >= 1,
        n < pow10(k),
    ensures
        decimal(n).len() <= k,
    decreases k,
{
    if n >= 10 {
        assert(k >= 2) by {
            if k == 1 {
                reveal_with_fuel(pow10, 2);
                assert(pow10(1) == 10);
            }
        }
        assert(n / 10 < pow10((k - 1) as nat));
        lemma_decimal_len_bound(n / 10, (k - 1) as nat);
    }
}

proof fn lemma_u64_below_pow10_20(n: nat)
    requires
        n <= u64::MAX,
    ensures
        n < pow10(20),
{
    reveal_with_fuel(pow10, 21);
}

/// The body of the colour entry block at position `i`.
fn ase_entry_bytes(i: usize, c: (u32, u32, u32)) -> (res: Vec<u8>)
    requires
        i < usize::MAX,
    ensures
        res@ == ase_entry(i as int, c),
        res@.len() < 100,
{
    let mut name = String::new();
    push_str(&mut name, "Color ");
    push_decimal(&mut name, (i + 1) as u64);
    let chars = chars_of(name.as_str());
    proof {
        reveal_strlit("Color ");
        lemma_u64_below_pow10_20((i + 1) as nat);
        lemma_decimal_len_bound((i + 1) as nat, 20);
    }
    assert(chars@ == ase_entry_name(i as int));
    let mut block: Vec<u8> = Vec::new();
    push_u16_be(&mut block, (chars.len() + 1) as u16);
    let mut k: usize = 0;
    while k < chars.len()
        invariant
            0 <= k <= chars.len(),
            chars.len() <= 26,
            block@ == u16_be((chars.len() + 1) as nat) + ascii_utf16_be(chars@.take(k as int)),
        decreases chars.len() - k,
    {
        proof {
            lemma_ascii_utf16_push(chars@.take(k as int), chars@[k as int]);
            assert(chars@.take(k + 1) =~= chars@.take(k as int).push(chars@[k as int]));
        }
        block.push(0);
        block.push(chars[k] as u8);
        k += 1;
        assert(block@ =~= u16_be((chars.len() + 1) as nat) + ascii_utf16_be(chars@.take(k as int)));
    }
    assert(chars@.take(k as int) =~= chars@);
    block.push(0);
    block.push(0);
    block.push(0x52);
    block.push(0x47);
    block.push(0x42);
    block.push(0x20);
    push_u32_be(&mut block, c.0);
    push_u32_be(&mut block, c.1);
    push_u32_be(&mut block, c.2);
    push_u16_be(&mut block, 0);
    proof {
        lemma_ascii_utf16_len(chars@);
    }
    assert(block@ =~= ase_entry(i as int, c));
    block
}

pub proof fn lemma_ascii_utf16_push(s: Seq<char>, c: char)
    ensures
        ascii_utf16_be(s.push(c)) == ascii_utf16_be(s) + seq![0u8, c as u8],
    decreases s.len(),
{
    if s.len() == 0 {
        assert(s.push(c).drop_first() =~= Seq::<char>::empty());
        assert(s.push(c)[0] == c);
        assert(ascii_utf16_be(Seq::<char>::empty()) == Seq::<u8>::empty());
        assert(ascii_utf16_be(s) == Seq::<u8>::empty());
        assert(ascii_utf16_be(s.push(c)) =~= seq![0u8, c as u8]);
    } else {
        lemma_ascii_utf16_push(s.drop_first(), c);
        assert(s.push(c).drop_first() =~= s.drop_first().push(c));
        assert(s.push(c)[0] == s[0]);
        assert(ascii_utf16_be(s.push(c)) =~= ascii_utf16_be(s) + seq![0u8, c as u8]);
    }
}

pub proof fn lemma_ascii_utf16_len(s: Seq<char>)
    ensures
        ascii_utf16_be(s).len() == 2 * s.len(),
    decreases s.len(),
{
    if s.len() > 0 {
        lemma_ascii_utf16_len(s.drop_first());
    }
}

/// The ASE file of a palette given by the bit patterns of its clamped RGB
/// channels; an empty palette is refused.
pub fn export_ase_bytes(channels: &[(u32, u32, u32)]) -> (res: Result<Vec<u8>, String>)
    ensures
        vec_result_is(res, spec_export_ase(channels@)),
{
    if channels.len() == 0 {
        let mut msg = String::new();
        push_str(&mut msg, "Cannot export empty palette to ASE");
        return Err(msg);
    }
    let mut bytes: Vec<u8> = Vec::new();
    bytes.push(0x41);
    bytes.push(0x53);
    bytes.push(0x45);
    bytes.push(0x46);
    push_u16_be(&mut bytes, 1);
    push_u16_be(&mut bytes, 0);
    push_u32_be(&mut bytes, channels.len() as u32);
    let ghost header = ase_signature() + u16_be(1) + u16_be(0) + u32_be(
        (channels@.len() as u32) as nat,
    );
    assert(bytes@ =~= header);
    let mut i: usize = 0;
    while i < channels.len()
        invariant
            0 <= i <= channels@.len(),
            bytes@ == header + ase_framed_between(channels@, 0, i as int),
        decreases channels.len() - i,
    {
        let block = ase_entry_bytes(i, channels[i]);
        push_u16_be(&mut bytes, 1);
        push_u32_be(&mut bytes, block.len() as u32);
        push_bytes(&mut bytes, &block);
        i += 1;
        assert(bytes@ =~= header + ase_framed_between(channels@, 0, i as int));
    }
    Ok(bytes)
}


/// The bytes written for a palette in a format written from 8-bit channels:
/// for ASE the binary file of the `ase_channels` (the bit patterns of the
/// clamped channels of the palette's colours, one triple per colour, which is
/// what that format stores), for the other formats the UTF-8 encoding of the
/// text export of `palette`.
pub fn export_palette_bytes(
    palette: &[Rgb8],
    ase_channels: &[(u32, u32, u32)],
    format: ExportFormat,
    css_prefix: &str,
) -> (res: Result<Vec<u8>, String>)
    requires
        format.spec_is_rgb8_text(),
        format == ExportFormat::Ase ==> ase_channels@.len() == palette@.len(),
    ensures
        format == ExportFormat::Ase ==> vec_result_is(res, spec_export_ase(ase_channels@)),
        format == ExportFormat::Ase ==> (res is Err <==> palette@.len() == 0),
        format == ExportFormat::Ase && res is Ok ==> res->Ok_0@.subrange(0, 4) == ase_signature()
            && res->Ok_0@.subrange(8, 12) == u32_be((palette@.len() as u32) as nat),
        format != ExportFormat::Ase ==> res is Ok && res->Ok_0@ == encode_utf8(
            spec_export_palette(palette@, format, css_prefix@),
        ),
{
    match format {
        ExportFormat::Ase => {
            let res = export_ase_bytes(ase_channels);
            proof {
                if res is Ok {
                    let chs = ase_channels@;
                    let h1 = ase_signature();
                    let h2 = h1 + u16_be(1) + u16_be(0);
                    let h3 = h2 + u32_be((chs.len() as u32) as nat);
                    let b = h3 + ase_framed_between(chs, 0, chs.len() as int);
                    assert(res->Ok_0@ == b);
                    assert(b.subrange(0, 4) =~= h1);
                    assert(b.subrange(8, 12) =~= u32_be((chs.len() as u32) as nat));
                }
            }
            res
        },
        _ => {
            let text = export_palette(palette, format, css_prefix);
            let bytes = text.as_str().as_bytes();
            Ok(slice_to_vec(bytes))
        },
    }
}

} // verus!
