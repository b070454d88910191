//! Laws of the exporters: reading back what they write, and how the text
//! exports are made of one line per colour.

use vstd::prelude::*;
use vstd::utf8::{
    decode_utf8, encode_utf8, encode_utf8_decode_utf8, encode_utf8_valid_utf8, is_ascii_chars,
    is_ascii_chars_encode_utf8, valid_utf8,
};
use crate::color::{spec_hex_rgb, Rgb8};
use crate::export::{
    ase_entry, ase_entry_name, ase_framed, ase_framed_between, gpl_color_line, gpl_lines,
    lemma_ascii_utf16_len, lemma_decimal_len_bound, name_or, pow10, rgb_model, spaces,
    spec_export_ase, spec_export_palette, u16_be, u32_be, ExportFormat, css_line, rgb_line,
};
use crate::import::{
    ase_blocks, ase_color_block, ase_signature, be16, be32, digits_value, gpl_entries, gpl_line,
    has_prefix, is_digit, parse_channel, spec_import_ase, spec_import_gpl, unsigned_digits,
    AseColor,
};
use crate::text::{
    decimal, digit_char, is_ws, lemma_lines_of_join, lemma_words_first, lemma_words_skip_ws,
    join_lines, lines, trim, trim_end, trim_start, words,
};

verus! {

/// The decimal numeral of `n` is a non-empty string of digits worth `n`.
pub proof fn lemma_decimal_digits(n: nat)
    ensures
        decimal(n).len() > 0,
        forall|i: int| 0 <= i < decimal(n).len() ==> is_digit(#[trigger] decimal(n)[i]),
        digits_value(decimal(n)) == n,
    decreases n,
{
    if n >= 10 {
        lemma_decimal_digits(n / 10);
        let d = decimal(n / 10);
        let c = digit_char(n % 10);
        assert(decimal(n) == d.push(c));
        assert(d.push(c).drop_last() =~= d);
        assert(c as u32 == 48 + n % 10);
        assert(digits_value(d.push(c)) == digits_value(d) * 10 + ((c as u32) - 48) as nat);
        assert((n / 10) * 10 + n % 10 == n);
        assert forall|i: int| 0 <= i < decimal(n).len() implies is_digit(#[trigger] decimal(n)[i]) by {
            if i < d.len() {
                assert(decimal(n)[i] == d[i]);
            }
        }
    } else {
        let c = digit_char(n);
        assert(decimal(n) == seq![c]);
        assert(seq![c].drop_last() =~= Seq::<char>::empty());
        assert(c as u32 == 48 + n);
        assert(seq![c].last() == c);
        assert(digits_value(Seq::<char>::empty()) == 0);
        assert(digits_value(seq![c]) == digits_value(seq![c].drop_last()) * 10 + ((seq![c].last() as u32) - 48) as nat);
    }
}

/// A channel written in decimal reads back as itself.
proof fn lemma_parse_decimal_channel(v: u8)
    ensures
        parse_channel(decimal(v as nat)) == Some(v),
{
    lemma_decimal_digits(v as nat);
    let d = decimal(v as nat);
    assert(is_digit(d[0]));
    assert(unsigned_digits(d) == d);
}

proof fn lemma_trim_start_skip(s: Seq<char>, k: int)
    requires
        0 <= k <= s.len(),
        forall|j: int| 0 <= j < k ==> is_ws(#[trigger] s[j]),
        k < s.len() ==> !is_ws(s[k]),
    ensures
        trim_start(s) == s.skip(k),
    decreases k,
{
    if k == 0 {
        assert(s.skip(0) =~= s);
    } else {
        assert forall|j: int| 0 <= j < k - 1 implies is_ws(#[trigger] s.drop_first()[j]) by {
            assert(s.drop_first()[j] == s[j + 1]);
        }
        lemma_trim_start_skip(s.drop_first(), k - 1);
        assert(s.drop_first().skip(k - 1) =~= s.skip(k));
    }
}

/// Trimming the end keeps everything up to a non-blank character.
proof fn lemma_trim_end_keeps(s: Seq<char>, m: int)
    requires
        0 < m <= s.len(),
        !is_ws(s[m - 1]),
    ensures
        trim_end(s).len() >= m,
        trim_end(s).take(m) == s.take(m),
    decreases s.len(),
{
    if s.len() > m && is_ws(s.last()) {
        lemma_trim_end_keeps(s.drop_last(), m);
        assert(s.drop_last().take(m) =~= s.take(m));
    }
}

proof fn lemma_trim_no_newline(s: Seq<char>)
    requires
        forall|i: int| 0 <= i < s.len() ==> s[i] != '\n',
    ensures
        forall|i: int| 0 <= i < trim(s).len() ==> trim(s)[i] != '\n',
{
    lemma_trim_start_no_newline(s);
    lemma_trim_end_no_newline(trim_start(s));
}

proof fn lemma_trim_start_no_newline(s: Seq<char>)
    requires
        forall|i: int| 0 <= i < s.len() ==> s[i] != '\n',
    ensures
        forall|i: int| 0 <= i < trim_start(s).len() ==> trim_start(s)[i] != '\n',
    decreases s.len(),
{
    if s.len() > 0 && is_ws(s[0]) {
        assert forall|i: int| 0 <= i < s.drop_first().len() implies s.drop_first()[i] != '\n' by {
            assert(s.drop_first()[i] == s[i + 1]);
        }
        lemma_trim_start_no_newline(s.drop_first());
        assert(trim_start(s) == trim_start(s.drop_first()));
    } else {
        assert(trim_start(s) == s);
    }
}

proof fn lemma_trim_end_no_newline(s: Seq<char>)
    requires
        forall|i: int| 0 <= i < s.len() ==> s[i] != '\n',
    ensures
        forall|i: int| 0 <= i < trim_end(s).len() ==> trim_end(s)[i] != '\n',
    decreases s.len(),
{
    if s.len() > 0 && is_ws(s.last()) {
        assert forall|i: int| 0 <= i < s.drop_last().len() implies s.drop_last()[i] != '\n' by {
            assert(s.drop_last()[i] == s[i]);
        }
        lemma_trim_end_no_newline(s.drop_last());
        assert(trim_end(s) == trim_end(s.drop_last()));
    } else {
        assert(trim_end(s) == s);
    }
}

/// Blanks, then a word, then a blank (or nothing): the word comes first.
proof fn lemma_words_pad(pre: Seq<char>, w: Seq<char>, post: Seq<char>)
    requires
        forall|j: int| 0 <= j < pre.len() ==> is_ws(#[trigger] pre[j]),
        w.len() > 0,
        forall|j: int| 0 <= j < w.len() ==> !is_ws(#[trigger] w[j]),
        post.len() > 0 ==> is_ws(post[0]),
    ensures
        words(pre + w + post) == seq![w] + words(post),
{
    let s = pre + w + post;
    assert forall|j: int| 0 <= j < pre.len() implies is_ws(#[trigger] s[j]) by {
        assert(s[j] == pre[j]);
    }
    lemma_words_skip_ws(s, pre.len() as int);
    let t = s.skip(pre.len() as int);
    assert(t =~= w + post);
    assert forall|j: int| 0 <= j < w.len() implies !is_ws(#[trigger] t[j]) by {
        assert(t[j] == w[j]);
    }
    lemma_words_first(t, w.len() as int);
    assert(t.take(w.len() as int) =~= w);
    assert(t.skip(w.len() as int) =~= post);
}

proof fn lemma_decimal_not_ws(n: nat)
    ensures
        decimal(n).len() > 0,
        forall|j: int| 0 <= j < decimal(n).len() ==> !is_ws(#[trigger] decimal(n)[j]),
        forall|j: int| 0 <= j < decimal(n).len() ==> #[trigger] decimal(n)[j] != '\n',
        forall|j: int|
            0 <= j < decimal(n).len() ==> 48 <= (#[trigger] decimal(n)[j]) as u32 <= 57,
{
    lemma_decimal_digits(n);
    assert forall|j: int| 0 <= j < decimal(n).len() implies 48 <= (#[trigger] decimal(
        n,
    )[j]) as u32 <= 57 by {
        assert(is_digit(decimal(n)[j]));
    }
}

/// Spaces are blank.
proof fn lemma_spaces_blank(n: nat)
    ensures
        forall|j: int| 0 <= j < n ==> is_ws(#[trigger] spaces(n)[j]),
        forall|j: int| 0 <= j < n ==> #[trigger] spaces(n)[j] != '\n',
{
}

/// A colour line of an exported GPL file reads back as its colour.
proof fn lemma_gpl_color_line_reads(i: int, c: Rgb8)
    requires
        i >= 0,
    ensures
        gpl_line(gpl_color_line(i, c)) == Some(Ok::<Rgb8, Seq<char>>(c)),
{
    reveal_strlit("Color ");
    reveal_strlit("Name:");
    reveal_strlit("Columns:");
    let dr = decimal(c.r as nat);
    let dg = decimal(c.g as nat);
    let db = decimal(c.b as nat);
    let di = decimal((i + 1) as nat);
    let pr = spaces((3 - dr.len()) as nat);
    let pg = spaces((3 - dg.len()) as nat);
    let pb = spaces((3 - db.len()) as nat);
    lemma_decimal_not_ws(c.r as nat);
    lemma_decimal_not_ws(c.g as nat);
    lemma_decimal_not_ws(c.b as nat);
    lemma_decimal_not_ws((i + 1) as nat);
    lemma_spaces_blank((3 - dr.len()) as nat);
    lemma_spaces_blank((3 - dg.len()) as nat);
    lemma_spaces_blank((3 - db.len()) as nat);
    let post3 = seq!['\t'] + "Color "@ + di;
    let post2 = seq![' '] + pb + db + post3;
    let post1 = seq![' '] + pg + dg + post2;
    let s = gpl_color_line(i, c);
    assert(s =~= pr + dr + post1);
    // words
    lemma_words_pad(pr, dr, post1);
    let pg2 = seq![' '] + pg;
    assert forall|j: int| 0 <= j < pg2.len() implies is_ws(#[trigger] pg2[j]) by {
        if j > 0 {
            assert(pg2[j] == pg[j - 1]);
        }
    }
    assert(post1 =~= pg2 + dg + post2);
    lemma_words_pad(pg2, dg, post2);
    let pb2 = seq![' '] + pb;
    assert forall|j: int| 0 <= j < pb2.len() implies is_ws(#[trigger] pb2[j]) by {
        if j > 0 {
            assert(pb2[j] == pb[j - 1]);
        }
    }
    assert(post2 =~= pb2 + db + post3);
    lemma_words_pad(pb2, db, post3);
    let ws_all = words(s);
    assert(ws_all =~= seq![dr, dg, db] + words(post3));
    // trimming
    assert forall|j: int| 0 <= j < pr.len() implies is_ws(#[trigger] s[j]) by {
        assert(s[j] == pr[j]);
    }
    assert(s[pr.len() as int] == dr[0]);
    lemma_trim_start_skip(s, pr.len() as int);
    let line = s.skip(pr.len() as int);
    assert(line.last() == di.last());
    assert(trim_end(line) == line);
    assert(trim(s) == line);
    assert(line[0] == dr[0]);
    assert(line.take(5)[0] == dr[0]);
    assert(!has_prefix(line, "Name:"@));
    assert(line.take(8)[0] == dr[0]);
    assert(!has_prefix(line, "Columns:"@));
    assert forall|j: int| 0 <= j < pr.len() implies is_ws(#[trigger] s[j]) by {
        assert(s[j] == pr[j]);
    }
    lemma_words_skip_ws(s, pr.len() as int);
    assert(words(line) == ws_all);
    lemma_parse_decimal_channel(c.r);
    lemma_parse_decimal_channel(c.g);
    lemma_parse_decimal_channel(c.b);
}

/// The colour lines of an exported GPL file, from position `k` on, read back
/// as the colours from position `k` on.
proof fn lemma_gpl_color_lines_read(palette: Seq<Rgb8>, k: int)
    requires
        0 <= k <= palette.len(),
    ensures
        gpl_entries(Seq::new(palette.len(), |i: int| gpl_color_line(i, palette[i])).skip(k))
            == Ok::<Seq<Rgb8>, Seq<char>>(palette.skip(k)),
    decreases palette.len() - k,
{
    let cl = Seq::new(palette.len(), |i: int| gpl_color_line(i, palette[i]));
    if k == palette.len() {
        assert(cl.skip(k).len() == 0);
        assert(palette.skip(k) =~= Seq::<Rgb8>::empty());
    } else {
        lemma_gpl_color_lines_read(palette, k + 1);
        lemma_gpl_color_line_reads(k, palette[k]);
        assert(cl.skip(k)[0] == gpl_color_line(k, palette[k]));
        assert(cl.skip(k).drop_first() =~= cl.skip(k + 1));
        assert(seq![palette[k]] + palette.skip(k + 1) =~= palette.skip(k));
    }
}

/// No line of an exported GPL file holds a line feed, and the last one is not
/// empty.
proof fn lemma_gpl_lines_shape(palette: Seq<Rgb8>, prefix: Seq<char>)
    requires
        forall|i: int| 0 <= i < prefix.len() ==> prefix[i] != '\n',
    ensures
        gpl_lines(palette, prefix).len() == palette.len() + 4,
        gpl_lines(palette, prefix).last().len() > 0,
        forall|i: int, j: int|
            0 <= i < gpl_lines(palette, prefix).len() && 0 <= j < gpl_lines(
                palette,
                prefix,
            )[i].len() ==> #[trigger] gpl_lines(palette, prefix)[i][j] != '\n',
{
    reveal_strlit("GIMP Palette");
    reveal_strlit("Name: ");
    reveal_strlit("Columns: 6");
    reveal_strlit("#");
    reveal_strlit("rustycolour");
    reveal_strlit("Color ");
    let ls = gpl_lines(palette, prefix);
    let name = name_or(prefix, "rustycolour"@);
    lemma_trim_no_newline(prefix);
    assert forall|j: int| 0 <= j < name.len() implies name[j] != '\n' by {
        if trim(prefix).len() == 0 {
            assert(name[j] == "rustycolour"@[j]);
        }
    }
    assert forall|i: int, j: int|
        0 <= i < ls.len() && 0 <= j < ls[i].len() implies #[trigger] ls[i][j] != '\n' by {
        if i >= 4 {
            let k = i - 4;
            let c = palette[k];
            assert(ls[i] == gpl_color_line(k, c));
            lemma_decimal_not_ws(c.r as nat);
            lemma_decimal_not_ws(c.g as nat);
            lemma_decimal_not_ws(c.b as nat);
            lemma_decimal_not_ws((k + 1) as nat);
            lemma_spaces_blank((3 - decimal(c.r as nat).len()) as nat);
            lemma_spaces_blank((3 - decimal(c.g as nat).len()) as nat);
            lemma_spaces_blank((3 - decimal(c.b as nat).len()) as nat);
        } else if i == 1 {
            let l1 = "Name: "@ + name;
            assert(ls[1] == l1);
            if j >= 6 {
                assert(l1[j] == name[j - 6]);
            }
        }
    }
    if palette.len() > 0 {
        assert(ls.last() == gpl_color_line(palette.len() - 1, palette[palette.len() - 1]));
        lemma_decimal_not_ws(palette.len() as nat);
    }
}

/// The header lines after the first are skipped by the reader.
proof fn lemma_gpl_header_skipped(prefix: Seq<char>)
    ensures
        gpl_line("Name: "@ + name_or(prefix, "rustycolour"@)) is None,
        gpl_line("Columns: 6"@) is None,
        gpl_line("#"@) is None,
        trim("GIMP Palette"@) == "GIMP Palette"@,
{
    reveal_strlit("GIMP Palette");
    reveal_strlit("Name: ");
    reveal_strlit("Name:");
    reveal_strlit("Columns: 6");
    reveal_strlit("Columns:");
    reveal_strlit("#");
    assert(trim_start("GIMP Palette"@) == "GIMP Palette"@);
    assert(trim_end("GIMP Palette"@) == "GIMP Palette"@);
    let l1 = "Name: "@ + name_or(prefix, "rustycolour"@);
    assert(l1[0] == 'N');
    assert(trim_start(l1) == l1);
    lemma_trim_end_keeps(l1, 5);
    assert(l1.take(5) =~= "Name:"@);
    assert(trim(l1).take(5) =~= "Name:"@);
    assert(trim_start("Columns: 6"@) == "Columns: 6"@);
    assert(trim_end("Columns: 6"@) == "Columns: 6"@);
    assert("Columns: 6"@.take(8) =~= "Columns:"@);
    assert(trim_start("#"@) == "#"@);
    assert(trim_end("#"@) == "#"@);
}

/// GPL round trip: reading back the GPL export of a palette gives its colours,
/// in order (and, for an empty palette, the error that no colours were found),
/// whenever the palette name holds no line feed.
pub proof fn gpl_round_trip(palette: Seq<Rgb8>, prefix: Seq<char>)
    requires
        forall|i: int| 0 <= i < prefix.len() ==> prefix[i] != '\n',
    ensures
        spec_import_gpl(spec_export_palette(palette, ExportFormat::Gpl, prefix)) == if palette.len()
            == 0 {
            Err::<Seq<Rgb8>, Seq<char>>("No colors found in GPL file"@)
        } else {
            Ok(palette)
        },
{
    let ls = gpl_lines(palette, prefix);
    let cl = Seq::new(palette.len(), |i: int| gpl_color_line(i, palette[i]));
    lemma_gpl_lines_shape(palette, prefix);
    lemma_lines_of_join(ls);
    lemma_gpl_header_skipped(prefix);
    let t0 = ls.drop_first();
    assert(t0[0] == "Name: "@ + name_or(prefix, "rustycolour"@));
    let t1 = t0.drop_first();
    assert(t1[0] == "Columns: 6"@);
    let t2 = t1.drop_first();
    assert(t2[0] == "#"@);
    let t3 = t2.drop_first();
    assert(t3 =~= cl.skip(0));
    lemma_gpl_color_lines_read(palette, 0);
    assert(palette.skip(0) =~= palette);
    assert(gpl_entries(t0) == gpl_entries(t1));
    assert(gpl_entries(t1) == gpl_entries(t2));
    assert(gpl_entries(t2) == gpl_entries(t3));
    assert(ls[0] == "GIMP Palette"@);
}


proof fn lemma_be16_of(v: nat)
    requires
        v < 0x10000,
    ensures
        be16(u16_be(v), 0) == v,
{
    assert(u16_be(v)[0] == (v / 256) as u8);
    assert(u16_be(v)[1] == (v % 256) as u8);
}

proof fn lemma_be32_of(v: nat)
    requires
        v < 0x100000000,
    ensures
        be32(u32_be(v), 0) == v,
{
    let b = u32_be(v);
    assert(b[0] as nat == v / 0x1000000);
    assert(b[1] as nat == (v / 0x10000) % 256);
    assert(b[2] as nat == (v / 256) % 256);
    assert(b[3] as nat == v % 256);
    assert((((v / 0x1000000) * 256 + (v / 0x10000) % 256) * 256 + (v / 256) % 256) * 256 + v
        % 256 == v) by (nonlinear_arith)
        requires
            v < 0x100000000,
    ;
}

/// The blocks `k..j` are block `k` followed by the blocks `k + 1..j`.
proof fn lemma_framed_between_front(chs: Seq<(u32, u32, u32)>, k: int, j: int)
    requires
        k < j,
    ensures
        ase_framed_between(chs, k, j) == ase_framed(k, chs[k]) + ase_framed_between(
            chs,
            k + 1,
            j,
        ),
    decreases j - k,
{
    if j == k + 1 {
        assert(ase_framed_between(chs, k, k) =~= Seq::<u8>::empty());
        assert(ase_framed_between(chs, k + 1, j) =~= Seq::<u8>::empty());
        assert(ase_framed_between(chs, k, j) =~= ase_framed(k, chs[k]));
    } else {
        lemma_framed_between_front(chs, k, j - 1);
        assert(ase_framed_between(chs, k, j) =~= ase_framed(k, chs[k]) + ase_framed_between(
            chs,
            k + 1,
            j,
        ));
    }
}

/// The `RGB ` model bytes decode to the model name `RGB`.
proof fn lemma_rgb_model_text()
    ensures
        valid_utf8(rgb_model()),
        trim(decode_utf8(rgb_model())) == "RGB"@,
        "RGB"@ != "Gray"@,
        "RGB"@ != "CMYK"@,
{
    reveal_strlit("RGB ");
    reveal_strlit("RGB");
    reveal_strlit("Gray");
    reveal_strlit("CMYK");
    let t = "RGB "@;
    assert(is_ascii_chars(t));
    is_ascii_chars_encode_utf8(t);
    assert(encode_utf8(t) =~= rgb_model());
    encode_utf8_valid_utf8(t);
    encode_utf8_decode_utf8(t);
    assert(trim_start(t) == t);
    assert(t.drop_last() =~= "RGB"@);
    assert(trim_end(t) == trim_end(t.drop_last()));
    assert(trim_end("RGB"@) == "RGB"@);
    assert("RGB"@.len() != "Gray"@.len());
    assert("RGB"@[0] != "CMYK"@[0]);
}

/// A colour entry block written by the exporter reads back as its RGB channels.
proof fn lemma_ase_entry_reads(i: int, c: (u32, u32, u32))
    requires
        0 <= i < 0x100000000,
    ensures
        ase_color_block(ase_entry(i, c)) == Ok::<Option<AseColor>, Seq<char>>(
            Some(AseColor::Rgb { r: c.0, g: c.1, b: c.2 }),
        ),
        ase_entry(i, c).len() < 100,
{
    reveal_strlit("Color ");
    let name = ase_entry_name(i);
    reveal_with_fuel(pow10, 21);
    lemma_decimal_len_bound((i + 1) as nat, 20);
    lemma_ascii_utf16_len(name);
    let u = name.len() + 1;
    let e = ase_entry(i, c);
    lemma_be16_of(u);
    assert(e[0] == u16_be(u)[0] && e[1] == u16_be(u)[1]);
    let p: int = 2 + 2 * (u as int);
    assert(be16(e, 0) == u);
    assert(e.subrange(p, p + 4) =~= rgb_model());
    lemma_rgb_model_text();
    let q = p + 4;
    lemma_be32_of(c.0 as nat);
    lemma_be32_of(c.1 as nat);
    lemma_be32_of(c.2 as nat);
    assert(e.subrange(q, q + 4) =~= u32_be(c.0 as nat));
    assert(e.subrange(q + 4, q + 8) =~= u32_be(c.1 as nat));
    assert(e.subrange(q + 8, q + 12) =~= u32_be(c.2 as nat));
    assert(be32(e, q) == be32(e.subrange(q, q + 4), 0));
    assert(be32(e, q + 4) == be32(e.subrange(q + 4, q + 8), 0));
    assert(be32(e, q + 8) == be32(e.subrange(q + 8, q + 12), 0));
}

/// One colour entry block in front of the rest of the blocks.
proof fn lemma_ase_blocks_step(e: Seq<u8>, rest: Seq<u8>, count: nat, c: AseColor)
    requires
        e.len() < 0x100000000,
        ase_color_block(e) == Ok::<Option<AseColor>, Seq<char>>(Some(c)),
        count >= 1,
    ensures
        ase_blocks(u16_be(1) + u32_be(e.len() as nat) + e + rest, count) == match ase_blocks(
            rest,
            (count - 1) as nat,
        ) {
            Ok(cs) => Ok(seq![c] + cs),
            Err(err) => Err(err),
        },
{
    let d = u16_be(1) + u32_be(e.len() as nat) + e + rest;
    lemma_be16_of(1);
    lemma_be32_of(e.len() as nat);
    assert(d.subrange(0, 2) =~= u16_be(1));
    assert(d.subrange(2, 6) =~= u32_be(e.len() as nat));
    assert(be16(d, 0) == be16(d.subrange(0, 2), 0));
    assert(be32(d, 2) == be32(d.subrange(2, 6), 0));
    assert(d.subrange(6, 6 + e.len() as int) =~= e);
    assert(d.skip(6 + e.len() as int) =~= rest);
}

/// The blocks from position `k` on read back as the RGB channels from `k` on.
proof fn lemma_ase_blocks_read(chs: Seq<(u32, u32, u32)>, k: int)
    requires
        0 <= k <= chs.len(),
        chs.len() <= u32::MAX,
    ensures
        ase_blocks(ase_framed_between(chs, k, chs.len() as int), (chs.len() - k) as nat) == Ok::<
            Seq<AseColor>,
            Seq<char>,
        >(
            Seq::new(
                chs.len(),
                |i: int| AseColor::Rgb { r: chs[i].0, g: chs[i].1, b: chs[i].2 },
            ).skip(k),
        ),
    decreases chs.len() - k,
{
    let target = Seq::new(
        chs.len(),
        |i: int| AseColor::Rgb { r: chs[i].0, g: chs[i].1, b: chs[i].2 },
    );
    let n = chs.len() as int;
    if k == n {
        assert(target.skip(k) =~= Seq::<AseColor>::empty());
    } else {
        lemma_ase_blocks_read(chs, k + 1);
        lemma_framed_between_front(chs, k, n);
        let e = ase_entry(k, chs[k]);
        lemma_ase_entry_reads(k, chs[k]);
        let rest = ase_framed_between(chs, k + 1, n);
        assert(ase_framed(k, chs[k]) + rest == u16_be(1) + u32_be(e.len() as nat) + e + rest);
        lemma_ase_blocks_step(e, rest, (n - k) as nat, target[k]);
        assert(seq![target[k]] + target.skip(k + 1) =~= target.skip(k));
    }
}

/// ASE round trip: reading back the ASE export of a non-empty palette (of at
/// most `u32::MAX` colours) gives one RGB entry per colour, with the same
/// channel bit patterns, in order.
pub proof fn ase_round_trip(chs: Seq<(u32, u32, u32)>)
    requires
        0 < chs.len() <= u32::MAX,
    ensures
        spec_export_ase(chs) is Ok,
        spec_import_ase(spec_export_ase(chs)->Ok_0) == Ok::<Seq<AseColor>, Seq<char>>(
            Seq::new(chs.len(), |i: int| AseColor::Rgb { r: chs[i].0, g: chs[i].1, b: chs[i].2 }),
        ),
{
    let n = chs.len() as int;
    let body = ase_framed_between(chs, 0, n);
    let bytes = ase_signature() + u16_be(1) + u16_be(0) + u32_be((chs.len() as u32) as nat) + body;
    assert(spec_export_ase(chs) == Ok::<Seq<u8>, Seq<char>>(bytes));
    assert(bytes.take(4) =~= ase_signature());
    lemma_be32_of(n as nat);
    assert(bytes.subrange(8, 12) =~= u32_be(n as nat));
    assert(be32(bytes, 8) == be32(bytes.subrange(8, 12), 0));
    assert(bytes.skip(12) =~= body);
    lemma_ase_blocks_read(chs, 0);
    let target = Seq::new(
        chs.len(),
        |i: int| AseColor::Rgb { r: chs[i].0, g: chs[i].1, b: chs[i].2 },
    );
    assert(target.skip(0) =~= target);
}


// ---------------------------------------------------------------------------
// Line-per-colour text exports

/// Joining two non-empty runs of lines puts a line feed between their joins.
proof fn lemma_join_lines_concat(a: Seq<Seq<char>>, b: Seq<Seq<char>>)
    requires
        a.len() >= 1,
        b.len() >= 1,
    ensures
        join_lines(a + b) == join_lines(a) + seq!['\n'] + join_lines(b),
    decreases a.len(),
{
    assert((a + b)[0] == a[0]);
    if a.len() == 1 {
        assert((a + b).drop_first() =~= b);
        assert(join_lines(a) == a[0]);
    } else {
        lemma_join_lines_concat(a.drop_first(), b);
        assert((a + b).drop_first() =~= a.drop_first() + b);
        assert(a[0] + seq!['\n'] + (join_lines(a.drop_first()) + seq!['\n'] + join_lines(b))
            =~= a[0] + seq!['\n'] + join_lines(a.drop_first()) + seq!['\n'] + join_lines(b));
    }
}

/// The line of one colour in a line-per-colour export.
pub open spec fn color_line(format: ExportFormat, prefix: Seq<char>, i: int, c: Rgb8) -> Seq<char> {
    match format {
        ExportFormat::HexList => spec_hex_rgb(c),
        ExportFormat::RgbList => rgb_line(c),
        _ => css_line(name_or(prefix, "color"@), i, c),
    }
}

pub open spec fn is_line_per_color(format: ExportFormat) -> bool {
    format == ExportFormat::HexList || format == ExportFormat::RgbList || format
        == ExportFormat::CssVariables
}

proof fn lemma_line_export_is_join(palette: Seq<Rgb8>, format: ExportFormat, prefix: Seq<char>)
    requires
        is_line_per_color(format),
    ensures
        spec_export_palette(palette, format, prefix) == join_lines(
            Seq::new(palette.len(), |i: int| color_line(format, prefix, i, palette[i])),
        ),
{
    let ls = Seq::new(palette.len(), |i: int| color_line(format, prefix, i, palette[i]));
    match format {
        ExportFormat::HexList => {
            assert(ls =~= Seq::new(palette.len(), |i: int| spec_hex_rgb(palette[i])));
        },
        ExportFormat::RgbList => {
            assert(ls =~= Seq::new(palette.len(), |i: int| rgb_line(palette[i])));
        },
        _ => {
            assert(ls =~= Seq::new(
                palette.len(),
                |i: int| css_line(name_or(prefix, "color"@), i, palette[i]),
            ));
        },
    }
}

/// List concatenation: the HEX or RGB list of two non-empty palettes put one
/// after the other is the list of the first, a line feed, and the list of the
/// second; the list of an empty palette is empty text.
pub proof fn list_export_concat(p: Seq<Rgb8>, q: Seq<Rgb8>, format: ExportFormat, prefix: Seq<char>)
    requires
        format == ExportFormat::HexList || format == ExportFormat::RgbList,
        p.len() > 0,
        q.len() > 0,
    ensures
        spec_export_palette(p + q, format, prefix) == spec_export_palette(p, format, prefix)
            + seq!['\n'] + spec_export_palette(q, format, prefix),
        spec_export_palette(Seq::<Rgb8>::empty(), format, prefix) == Seq::<char>::empty(),
{
    let pq = p + q;
    lemma_line_export_is_join(pq, format, prefix);
    lemma_line_export_is_join(p, format, prefix);
    lemma_line_export_is_join(q, format, prefix);
    lemma_line_export_is_join(Seq::<Rgb8>::empty(), format, prefix);
    let lp = Seq::new(p.len(), |i: int| color_line(format, prefix, i, p[i]));
    let lq = Seq::new(q.len(), |i: int| color_line(format, prefix, i, q[i]));
    let lpq = Seq::new(pq.len(), |i: int| color_line(format, prefix, i, pq[i]));
    assert(lpq =~= lp + lq);
    lemma_join_lines_concat(lp, lq);
    assert(Seq::new(0, |i: int| color_line(format, prefix, i, Seq::<Rgb8>::empty()[i]))
        =~= Seq::<Seq<char>>::empty());
}

proof fn lemma_hex_rgb_shape(c: Rgb8)
    ensures
        spec_hex_rgb(c).len() > 0,
        forall|j: int| 0 <= j < spec_hex_rgb(c).len() ==> #[trigger] spec_hex_rgb(c)[j] != '\n',
{
    let s = spec_hex_rgb(c);
    assert forall|j: int| 0 <= j < s.len() implies #[trigger] s[j] != '\n' by {
        if j > 0 {
            assert((s[j] as u32) >= 48);
        }
    }
}

/// Line count: a non-empty palette's HEX list, RGB list or CSS variables
/// (under a prefix without line feed) is one line per colour, the line of
/// that colour.
pub proof fn line_export_one_line_per_color(
    palette: Seq<Rgb8>,
    format: ExportFormat,
    prefix: Seq<char>,
)
    requires
        is_line_per_color(format),
        palette.len() > 0,
        forall|i: int| 0 <= i < prefix.len() ==> prefix[i] != '\n',
    ensures
        lines(spec_export_palette(palette, format, prefix)).len() == palette.len(),
        forall|i: int|
            0 <= i < palette.len() ==> #[trigger] lines(spec_export_palette(palette, format, prefix))[i]
                == color_line(format, prefix, i, palette[i]),
{
    reveal_strlit("rgb(");
    reveal_strlit(", ");
    reveal_strlit(")");
    reveal_strlit("--");
    reveal_strlit("-");
    reveal_strlit(": ");
    reveal_strlit(";");
    reveal_strlit("color");
    lemma_line_export_is_join(palette, format, prefix);
    let ls = Seq::new(palette.len(), |i: int| color_line(format, prefix, i, palette[i]));
    let name = name_or(prefix, "color"@);
    lemma_trim_no_newline(prefix);
    assert forall|j: int| 0 <= j < name.len() implies name[j] != '\n' by {
        if trim(prefix).len() == 0 {
            assert(name[j] == "color"@[j]);
        }
    }
    assert forall|i: int, j: int|
        0 <= i < ls.len() && 0 <= j < ls[i].len() implies #[trigger] ls[i][j] != '\n' by {
        let c = palette[i];
        lemma_hex_rgb_shape(c);
        lemma_decimal_not_ws(c.r as nat);
        lemma_decimal_not_ws(c.g as nat);
        lemma_decimal_not_ws(c.b as nat);
        lemma_decimal_not_ws((i + 1) as nat);
        if format == ExportFormat::CssVariables {
            let d = decimal((i + 1) as nat);
            let h = spec_hex_rgb(c);
            let l = css_line(name, i, c);
            assert(l =~= "--"@ + name + "-"@ + d + ": "@ + h + ";"@);
            let k = j - 2;
            if 0 <= k < name.len() {
                assert(l[j] == name[k]);
            }
            let k2 = j - 3 - name.len();
            if 0 <= k2 < d.len() {
                assert(l[j] == d[k2]);
            }
            let k3 = j - 5 - name.len() - d.len();
            if 0 <= k3 < h.len() {
                assert(l[j] == h[k3]);
            }
        } else if format == ExportFormat::RgbList {
            let dr = decimal(c.r as nat);
            let dg = decimal(c.g as nat);
            let db = decimal(c.b as nat);
            let l = rgb_line(c);
            let k = j - 4;
            if 0 <= k < dr.len() {
                assert(l[j] == dr[k]);
            }
            let k2 = j - 6 - dr.len();
            if 0 <= k2 < dg.len() {
                assert(l[j] == dg[k2]);
            }
            let k3 = j - 8 - dr.len() - dg.len();
            if 0 <= k3 < db.len() {
                assert(l[j] == db[k3]);
            }
        }
    }
    let last = palette.len() - 1;
    lemma_hex_rgb_shape(palette[last]);
    assert(ls.last().len() > 0);
    lemma_lines_of_join(ls);
}

/// ASE entry names: the entry at position `i` (counted from 0) of an exported
/// ASE file is named `Color ` followed by decimal digits worth `i + 1`, so the
/// entries of one file have pairwise distinct names.
pub proof fn ase_entry_names_count_from_one(i: int, j: int)
    requires
        0 <= i,
        0 <= j,
    ensures
        ase_entry_name(i).len() > 6,
        ase_entry_name(i).take(6) == "Color "@,
        forall|k: int| 6 <= k < ase_entry_name(i).len() ==> is_digit(#[trigger] ase_entry_name(i)[k]),
        digits_value(ase_entry_name(i).skip(6)) == i + 1,
        i != j ==> ase_entry_name(i) != ase_entry_name(j),
{
    reveal_strlit("Color ");
    let a = ase_entry_name(i);
    let b = ase_entry_name(j);
    lemma_decimal_digits((i + 1) as nat);
    lemma_decimal_digits((j + 1) as nat);
    assert(a.take(6) =~= "Color "@);
    assert(a.skip(6) =~= decimal((i + 1) as nat));
    assert(b.skip(6) =~= decimal((j + 1) as nat));
    assert forall|k: int| 6 <= k < a.len() implies is_digit(#[trigger] a[k]) by {
        assert(a[k] == decimal((i + 1) as nat)[k - 6]);
    }
}

} // verus!
