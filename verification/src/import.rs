use vstd::prelude::*;
use vstd::slice::slice_subrange;
use vstd::utf8::{decode_utf8, valid_utf8};
use crate::color::Rgb8;
use crate::text::{
    chars_of, lemma_lines_step, line_end, lines, next_word, push_chars, push_str, trim,
    trim_bounds, words,
};

verus! {

// ---------------------------------------------------------------------------
// GIMP palette (GPL) text

pub open spec fn is_digit(c: char) -> bool {
    48 <= c as u32 <= 57
}

/// Value of a string of decimal digits (0 for the empty string).
pub open spec fn digits_value(d: Seq<char>) -> nat
    decreases d.len(),
{
    if d.len() == 0 {
        0
    } else {
        digits_value(d.drop_last()) * 10 + ((d.last() as u32) - 48) as nat
    }
}

/// The digits of an unsigned number: a leading `+` sign is allowed.
pub open spec fn unsigned_digits(t: Seq<char>) -> Seq<char> {
    if t.len() > 0 && t[0] == '+' {
        t.drop_first()
    } else {
        t
    }
}

/// A colour channel as GPL writes it: `str::parse::<u16>` (an optional `+`,
/// then one or more decimal digits) and at most 255.
pub open spec fn parse_channel(t: Seq<char>) -> Option<u8> {
    let d = unsigned_digits(t);
    if d.len() > 0 && (forall|i: int| 0 <= i < d.len() ==> is_digit(#[trigger] d[i]))
        && digits_value(d) <= 255 {
        Some(digits_value(d) as u8)
    } else {
        None
    }
}

pub open spec fn has_prefix(s: Seq<char>, p: Seq<char>) -> bool {
    p.len() <= s.len() && s.take(p.len() as int) == p
}

/// What one line after the header contributes: nothing (`None`: blank lines,
/// comments, `Name:` and `Columns:` lines, and lines of fewer than three
/// words), a colour from its first three words, or the error for the first of
/// those words that is not a channel value.
pub open spec fn gpl_line(raw: Seq<char>) -> Option<Result<Rgb8, Seq<char>>> {
    let line = trim(raw);
    if line.len() == 0 || line[0] == '#' || has_prefix(line, "Name:"@) || has_prefix(
        line,
        "Columns:"@,
    ) {
        None
    } else {
        let ws = words(line);
        if ws.len() < 3 {
            None
        } else if parse_channel(ws[0]) is None {
            Some(Err("Invalid red channel in line: "@ + line))
        } else if parse_channel(ws[1]) is None {
            Some(Err("Invalid green channel in line: "@ + line))
        } else if parse_channel(ws[2]) is None {
            Some(Err("Invalid blue channel in line: "@ + line))
        } else {
            Some(
                Ok(
                    Rgb8 {
                        r: parse_channel(ws[0]).unwrap(),
                        g: parse_channel(ws[1]).unwrap(),
                        b: parse_channel(ws[2]).unwrap(),
                    },
                ),
            )
        }
    }
}

/// The colours of the lines, in order, or the error of the first bad line.
pub open spec fn gpl_entries(ls: Seq<Seq<char>>) -> Result<Seq<Rgb8>, Seq<char>>
    decreases ls.len(),
{
    if ls.len() == 0 {
        Ok(seq![])
    } else {
        match gpl_line(ls[0]) {
            None => gpl_entries(ls.drop_first()),
            Some(Err(e)) => Err(e),
            Some(Ok(c)) => match gpl_entries(ls.drop_first()) {
                Ok(cs) => Ok(seq![c] + cs),
                Err(e) => Err(e),
            },
        }
    }
}

/// A GPL file: a `GIMP Palette` header line, then at least one colour line.
pub open spec fn spec_import_gpl(content: Seq<char>) -> Result<Seq<Rgb8>, Seq<char>> {
    let ls = lines(content);
    if ls.len() == 0 {
        Err("GPL file is empty"@)
    } else if trim(ls[0]) != "GIMP Palette"@ {
        Err("Invalid GPL header: expected 'GIMP Palette'"@)
    } else {
        match gpl_entries(ls.drop_first()) {
            Err(e) => Err(e),
            Ok(cs) => if cs.len() == 0 {
                Err("No colors found in GPL file"@)
            } else {
                Ok(cs)
            },
        }
    }
}

pub open spec fn prepend_colors(cs: Seq<Rgb8>, r: Result<Seq<Rgb8>, Seq<char>>) -> Result<
    Seq<Rgb8>,
    Seq<char>,
> {
    match r {
        Ok(x) => Ok(cs + x),
        Err(e) => Err(e),
    }
}

/// An executable result agrees with a specified one.
pub open spec fn vec_result_is<T>(res: Result<Vec<T>, String>, spec: Result<Seq<T>, Seq<char>>) -> bool {
    match (res, spec) {
        (Ok(v), Ok(s)) => v@ == s,
        (Err(e), Err(s)) => e@ == s,
        _ => false,
    }
}

fn owned(s: &str) -> (res: String)
    ensures
        res@ == s@,
{
    s.to_owned()
}

/// `v[lo..hi] == lit`.
fn range_equals(v: &Vec<char>, lo: usize, hi: usize, lit: &Vec<char>) -> (res: bool)
    requires
        lo <= hi <= v.len(),
    ensures
        res == (v@.subrange(lo as int, hi as int) == lit@),
{
    if hi - lo != lit.len() {
        return false;
    }
    let mut i: usize = 0;
    while i < lit.len()
        invariant
            hi - lo == lit.len(),
            lo <= hi <= v.len(),
            0 <= i <= lit.len(),
            forall|j: int| 0 <= j < i ==> v@[lo + j] == lit@[j],
        decreases lit.len() - i,
    {
        if v[lo + i] != lit[i] {
            assert(v@.subrange(lo as int, hi as int)[i as int] != lit@[i as int]);
            return false;
        }
        i += 1;
    }
    assert(v@.subrange(lo as int, hi as int) =~= lit@);
    true
}

/// `v[lo..hi]` starts with `lit`.
fn range_starts_with(v: &Vec<char>, lo: usize, hi: usize, lit: &Vec<char>) -> (res: bool)
    requires
        lo <= hi <= v.len(),
    ensures
        res == has_prefix(v@.subrange(lo as int, hi as int), lit@),
{
    if hi - lo < lit.len() {
        return false;
    }
    let r = range_equals(v, lo, lo + lit.len(), lit);
    assert(v@.subrange(lo as int, hi as int).take(lit.len() as int) =~= v@.subrange(
        lo as int,
        lo + lit.len(),
    ));
    r
}

proof fn lemma_digits_value_push(d: Seq<char>, c: char)
    ensures
        digits_value(d.push(c)) == digits_value(d) * 10 + ((c as u32) - 48) as nat,
{
    assert(d.push(c).drop_last() =~= d);
}

/// The channel value written in `v[lo..hi]`.
fn parse_channel_at(v: &Vec<char>, lo: usize, hi: usize) -> (res: Option<u8>)
    requires
        lo <= hi <= v.len(),
    ensures
        res == parse_channel(v@.subrange(lo as int, hi as int)),
{
    let ghost t = v@.subrange(lo as int, hi as int);
    let start = if lo < hi && v[lo] == '+' {
        lo + 1
    } else {
        lo
    };
    let ghost d = unsigned_digits(t);
    assert(d =~= v@.subrange(start as int, hi as int));
    if start == hi {
        return None;
    }
    let mut value: u32 = 0;
    let mut i = start;
    while i < hi
        invariant
            start <= i <= hi <= v.len(),
            d == v@.subrange(start as int, hi as int),
            d == unsigned_digits(t),
            t == v@.subrange(lo as int, hi as int),
            forall|j: int| start <= j < i ==> is_digit(#[trigger] v@[j]),
            value <= 256,
            value == 256 ==> digits_value(v@.subrange(start as int, i as int)) >= 256,
            value < 256 ==> value == digits_value(v@.subrange(start as int, i as int)),
        decreases hi - i,
    {
        let c = v[i];
        if !((c as u32) >= 48 && (c as u32) <= 57) {
            assert(d[i - start] == c);
            assert(!is_digit(d[i - start]));
            return None;
        }
        let digit = (c as u32) - 48;
        proof {
            assert(v@.subrange(start as int, i + 1) =~= v@.subrange(start as int, i as int).push(
                c,
            ));
            lemma_digits_value_push(v@.subrange(start as int, i as int), c);
        }
        if value < 256 {
            value = value * 10 + digit;
            if value > 256 {
                value = 256;
            }
        }
        i += 1;
    }
    assert(v@.subrange(start as int, i as int) =~= d);
    assert forall|j: int| 0 <= j < d.len() implies is_digit(#[trigger] d[j]) by {
        assert(d[j] == v@[start + j]);
    }
    if value <= 255 {
        Some(value as u8)
    } else {
        None
    }
}

/// `prefix` followed by `v[lo..hi]`.
fn message_with(prefix: &str, v: &Vec<char>, lo: usize, hi: usize) -> (res: String)
    requires
        lo <= hi <= v.len(),
    ensures
        res@ == prefix@ + v@.subrange(lo as int, hi as int),
{
    let mut out = String::new();
    push_str(&mut out, prefix);
    push_chars(&mut out, v, lo, hi);
    out
}

enum LineOutcome {
    Skip,
    Entry(Rgb8),
    Invalid(String),
}

spec fn outcome_is(res: LineOutcome, spec: Option<Result<Rgb8, Seq<char>>>) -> bool {
    match (res, spec) {
        (LineOutcome::Skip, None) => true,
        (LineOutcome::Entry(c), Some(Ok(d))) => c == d,
        (LineOutcome::Invalid(e), Some(Err(d))) => e@ == d,
        _ => false,
    }
}

/// The contribution of the line `v[lo..hi]`.
fn gpl_line_at(
    v: &Vec<char>,
    lo: usize,
    hi: usize,
    name_lit: &Vec<char>,
    columns_lit: &Vec<char>,
) -> (res: LineOutcome)
    requires
        lo <= hi <= v.len(),
        name_lit@ == "Name:"@,
        columns_lit@ == "Columns:"@,
    ensures
        outcome_is(res, gpl_line(v@.subrange(lo as int, hi as int))),
{
    let (a, b) = trim_bounds(v, lo, hi);
    let ghost line = v@.subrange(a as int, b as int);
    if a == b || v[a] == '#' || range_starts_with(v, a, b, name_lit) || range_starts_with(
        v,
        a,
        b,
        columns_lit,
    ) {
        return LineOutcome::Skip;
    }
    let (s0, e0) = next_word(v, a, b);
    if s0 == b {
        return LineOutcome::Skip;
    }
    let (s1, e1) = next_word(v, e0, b);
    if s1 == b {
        assert(words(line) =~= seq![v@.subrange(s0 as int, e0 as int)]);
        return LineOutcome::Skip;
    }
    let (s2, e2) = next_word(v, e1, b);
    if s2 == b {
        assert(words(line) =~= seq![
            v@.subrange(s0 as int, e0 as int),
            v@.subrange(s1 as int, e1 as int),
        ]);
        return LineOutcome::Skip;
    }
    let ghost ws = words(line);
    assert(ws[0] == v@.subrange(s0 as int, e0 as int));
    assert(ws[1] == v@.subrange(s1 as int, e1 as int));
    assert(ws[2] == v@.subrange(s2 as int, e2 as int));
    let r = match parse_channel_at(v, s0, e0) {
        Some(r) => r,
        None => {
            return LineOutcome::Invalid(message_with("Invalid red channel in line: ", v, a, b));
        },
    };
    let g = match parse_channel_at(v, s1, e1) {
        Some(g) => g,
        None => {
            return LineOutcome::Invalid(message_with("Invalid green channel in line: ", v, a, b));
        },
    };
    let bl = match parse_channel_at(v, s2, e2) {
        Some(bl) => bl,
        None => {
            return LineOutcome::Invalid(message_with("Invalid blue channel in line: ", v, a, b));
        },
    };
    LineOutcome::Entry(Rgb8 { r, g, b: bl })
}

/// Reads a GIMP palette: the first line must be `GIMP Palette`; every later
/// line that is not blank, a `#` comment, a `Name:` or a `Columns:` line and
/// that has at least three words gives one colour from its first three words.
pub fn import_gpl(content: &str) -> (res: Result<Vec<Rgb8>, String>)
    ensures
        vec_result_is(res, spec_import_gpl(content@)),
        res is Ok ==> res->Ok_0.len() > 0,
{
    let v = chars_of(content);
    let n = v.len();
    if n == 0 {
        assert(lines(content@) =~= Seq::<Seq<char>>::empty());
        return Err(owned("GPL file is empty"));
    }
    let e0 = line_end(&v, 0);
    proof {
        assert(v@.skip(0) =~= v@);
        lemma_lines_step(v@, 0, e0 as int);
    }
    let mut pos = if e0 < n {
        e0 + 1
    } else {
        n
    };
    let ghost ls = lines(v@);
    assert(ls[0] == v@.subrange(0, e0 as int));
    assert(ls.drop_first() =~= lines(v@.skip(pos as int)));
    let (a, b) = trim_bounds(&v, 0, e0);
    let header = chars_of("GIMP Palette");
    if !range_equals(&v, a, b, &header) {
        return Err(owned("Invalid GPL header: expected 'GIMP Palette'"));
    }
    let name_lit = chars_of("Name:");
    let columns_lit = chars_of("Columns:");
    let mut colors: Vec<Rgb8> = Vec::new();
    assert(colors@ + Seq::<Rgb8>::empty() =~= colors@);
    while pos < n
        invariant
            pos <= n == v.len(),
            v@ == content@,
            ls == lines(content@),
            ls.len() > 0,
            trim(ls[0]) == "GIMP Palette"@,
            name_lit@ == "Name:"@,
            columns_lit@ == "Columns:"@,
            gpl_entries(ls.drop_first()) == prepend_colors(
                colors@,
                gpl_entries(lines(v@.skip(pos as int))),
            ),
        decreases n - pos,
    {
        let e = line_end(&v, pos);
        let next = if e < n {
            e + 1
        } else {
            n
        };
        let ghost line = v@.subrange(pos as int, e as int);
        let ghost rest = lines(v@.skip(next as int));
        proof {
            lemma_lines_step(v@, pos as int, e as int);
            assert((seq![line] + rest)[0] == line);
            assert((seq![line] + rest).drop_first() =~= rest);
        }
        match gpl_line_at(&v, pos, e, &name_lit, &columns_lit) {
            LineOutcome::Skip => {},
            LineOutcome::Entry(c) => {
                let ghost before = colors@;
                colors.push(c);
                proof {
                    match gpl_entries(rest) {
                        Ok(x) => {
                            assert(before + (seq![c] + x) =~= colors@ + x);
                        },
                        Err(_) => {},
                    }
                }
            },
            LineOutcome::Invalid(msg) => {
                assert(gpl_entries(seq![line] + rest) == Err::<Seq<Rgb8>, Seq<char>>(msg@));
                assert(gpl_entries(ls.drop_first()) == Err::<Seq<Rgb8>, Seq<char>>(msg@));
                return Err(msg);
            },
        }
        pos = next;
    }
    assert(v@.skip(pos as int).len() == 0);
    assert(lines(v@.skip(pos as int)) =~= Seq::<Seq<char>>::empty());
    assert(colors@ + Seq::<Rgb8>::empty() =~= colors@);
    if colors.len() == 0 {
        return Err(owned("No colors found in GPL file"));
    }
    Ok(colors)
}


// ---------------------------------------------------------------------------
// Adobe Swatch Exchange (ASE) bytes

/// A colour entry of an ASE file. The channels are IEEE 754 single-precision
/// values, carried as their bit patterns (the file stores them big-endian);
/// turning them into numbers, clamping them to [0, 1] and mixing CMYK into RGB
/// is floating-point work done by the caller.
#[derive(Debug, Clone, Copy, PartialEq, Eq, Structural)]
pub enum AseColor {
    Rgb { r: u32, g: u32, b: u32 },
    Gray { v: u32 },
    Cmyk { c: u32, m: u32, y: u32, k: u32 },
}

/// A big-endian 16-bit number at position `i`.
pub open spec fn be16(b: Seq<u8>, i: int) -> nat {
    (b[i] as nat) * 256 + (b[i + 1] as nat)
}

/// A big-endian 32-bit number at position `i`.
pub open spec fn be32(b: Seq<u8>, i: int) -> nat {
    (((b[i] as nat) * 256 + (b[i + 1] as nat)) * 256 + (b[i + 2] as nat)) * 256 + (
    b[i + 3] as nat)
}

pub open spec fn eof_message() -> Seq<char> {
    "Unexpected end of file"@
}

/// The bytes `ASEF`.
pub open spec fn ase_signature() -> Seq<u8> {
    seq![0x41u8, 0x53u8, 0x45u8, 0x46u8]
}

/// A colour entry block: a UTF-16 name (its length in code units, then the
/// units), a four-byte colour model, the channels of that model, and a colour
/// type. Models other than RGB, Gray and CMYK give no colour.
pub open spec fn ase_color_block(d: Seq<u8>) -> Result<Option<AseColor>, Seq<char>> {
    if d.len() < 2 {
        Err(eof_message())
    } else {
        let p: int = 2 + 2 * (be16(d, 0) as int);
        if d.len() < p + 4 {
            Err(eof_message())
        } else if !valid_utf8(d.subrange(p, p + 4)) {
            Err("Invalid ASE color model bytes"@)
        } else {
            let m = trim(decode_utf8(d.subrange(p, p + 4)));
            let q: int = p + 4;
            let channels: int = if m == "RGB"@ {
                3
            } else if m == "Gray"@ {
                1
            } else if m == "CMYK"@ {
                4
            } else {
                0
            };
            if d.len() < q + 4 * channels + 2 {
                Err(eof_message())
            } else if m == "RGB"@ {
                Ok(
                    Some(
                        AseColor::Rgb {
                            r: be32(d, q) as u32,
                            g: be32(d, q + 4) as u32,
                            b: be32(d, q + 8) as u32,
                        },
                    ),
                )
            } else if m == "Gray"@ {
                Ok(Some(AseColor::Gray { v: be32(d, q) as u32 }))
            } else if m == "CMYK"@ {
                Ok(
                    Some(
                        AseColor::Cmyk {
                            c: be32(d, q) as u32,
                            m: be32(d, q + 4) as u32,
                            y: be32(d, q + 8) as u32,
                            k: be32(d, q + 12) as u32,
                        },
                    ),
                )
            } else {
                Ok(None)
            }
        }
    }
}

/// `count` blocks, each a 16-bit type, a 32-bit length and that many bytes;
/// the colours of the colour entry blocks (type 1), in order.
pub open spec fn ase_blocks(d: Seq<u8>, count: nat) -> Result<Seq<AseColor>, Seq<char>>
    decreases count,
{
    if count == 0 {
        Ok(seq![])
    } else if d.len() < 6 {
        Err(eof_message())
    } else if d.len() < 6 + be32(d, 2) {
        Err(eof_message())
    } else {
        let n: int = be32(d, 2) as int;
        let block = d.subrange(6, 6 + n);
        let rest = d.skip(6 + n);
        if be16(d, 0) == 1 {
            match ase_color_block(block) {
                Err(e) => Err(e),
                Ok(Some(c)) => match ase_blocks(rest, (count - 1) as nat) {
                    Ok(cs) => Ok(seq![c] + cs),
                    Err(e) => Err(e),
                },
                Ok(None) => ase_blocks(rest, (count - 1) as nat),
            }
        } else {
            ase_blocks(rest, (count - 1) as nat)
        }
    }
}

/// An ASE file: `ASEF`, a 16-bit major and minor version, a 32-bit block
/// count, then the blocks; at least one colour is required.
pub open spec fn spec_import_ase(bytes: Seq<u8>) -> Result<Seq<AseColor>, Seq<char>> {
    if bytes.len() < 4 {
        Err(eof_message())
    } else if bytes.take(4) != ase_signature() {
        Err("Invalid ASE header: expected 'ASEF'"@)
    } else if bytes.len() < 12 {
        Err(eof_message())
    } else {
        match ase_blocks(bytes.skip(12), be32(bytes, 8)) {
            Err(e) => Err(e),
            Ok(cs) => if cs.len() == 0 {
                Err("No importable colors found in ASE file"@)
            } else {
                Ok(cs)
            },
        }
    }
}

/// A cursor over a byte slice, reading big-endian fields.
pub struct ByteReader<'a> {
    data: &'a [u8],
    cursor: usize,
}

impl<'a> ByteReader<'a> {
    #[verifier::type_invariant]
    spec fn cursor_in_bounds(self) -> bool {
        self.cursor <= self.data@.len()
    }

    /// The bytes read from.
    pub closed spec fn data(self) -> Seq<u8> {
        self.data@
    }

    /// How many bytes have been read.
    pub closed spec fn position(self) -> nat {
        self.cursor as nat
    }

    /// The bytes not read yet.
    pub closed spec fn rest(self) -> Seq<u8> {
        self.data@.skip(self.cursor as int)
    }

    /// The unread bytes are the data after the position.
    pub proof fn lemma_rest_after_position(self)
        ensures
            self.rest() == self.data().skip(self.position() as int),
    {
    }

    pub fn new(data: &'a [u8]) -> (r: Self)
        ensures
            r.data() == data@,
            r.position() == 0,
            r.rest() == data@,
    {
        let r = ByteReader { data, cursor: 0 };
        assert(data@.skip(0) =~= data@);
        r
    }

    /// The next `len` bytes, or the end-of-file error when fewer are left
    /// (nothing is consumed then). The data read from never changes.
    pub fn read_exact(&mut self, len: usize) -> (res: Result<&'a [u8], String>)
        ensures
            final(self).data() == old(self).data(),
            final(self).position() <= final(self).data().len(),
            old(self).rest().len() < len ==> res is Err && res->Err_0@ == eof_message()
                && final(self).rest() == old(self).rest() && final(self).position()
                == old(self).position(),
            old(self).rest().len() >= len ==> res is Ok && res->Ok_0@ == old(self).rest().take(
                len as int,
            ) && res->Ok_0@ == old(self).data().subrange(
                old(self).position() as int,
                old(self).position() + len,
            ) && final(self).rest() == old(self).rest().skip(len as int) && final(self).position()
                == old(self).position() + len,
    {
        proof {
            use_type_invariant(&*self);
        }
        if len > self.data.len() - self.cursor {
            return Err(owned("Unexpected end of file"));
        }
        let start = self.cursor;
        self.cursor = self.cursor + len;
        let out = slice_subrange(self.data, start, start + len);
        assert(out@ =~= self.data@.skip(start as int).take(len as int));
        assert(self.data@.skip(self.cursor as int) =~= self.data@.skip(start as int).skip(
            len as int,
        ));
        Ok(out)
    }

    pub fn read_u16_be(&mut self) -> (res: Result<u16, String>)
        ensures
            final(self).data() == old(self).data(),
            final(self).position() <= final(self).data().len(),
            old(self).rest().len() < 2 ==> res is Err && res->Err_0@ == eof_message()
                && final(self).rest() == old(self).rest() && final(self).position()
                == old(self).position(),
            old(self).rest().len() >= 2 ==> res is Ok && res->Ok_0 == be16(old(self).rest(), 0)
                && final(self).rest() == old(self).rest().skip(2) && final(self).position()
                == old(self).position() + 2,
    {
        let bytes = self.read_exact(2)?;
        Ok((bytes[0] as u16) * 256 + (bytes[1] as u16))
    }

    pub fn read_u32_be(&mut self) -> (res: Result<u32, String>)
        ensures
            final(self).data() == old(self).data(),
            final(self).position() <= final(self).data().len(),
            old(self).rest().len() < 4 ==> res is Err && res->Err_0@ == eof_message()
                && final(self).rest() == old(self).rest() && final(self).position()
                == old(self).position(),
            old(self).rest().len() >= 4 ==> res is Ok && res->Ok_0 == be32(old(self).rest(), 0)
                && final(self).rest() == old(self).rest().skip(4) && final(self).position()
                == old(self).position() + 4,
    {
        let bytes = self.read_exact(4)?;
        let hi = (bytes[0] as u32) * 256 + (bytes[1] as u32);
        let mid = hi * 256 + (bytes[2] as u32);
        assert(mid < 0x1000000);
        Ok(mid * 256 + (bytes[3] as u32))
    }

    /// The bit pattern of a big-endian IEEE 754 single-precision value.
    pub fn read_f32_bits_be(&mut self) -> (res: Result<u32, String>)
        ensures
            final(self).data() == old(self).data(),
            final(self).position() <= final(self).data().len(),
            old(self).rest().len() < 4 ==> res is Err && res->Err_0@ == eof_message()
                && final(self).rest() == old(self).rest() && final(self).position()
                == old(self).position(),
            old(self).rest().len() >= 4 ==> res is Ok && res->Ok_0 == be32(old(self).rest(), 0)
                && final(self).rest() == old(self).rest().skip(4) && final(self).position()
                == old(self).position() + 4,
    {
        self.read_u32_be()
    }
}

/// `std::str::from_utf8`: the text the bytes encode when they are valid UTF-8.
#[verifier::external_body]
fn str_from_utf8(bytes: &[u8]) -> (res: Option<&str>)
    ensures
        res is Some <==> valid_utf8(bytes@),
        res is Some ==> res->0@ == decode_utf8(bytes@),
{
    std::str::from_utf8(bytes).ok()
}


pub open spec fn block_result_is(
    res: Result<Option<AseColor>, String>,
    spec: Result<Option<AseColor>, Seq<char>>,
) -> bool {
    match (res, spec) {
        (Ok(c), Ok(d)) => c == d,
        (Err(e), Err(d)) => e@ == d,
        _ => false,
    }
}

/// The colour of one colour entry block.
#[verifier::rlimit(40)]
fn parse_ase_color_block(data: &[u8]) -> (res: Result<Option<AseColor>, String>)
    ensures
        block_result_is(res, ase_color_block(data@)),
{
    let ghost d = data@;
    let mut reader = ByteReader::new(data);
    let name_len = reader.read_u16_be()?;
    let ghost p: int = 2 + 2 * (name_len as int);
    // The name is carried along but not used.
    match reader.read_exact(2 * (name_len as usize)) {
        Ok(_) => {},
        Err(e) => {
            return Err(e);
        },
    }
    assert(reader.rest() =~= d.skip(p));
    let model = match reader.read_exact(4) {
        Ok(m) => m,
        Err(e) => {
            return Err(e);
        },
    };
    assert(model@ =~= d.subrange(p, p + 4));
    assert(reader.rest() =~= d.skip(p + 4));
    let text = match str_from_utf8(model) {
        Some(t) => t,
        None => {
            return Err(owned("Invalid ASE color model bytes"));
        },
    };
    let chars = chars_of(text);
    let (a, b) = trim_bounds(&chars, 0, chars.len());
    assert(chars@.subrange(0, chars@.len() as int) =~= chars@);
    let ghost m = trim(decode_utf8(d.subrange(p, p + 4)));
    assert(chars@.subrange(a as int, b as int) == m);
    let rgb = chars_of("RGB");
    let gray = chars_of("Gray");
    let cmyk = chars_of("CMYK");
    let ghost q: int = p + 4;
    let color = if range_equals(&chars, a, b, &rgb) {
        let r = reader.read_f32_bits_be()?;
        let g = reader.read_f32_bits_be()?;
        let bl = reader.read_f32_bits_be()?;
        assert(r == be32(d, q) && g == be32(d, q + 4) && bl == be32(d, q + 8));
        Some(AseColor::Rgb { r, g, b: bl })
    } else if range_equals(&chars, a, b, &gray) {
        let v = reader.read_f32_bits_be()?;
        assert(v == be32(d, q));
        Some(AseColor::Gray { v })
    } else if range_equals(&chars, a, b, &cmyk) {
        let c = reader.read_f32_bits_be()?;
        let mm = reader.read_f32_bits_be()?;
        let y = reader.read_f32_bits_be()?;
        let k = reader.read_f32_bits_be()?;
        assert(c == be32(d, q) && mm == be32(d, q + 4) && y == be32(d, q + 8) && k == be32(
            d,
            q + 12,
        ));
        Some(AseColor::Cmyk { c, m: mm, y, k })
    } else {
        None
    };
    let _color_type = reader.read_u16_be()?;
    Ok(color)
}

/// Reads an ASE file: the `ASEF` signature, versions and block count, then the
/// blocks; every colour entry block with an RGB, Gray or CMYK model gives a
/// colour.
#[verifier::rlimit(40)]
pub fn import_ase(bytes: &[u8]) -> (res: Result<Vec<AseColor>, String>)
    ensures
        vec_result_is(res, spec_import_ase(bytes@)),
        res is Ok ==> res->Ok_0.len() > 0,
{
    let ghost d = bytes@;
    let mut reader = ByteReader::new(bytes);
    let signature = reader.read_exact(4)?;
    if !(signature[0] == 0x41 && signature[1] == 0x53 && signature[2] == 0x45 && signature[3]
        == 0x46) {
        assert(signature@ != ase_signature());
        return Err(owned("Invalid ASE header: expected 'ASEF'"));
    }
    assert(signature@ =~= ase_signature());
    let _major = reader.read_u16_be()?;
    let _minor = reader.read_u16_be()?;
    let block_count = reader.read_u32_be()?;
    assert(reader.rest() =~= d.skip(12));
    assert(block_count == be32(d, 8));
    let ghost total = ase_blocks(d.skip(12), be32(d, 8));
    let mut colors: Vec<AseColor> = Vec::new();
    let mut i: u32 = 0;
    assert(colors@ + Seq::<AseColor>::empty() =~= colors@);
    while i < block_count
        invariant
            i <= block_count,
            d == bytes@,
            total == ase_blocks(d.skip(12), be32(d, 8)),
            block_count == be32(d, 8),
            d.len() >= 12,
            d.take(4) == ase_signature(),
            total == prepend_results(colors@, ase_blocks(reader.rest(), (block_count - i) as nat)),
        decreases block_count - i,
    {
        let ghost r = reader.rest();
        let ghost remaining = (block_count - i) as nat;
        let block_type = match reader.read_u16_be() {
            Ok(t) => t,
            Err(e) => {
                assert(ase_blocks(r, remaining) == Err::<Seq<AseColor>, Seq<char>>(eof_message()));
                return Err(e);
            },
        };
        let block_len = match reader.read_u32_be() {
            Ok(n) => n,
            Err(e) => {
                assert(r.len() < 6);
                assert(ase_blocks(r, remaining) == Err::<Seq<AseColor>, Seq<char>>(eof_message()));
                return Err(e);
            },
        };
        assert(block_len == be32(r, 2));
        let block = match reader.read_exact(block_len as usize) {
            Ok(b) => b,
            Err(e) => {
                assert(r.len() < 6 + be32(r, 2));
                assert(ase_blocks(r, remaining) == Err::<Seq<AseColor>, Seq<char>>(eof_message()));
                return Err(e);
            },
        };
        let ghost n: int = block_len as int;
        assert(block@ =~= r.subrange(6, 6 + n));
        assert(reader.rest() =~= r.skip(6 + n));
        if block_type == 1 {
            match parse_ase_color_block(block) {
                Ok(Some(c)) => {
                    let ghost before = colors@;
                    colors.push(c);
                    proof {
                        match ase_blocks(reader.rest(), (remaining - 1) as nat) {
                            Ok(x) => {
                                assert(before + (seq![c] + x) =~= colors@ + x);
                            },
                            Err(_) => {},
                        }
                    }
                },
                Ok(None) => {},
                Err(e) => {
                    assert(ase_blocks(r, remaining) == Err::<Seq<AseColor>, Seq<char>>(e@));
                    return Err(e);
                },
            }
        }
        i += 1;
    }
    assert(colors@ + Seq::<AseColor>::empty() =~= colors@);
    if colors.len() == 0 {
        return Err(owned("No importable colors found in ASE file"));
    }
    Ok(colors)
}

pub open spec fn prepend_results<T>(cs: Seq<T>, r: Result<Seq<T>, Seq<char>>) -> Result<
    Seq<T>,
    Seq<char>,
> {
    match r {
        Ok(x) => Ok(cs + x),
        Err(e) => Err(e),
    }
}

} // verus!
