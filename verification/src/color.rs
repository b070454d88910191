use vstd::prelude::*;
use vstd::utf8::{
    encode_utf8, encode_utf8_valid_utf8, is_ascii_chars, is_ascii_chars_encode_utf8,
    is_char_boundary, is_char_boundary_iff_not_is_continuation_byte,
};
use crate::text::{chars_of, is_ws, push_str, trim, trim_bounds, trim_end, trim_start};

verus! {

/// An sRGB colour with 8 bits per channel: the form in which the palette
/// formats, the hex notation and the text exporters carry colours.
#[derive(Debug, Clone, Copy, PartialEq, Eq, Hash, Structural)]
pub struct Rgb8 {
    pub r: u8,
    pub g: u8,
    pub b: u8,
}

/// An upper-case hexadecimal digit (`d < 16`).
pub open spec fn hex_digit_upper(d: nat) -> char {
    if d < 10 {
        (48 + d) as char
    } else {
        (55 + d) as char
    }
}

/// `format!("{:02X}", v)`: two upper-case hexadecimal digits.
pub open spec fn hex_byte(v: u8) -> Seq<char> {
    seq![hex_digit_upper((v / 16) as nat), hex_digit_upper((v % 16) as nat)]
}

/// `#RRGGBB` in upper case.
pub open spec fn spec_hex_rgb(c: Rgb8) -> Seq<char> {
    seq!['#'] + hex_byte(c.r) + hex_byte(c.g) + hex_byte(c.b)
}

/// Value of a hexadecimal digit of either case.
pub open spec fn hex_value(c: char) -> Option<nat> {
    let u = c as u32;
    if 48 <= u <= 57 {
        Some((u - 48) as nat)
    } else if 97 <= u <= 102 {
        Some((u - 87) as nat)
    } else if 65 <= u <= 70 {
        Some((u - 55) as nat)
    } else {
        None
    }
}

/// `u8::from_str_radix(_, 16)` on a two-character string: two digits, or a
/// `+` sign and one digit.
pub open spec fn hex_pair(a: char, b: char) -> Option<u8> {
    if hex_value(a) is Some && hex_value(b) is Some {
        Some((16 * hex_value(a).unwrap() + hex_value(b).unwrap()) as u8)
    } else if a == '+' && hex_value(b) is Some {
        Some(hex_value(b).unwrap() as u8)
    } else {
        None
    }
}

/// `str::trim_start_matches('#')`: drops every leading `#`.
pub open spec fn strip_hashes(s: Seq<char>) -> Seq<char>
    decreases s.len(),
{
    if s.len() > 0 && s[0] == '#' {
        strip_hashes(s.drop_first())
    } else {
        s
    }
}

/// What is left of a hex colour notation once blanks and leading `#`s are gone.
pub open spec fn hex_body(value: Seq<char>) -> Seq<char> {
    strip_hashes(trim(value))
}

/// The colour that a `#RRGGBB` notation names: after trimming and dropping
/// leading `#`s, exactly six characters in three two-character hexadecimal
/// numbers.
pub open spec fn spec_from_hex_rgb(value: Seq<char>) -> Option<Rgb8> {
    let h = hex_body(value);
    if h.len() == 6 {
        match (hex_pair(h[0], h[1]), hex_pair(h[2], h[3]), hex_pair(h[4], h[5])) {
            (Some(r), Some(g), Some(b)) => Some(Rgb8 { r, g, b }),
            _ => None,
        }
    } else {
        None
    }
}

/// The notation can be cut into two-byte pieces: when the body is six bytes of
/// UTF-8, the cuts at bytes 2 and 4 fall between characters. (Otherwise the
/// byte-indexed slicing of the notation would panic.)
pub open spec fn hex_slicing_safe(value: Seq<char>) -> bool {
    let bytes = encode_utf8(hex_body(value));
    bytes.len() == 6 ==> is_char_boundary(bytes, 2) && is_char_boundary(bytes, 4)
}

fn hex_digit_value(c: char) -> (res: Option<u8>)
    ensures
        res is Some <==> hex_value(c) is Some,
        res is Some ==> res.unwrap() == hex_value(c).unwrap(),
{
    let u = c as u32;
    if 48 <= u && u <= 57 {
        Some((u - 48) as u8)
    } else if 97 <= u && u <= 102 {
        Some((u - 87) as u8)
    } else if 65 <= u && u <= 70 {
        Some((u - 55) as u8)
    } else {
        None
    }
}

fn parse_hex_pair(a: char, b: char) -> (res: Option<u8>)
    ensures
        res == hex_pair(a, b),
{
    match (hex_digit_value(a), hex_digit_value(b)) {
        (Some(x), Some(y)) => Some(16 * x + y),
        (None, Some(y)) => {
            if a == '+' {
                Some(y)
            } else {
                None
            }
        },
        _ => None,
    }
}

fn hex_digit_char(d: u8) -> (c: char)
    requires
        d < 16,
    ensures
        c == hex_digit_upper(d as nat),
{
    if d < 10 {
        (d + 48) as char
    } else {
        (d + 55) as char
    }
}

fn push_hex_byte(out: &mut String, v: u8)
    ensures
        final(out)@ == old(out)@ + hex_byte(v),
{
    let hi = hex_digit_char(v / 16);
    let lo = hex_digit_char(v % 16);
    crate::text::push_char(out, hi);
    crate::text::push_char(out, lo);
    assert(old(out)@.push(hi).push(lo) =~= old(out)@ + hex_byte(v));
}

impl Rgb8 {
    pub fn new(r: u8, g: u8, b: u8) -> (c: Rgb8)
        ensures
            c == (Rgb8 { r, g, b }),
    {
        Rgb8 { r, g, b }
    }

    /// `#RRGGBB` notation in upper case.
    pub fn to_hex_rgb(&self) -> (res: String)
        ensures
            res@ == spec_hex_rgb(*self),
    {
        let mut out = String::new();
        push_str(&mut out, "#");
        proof {
            reveal_strlit("#");
        }
        push_hex_byte(&mut out, self.r);
        push_hex_byte(&mut out, self.g);
        push_hex_byte(&mut out, self.b);
        assert(out@ =~= spec_hex_rgb(*self));
        out
    }

    /// Reads `#RRGGBB` notation (blanks around it and any number of leading
    /// `#`s are accepted; digits of either case).
    pub fn from_hex_rgb(value: &str) -> (res: Option<Rgb8>)
        requires
            hex_slicing_safe(value@),
        ensures
            res == spec_from_hex_rgb(value@),
    {
        let v = chars_of(value);
        let (lo, hi) = trim_bounds(&v, 0, v.len());
        assert(v@.subrange(0, v@.len() as int) =~= value@);
        let mut i = lo;
        while i < hi && v[i] == '#'
            invariant
                lo <= i <= hi <= v.len(),
                hex_body(value@) == strip_hashes(v@.subrange(i as int, hi as int)),
            decreases hi - i,
        {
            assert(v@.subrange(i as int, hi as int).drop_first() =~= v@.subrange(
                i + 1,
                hi as int,
            ));
            i += 1;
        }
        let ghost h = v@.subrange(i as int, hi as int);
        assert(hex_body(value@) == h);
        if hi - i != 6 {
            return None;
        }
        let r = parse_hex_pair(v[i], v[i + 1]);
        let g = parse_hex_pair(v[i + 2], v[i + 3]);
        let b = parse_hex_pair(v[i + 4], v[i + 5]);
        assert(h[0] == v@[i as int] && h[1] == v@[i + 1] && h[2] == v@[i + 2]);
        assert(h[3] == v@[i + 3] && h[4] == v@[i + 4] && h[5] == v@[i + 5]);
        match (r, g, b) {
            (Some(r), Some(g), Some(b)) => Some(Rgb8 { r, g, b }),
            _ => None,
        }
    }
}

/// A sequence whose first and last characters are not blank is its own trim.
pub proof fn lemma_trim_unchanged(s: Seq<char>)
    requires
        s.len() > 0,
        !is_ws(s[0]),
        !is_ws(s.last()),
    ensures
        trim(s) == s,
{
    assert(trim_start(s) == s);
    assert(trim_end(s) == s);
}

/// Hex round trip: reading back the hex notation of a colour gives the
/// colour (and the notation is in the domain of the reader).
pub proof fn hex_round_trip(c: Rgb8)
    ensures
        spec_from_hex_rgb(spec_hex_rgb(c)) == Some(c),
        hex_slicing_safe(spec_hex_rgb(c)),
{
    let s = spec_hex_rgb(c);
    let h = hex_byte(c.r) + hex_byte(c.g) + hex_byte(c.b);
    assert(s =~= seq!['#'] + h);
    lemma_trim_unchanged(s);
    assert(s.drop_first() =~= h);
    assert(strip_hashes(h) == h);
    assert(hex_body(s) == h);
    assert(16 * (c.r / 16) + c.r % 16 == c.r);
    assert(16 * (c.g / 16) + c.g % 16 == c.g);
    assert(16 * (c.b / 16) + c.b % 16 == c.b);
    assert(is_ascii_chars(h)) by {
        assert forall|i: int| 0 <= i < h.len() implies '\0' <= #[trigger] h[i] <= '\u{7f}' by {
            assert((h[i] as u32) < 71);
        }
    }
    is_ascii_chars_encode_utf8(h);
    encode_utf8_valid_utf8(h);
    is_char_boundary_iff_not_is_continuation_byte(encode_utf8(h), 2);
    is_char_boundary_iff_not_is_continuation_byte(encode_utf8(h), 4);
}

/// ASCII lower case of a character: `A`–`Z` become `a`–`z`.
pub open spec fn ascii_lower(c: char) -> char {
    if 65 <= c as u32 <= 90 {
        ((c as u32) + 32) as char
    } else {
        c
    }
}

/// ASCII lower case of a string.
pub open spec fn ascii_lower_str(s: Seq<char>) -> Seq<char> {
    s.map_values(|c: char| ascii_lower(c))
}

/// Hexadecimal digits of either case: for every digit value `d < 16`, both
/// the upper-case and the lower-case digit character are worth `d`
/// (`'0'`–`'9'`, then `'A'`–`'F'` and `'a'`–`'f'` for 10 to 15).
pub proof fn hex_digits_of_either_case(d: nat)
    requires
        d < 16,
    ensures
        d < 10 ==> hex_value(((48 + d) as u32) as char) == Some(d),
        d >= 10 ==> hex_value(((65 + d - 10) as u32) as char) == Some(d),
        d >= 10 ==> hex_value(((97 + d - 10) as u32) as char) == Some(d),
{
}

/// Lower-case hex round trip: reading the lower-case form of the `#RRGGBB`
/// notation of a colour gives the colour (and that form is in the domain of
/// the reader), so `#ffffff` names white just as `#FFFFFF` does.
pub proof fn hex_round_trip_lower_case(c: Rgb8)
    ensures
        spec_from_hex_rgb(ascii_lower_str(spec_hex_rgb(c))) == Some(c),
        hex_slicing_safe(ascii_lower_str(spec_hex_rgb(c))),
{
    let s = ascii_lower_str(spec_hex_rgb(c));
    let lr = ascii_lower_str(hex_byte(c.r));
    let lg = ascii_lower_str(hex_byte(c.g));
    let lb = ascii_lower_str(hex_byte(c.b));
    let h = lr + lg + lb;
    assert(s =~= seq!['#'] + h);
    assert forall|i: int| 0 <= i < h.len() implies 48 <= (#[trigger] h[i]) as u32 <= 102 by {
        if i < 2 {
            assert(h[i] == lr[i]);
        } else if i < 4 {
            assert(h[i] == lg[i - 2]);
        } else {
            assert(h[i] == lb[i - 4]);
        }
    }
    assert(!is_ws(s.last()));
    lemma_trim_unchanged(s);
    assert(s.drop_first() =~= h);
    assert(strip_hashes(h) == h);
    assert(hex_body(s) == h);
    lemma_lower_hex_byte(c.r);
    lemma_lower_hex_byte(c.g);
    lemma_lower_hex_byte(c.b);
    assert(h[0] == lr[0] && h[1] == lr[1] && h[2] == lg[0] && h[3] == lg[1]);
    assert(h[4] == lb[0] && h[5] == lb[1]);
    assert(is_ascii_chars(h)) by {
        assert forall|i: int| 0 <= i < h.len() implies '\0' <= #[trigger] h[i] <= '\u{7f}' by {
            assert((h[i] as u32) <= 102);
        }
    }
    is_ascii_chars_encode_utf8(h);
    encode_utf8_valid_utf8(h);
    is_char_boundary_iff_not_is_continuation_byte(encode_utf8(h), 2);
    is_char_boundary_iff_not_is_continuation_byte(encode_utf8(h), 4);
}

/// The lower-case form of two hex digits reads back as the byte.
proof fn lemma_lower_hex_byte(v: u8)
    ensures
        ascii_lower_str(hex_byte(v)).len() == 2,
        hex_pair(ascii_lower_str(hex_byte(v))[0], ascii_lower_str(hex_byte(v))[1]) == Some(v),
        48 <= ascii_lower_str(hex_byte(v))[0] as u32 <= 102,
        48 <= ascii_lower_str(hex_byte(v))[1] as u32 <= 102,
{
    let hi = (v / 16) as nat;
    let lo = (v % 16) as nat;
    lemma_lower_hex_digit(hi);
    lemma_lower_hex_digit(lo);
    assert(16 * (v / 16) + v % 16 == v);
}

/// The lower-case form of an upper-case hex digit is a digit of the same value.
proof fn lemma_lower_hex_digit(d: nat)
    requires
        d < 16,
    ensures
        hex_value(ascii_lower(hex_digit_upper(d))) == Some(d),
        48 <= ascii_lower(hex_digit_upper(d)) as u32 <= 102,
{
}

} // verus!
