use vstd::prelude::*;

verus! {

/// The Unicode `White_Space` property: exactly the characters that
/// `char::is_whitespace`, `str::trim` and `str::split_whitespace` treat as blank.
pub open spec fn is_ws(c: char) -> bool {
    let u = c as u32;
    ||| 0x09 <= u <= 0x0D
    ||| u == 0x20
    ||| u == 0x85
    ||| u == 0xA0
    ||| u == 0x1680
    ||| 0x2000 <= u <= 0x200A
    ||| u == 0x2028
    ||| u == 0x2029
    ||| u == 0x202F
    ||| u == 0x205F
    ||| u == 0x3000
}

pub fn is_whitespace(c: char) -> (res: bool)
    ensures
        res == is_ws(c),
{
    let u = c as u32;
    (0x09 <= u && u <= 0x0D) || u == 0x20 || u == 0x85 || u == 0xA0 || u == 0x1680 || (0x2000
        <= u && u <= 0x200A) || u == 0x2028 || u == 0x2029 || u == 0x202F || u == 0x205F || u
        == 0x3000
}

/// The characters of a string slice, in order.
pub fn chars_of(s: &str) -> (res: Vec<char>)
    ensures
        res@ == s@,
{
    let mut res: Vec<char> = Vec::new();
    for c in iter: s.chars()
        invariant
            res@ == iter.seq().take(iter.index() as int),
    {
        res.push(c);
    }
    res
}

/// `String::push`: appends one character to the end of the string.
#[verifier::external_body]
pub(crate) fn push_char(s: &mut String, c: char)
    ensures
        final(s)@ == old(s)@.push(c),
{
    s.push(c);
}

/// Appends `v[lo..hi]` to `out`.
pub(crate) fn push_chars(out: &mut String, v: &Vec<char>, lo: usize, hi: usize)
    requires
        lo <= hi <= v.len(),
    ensures
        final(out)@ == old(out)@ + v@.subrange(lo as int, hi as int),
{
    let mut i = lo;
    while i < hi
        invariant
            lo <= i <= hi <= v.len(),
            out@ == old(out)@ + v@.subrange(lo as int, i as int),
        decreases hi - i,
    {
        push_char(out, v[i]);
        i += 1;
        assert(v@.subrange(lo as int, i as int) =~= v@.subrange(lo as int, i - 1).push(
            v@[i - 1],
        ));
    }
}

/// Appends a string slice to `out`.
pub fn push_str(out: &mut String, s: &str)
    ensures
        final(out)@ == old(out)@ + s@,
{
    let v = chars_of(s);
    push_chars(out, &v, 0, v.len());
    assert(v@.subrange(0, v@.len() as int) =~= v@);
}

// ---------------------------------------------------------------------------
// Trimming

/// `str::trim_start`: drops leading blank characters.
pub open spec fn trim_start(s: Seq<char>) -> Seq<char>
    decreases s.len(),
{
    if s.len() > 0 && is_ws(s[0]) {
        trim_start(s.drop_first())
    } else {
        s
    }
}

/// `str::trim_end`: drops trailing blank characters.
pub open spec fn trim_end(s: Seq<char>) -> Seq<char>
    decreases s.len(),
{
    if s.len() > 0 && is_ws(s.last()) {
        trim_end(s.drop_last())
    } else {
        s
    }
}

/// `str::trim`: drops leading and trailing blank characters.
pub open spec fn trim(s: Seq<char>) -> Seq<char> {
    trim_end(trim_start(s))
}

/// The bounds of the trimmed part of `v[lo..hi]`.
pub fn trim_bounds(v: &Vec<char>, lo: usize, hi: usize) -> (res: (usize, usize))
    requires
        lo <= hi <= v.len(),
    ensures
        lo <= res.0 <= res.1 <= hi,
        v@.subrange(res.0 as int, res.1 as int) == trim(v@.subrange(lo as int, hi as int)),
{
    let mut i = lo;
    while i < hi && is_whitespace(v[i])
        invariant
            lo <= i <= hi <= v.len(),
            trim_start(v@.subrange(lo as int, hi as int)) == trim_start(
                v@.subrange(i as int, hi as int),
            ),
        decreases hi - i,
    {
        assert(v@.subrange(i as int, hi as int).drop_first() =~= v@.subrange(i + 1, hi as int));
        i += 1;
    }
    assert(trim_start(v@.subrange(i as int, hi as int)) == v@.subrange(i as int, hi as int));
    let mut j = hi;
    while j > i && is_whitespace(v[j - 1])
        invariant
            lo <= i <= j <= hi <= v.len(),
            trim(v@.subrange(lo as int, hi as int)) == trim_end(v@.subrange(i as int, j as int)),
        decreases j - i,
    {
        assert(v@.subrange(i as int, j as int).drop_last() =~= v@.subrange(i as int, j - 1));
        j -= 1;
    }
    (i, j)
}

// ---------------------------------------------------------------------------
// Lines

/// Number of characters before the first line feed (all of them when there is none).
pub open spec fn line_len(s: Seq<char>) -> nat
    decreases s.len(),
{
    if s.len() == 0 {
        0
    } else if s[0] == '\n' {
        0
    } else {
        1 + line_len(s.drop_first())
    }
}

pub proof fn lemma_line_len_bound(s: Seq<char>)
    ensures
        line_len(s) <= s.len(),
        line_len(s) < s.len() ==> s[line_len(s) as int] == '\n',
        forall|j: int| 0 <= j < line_len(s) ==> s[j] != '\n',
    decreases s.len(),
{
    if s.len() > 0 && s[0] != '\n' {
        lemma_line_len_bound(s.drop_first());
        assert forall|j: int| 0 <= j < line_len(s) implies s[j] != '\n' by {
            if j > 0 {
                assert(s[j] == s.drop_first()[j - 1]);
            }
        }
    }
}

/// A position `k` with no line feed before it and a line feed (or the end) at it is the line length.
pub proof fn lemma_line_len_at(s: Seq<char>, k: int)
    requires
        0 <= k <= s.len(),
        forall|j: int| 0 <= j < k ==> s[j] != '\n',
        k < s.len() ==> s[k] == '\n',
    ensures
        line_len(s) == k,
    decreases k,
{
    if k > 0 {
        assert forall|j: int| 0 <= j < k - 1 implies s.drop_first()[j] != '\n' by {
            assert(s.drop_first()[j] == s[j + 1]);
        }
        lemma_line_len_at(s.drop_first(), k - 1);
    }
}

/// `str::lines`, up to the carriage return that `lines` strips from a
/// "\r\n" ending: the pieces between line feeds, with no empty piece after a
/// final line feed. (Every caller trims the lines, which removes that
/// carriage return in both readings.)
pub open spec fn lines(s: Seq<char>) -> Seq<Seq<char>>
    decreases s.len(),
{
    if s.len() == 0 {
        seq![]
    } else {
        let k = line_len(s);
        if k >= s.len() {
            seq![s]
        } else {
            seq![s.take(k as int)] + lines(s.skip(k as int + 1))
        }
    }
}

/// The first line feed at or after `from`, or `v.len()`.
pub fn line_end(v: &Vec<char>, from: usize) -> (k: usize)
    requires
        from <= v.len(),
    ensures
        from <= k <= v.len(),
        k - from == line_len(v@.skip(from as int)),
        forall|j: int| from <= j < k ==> v@[j] != '\n',
        k < v.len() ==> v@[k as int] == '\n',
{
    let mut k = from;
    while k < v.len() && v[k] != '\n'
        invariant
            from <= k <= v.len(),
            forall|j: int| from <= j < k ==> v@[j] != '\n',
        decreases v.len() - k,
    {
        k += 1;
    }
    proof {
        let s = v@.skip(from as int);
        lemma_line_len_at(s, k - from);
    }
    k
}

/// Splitting off the first line of `v[from..]` whose end is `k`.
pub proof fn lemma_lines_step(s: Seq<char>, from: int, k: int)
    requires
        0 <= from < s.len(),
        from <= k <= s.len(),
        k - from == line_len(s.skip(from)),
    ensures
        lines(s.skip(from)) == seq![s.subrange(from, k)] + lines(
            s.skip(if k < s.len() { k + 1 } else { k }),
        ),
{
    let t = s.skip(from);
    assert(t.take(k - from) =~= s.subrange(from, k));
    if k < s.len() {
        assert(t.skip(k - from + 1) =~= s.skip(k + 1));
    } else {
        assert(t =~= s.subrange(from, k));
        assert(s.skip(k).len() == 0);
        assert(lines(s.skip(k)) =~= Seq::<Seq<char>>::empty());
        assert(seq![s.subrange(from, k)] + Seq::<Seq<char>>::empty() =~= seq![
            s.subrange(from, k),
        ]);
    }
}

// ---------------------------------------------------------------------------
// Words

/// Number of leading non-blank characters.
pub open spec fn word_len(s: Seq<char>) -> nat
    decreases s.len(),
{
    if s.len() == 0 {
        0
    } else if is_ws(s[0]) {
        0
    } else {
        1 + word_len(s.drop_first())
    }
}

pub proof fn lemma_word_len_at(s: Seq<char>, k: int)
    requires
        0 <= k <= s.len(),
        forall|j: int| 0 <= j < k ==> !is_ws(#[trigger] s[j]),
        k < s.len() ==> is_ws(s[k]),
    ensures
        word_len(s) == k,
    decreases k,
{
    if k > 0 {
        assert forall|j: int| 0 <= j < k - 1 implies !is_ws(#[trigger] s.drop_first()[j]) by {
            assert(s.drop_first()[j] == s[j + 1]);
        }
        lemma_word_len_at(s.drop_first(), k - 1);
    }
}

/// `str::split_whitespace`: the maximal runs of non-blank characters.
pub open spec fn words(s: Seq<char>) -> Seq<Seq<char>>
    decreases s.len(),
{
    if s.len() == 0 {
        seq![]
    } else if is_ws(s[0]) {
        words(s.drop_first())
    } else {
        let k = word_len(s);
        if k >= s.len() {
            seq![s]
        } else {
            seq![s.take(k as int)] + words(s.skip(k as int))
        }
    }
}

/// Blank characters in front do not change the words.
pub proof fn lemma_words_skip_ws(s: Seq<char>, k: int)
    requires
        0 <= k <= s.len(),
        forall|j: int| 0 <= j < k ==> is_ws(#[trigger] s[j]),
    ensures
        words(s) == words(s.skip(k)),
    decreases k,
{
    if k > 0 {
        assert forall|j: int| 0 <= j < k - 1 implies is_ws(#[trigger] s.drop_first()[j]) by {
            assert(s.drop_first()[j] == s[j + 1]);
        }
        lemma_words_skip_ws(s.drop_first(), k - 1);
        assert(s.drop_first().skip(k - 1) =~= s.skip(k));
    } else {
        assert(s.skip(0) =~= s);
    }
}

/// A run of non-blank characters ending at a blank (or the end) is the first word.
pub proof fn lemma_words_first(s: Seq<char>, k: int)
    requires
        0 < k <= s.len(),
        forall|j: int| 0 <= j < k ==> !is_ws(#[trigger] s[j]),
        k < s.len() ==> is_ws(s[k]),
    ensures
        words(s) == seq![s.take(k)] + words(s.skip(k)),
{
    lemma_word_len_at(s, k);
    if k >= s.len() {
        assert(s.take(k) =~= s);
        assert(s.skip(k).len() == 0);
        assert(words(s.skip(k)) =~= Seq::<Seq<char>>::empty());
        assert(seq![s.take(k)] + Seq::<Seq<char>>::empty() =~= seq![s.take(k)]);
    }
}

/// The next word of `v[from..hi]`: its bounds, or `(hi, hi)` when none is left.
pub fn next_word(v: &Vec<char>, from: usize, hi: usize) -> (res: (usize, usize))
    requires
        from <= hi <= v.len(),
    ensures
        from <= res.0 <= res.1 <= hi,
        res.0 == hi ==> words(v@.subrange(from as int, hi as int)).len() == 0,
        res.0 < hi ==> res.0 < res.1 && words(v@.subrange(from as int, hi as int)) == seq![
            v@.subrange(res.0 as int, res.1 as int),
        ] + words(v@.subrange(res.1 as int, hi as int)),
{
    let ghost s = v@.subrange(from as int, hi as int);
    let mut i = from;
    while i < hi && is_whitespace(v[i])
        invariant
            from <= i <= hi <= v.len(),
            forall|j: int| from <= j < i ==> is_ws(#[trigger] v@[j]),
        decreases hi - i,
    {
        i += 1;
    }
    proof {
        assert forall|j: int| 0 <= j < i - from implies is_ws(#[trigger] s[j]) by {
            assert(s[j] == v@[from + j]);
        }
        lemma_words_skip_ws(s, i - from);
        assert(s.skip(i - from) =~= v@.subrange(i as int, hi as int));
    }
    if i == hi {
        assert(v@.subrange(i as int, hi as int).len() == 0);
        return (hi, hi);
    }
    let mut k = i;
    while k < hi && !is_whitespace(v[k])
        invariant
            i <= k <= hi <= v.len(),
            forall|j: int| i <= j < k ==> !is_ws(#[trigger] v@[j]),
        decreases hi - k,
    {
        k += 1;
    }
    proof {
        let t = v@.subrange(i as int, hi as int);
        assert forall|j: int| 0 <= j < k - i implies !is_ws(#[trigger] t[j]) by {
            assert(t[j] == v@[i + j]);
        }
        lemma_words_first(t, k - i);
        assert(t.take(k - i) =~= v@.subrange(i as int, k as int));
        assert(t.skip(k - i) =~= v@.subrange(k as int, hi as int));
    }
    (i, k)
}

// ---------------------------------------------------------------------------
// Decimal numerals

/// The character of a decimal digit.
pub open spec fn digit_char(d: nat) -> char {
    (48 + d) as char
}

/// `Display` of an unsigned integer: its decimal digits, most significant first,
/// with no leading zeros.
pub open spec fn decimal(n: nat) -> Seq<char>
    decreases n,
{
    if n < 10 {
        seq![digit_char(n)]
    } else {
        decimal(n / 10).push(digit_char(n % 10))
    }
}

/// Appends the decimal numeral of `n`.
pub fn push_decimal(out: &mut String, n: u64)
    ensures
        final(out)@ == old(out)@ + decimal(n as nat),
    decreases n,
{
    if n >= 10 {
        push_decimal(out, n / 10);
    }
    let d = (n % 10) as u8;
    let c = (d + 48u8) as char;
    push_char(out, c);
    assert(c == digit_char((n % 10) as nat));
    if n >= 10 {
        assert(decimal(n as nat) == decimal((n / 10) as nat).push(c));
    } else {
        assert(decimal(n as nat) == seq![c]);
    }
}

} // verus!

verus! {

// ---------------------------------------------------------------------------
// Joining lines

/// `lines.join("\n")`.
pub open spec fn join_lines(ls: Seq<Seq<char>>) -> Seq<char>
    decreases ls.len(),
{
    if ls.len() == 0 {
        seq![]
    } else if ls.len() == 1 {
        ls[0]
    } else {
        ls[0] + seq!['\n'] + join_lines(ls.drop_first())
    }
}

/// Joining one more line appends a line feed and the line.
pub proof fn lemma_join_lines_push(ls: Seq<Seq<char>>, x: Seq<char>)
    requires
        ls.len() >= 1,
    ensures
        join_lines(ls.push(x)) == join_lines(ls) + seq!['\n'] + x,
    decreases ls.len(),
{
    assert(ls.push(x)[0] == ls[0]);
    if ls.len() == 1 {
        assert(ls.push(x).drop_first() =~= seq![x]);
        assert(join_lines(seq![x]) == x);
        assert(join_lines(ls) == ls[0]);
        assert(join_lines(ls.push(x)) == ls[0] + seq!['\n'] + join_lines(ls.push(x).drop_first()));
    } else {
        lemma_join_lines_push(ls.drop_first(), x);
        assert(ls.push(x).drop_first() =~= ls.drop_first().push(x));
        assert(join_lines(ls.push(x)) == ls[0] + seq!['\n'] + join_lines(ls.push(x).drop_first()));
        assert(ls[0] + seq!['\n'] + (join_lines(ls.drop_first()) + seq!['\n'] + x) =~= ls[0]
            + seq!['\n'] + join_lines(ls.drop_first()) + seq!['\n'] + x);
    }
}

/// Splitting joined lines gives them back, when no line holds a line feed and
/// the last one is not empty.
pub proof fn lemma_lines_of_join(ls: Seq<Seq<char>>)
    requires
        ls.len() >= 1,
        ls.last().len() > 0,
        forall|i: int, j: int|
            0 <= i < ls.len() && 0 <= j < ls[i].len() ==> #[trigger] ls[i][j] != '\n',
    ensures
        lines(join_lines(ls)) == ls,
    decreases ls.len(),
{
    let s = join_lines(ls);
    let first = ls[0];
    if ls.len() == 1 {
        assert forall|j: int| 0 <= j < s.len() implies s[j] != '\n' by {
            assert(ls[0][j] != '\n');
        }
        lemma_line_len_at(s, s.len() as int);
        assert(lines(s) =~= seq![s]);
        assert(ls =~= seq![s]);
    } else {
        let rest = ls.drop_first();
        assert forall|i: int, j: int|
            0 <= i < rest.len() && 0 <= j < rest[i].len() implies #[trigger] rest[i][j] != '\n' by {
            assert(rest[i] == ls[i + 1]);
            assert(ls[i + 1][j] != '\n');
        }
        lemma_lines_of_join(rest);
        assert forall|j: int| 0 <= j < first.len() implies s[j] != '\n' by {
            assert(ls[0][j] != '\n');
        }
        lemma_line_len_at(s, first.len() as int);
        assert(s.take(first.len() as int) =~= first);
        assert(s.skip(first.len() as int + 1) =~= join_lines(rest));
        assert(ls =~= seq![first] + rest);
    }
}

} // verus!
