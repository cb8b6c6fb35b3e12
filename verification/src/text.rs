//! Character-level text helpers shared by the composer and the key deriver.
//!
//! Text is handled as `Vec<char>` internally; its model is `Seq<char>`.

use vstd::prelude::*;

verus! {

/// Appends one character to a `String` (`String::push`): afterwards the
/// string holds its former characters followed by `c`.
#[verifier::external_body]
fn push_char(s: &mut String, c: char)
    ensures
        final(s)@ == old(s)@.push(c),
{
    s.push(c);
}

/// The characters of `s`, in order.
pub fn to_chars(s: &str) -> (out: Vec<char>)
    ensures
        out@ == s@,
{
    let mut out: Vec<char> = Vec::new();
    for c in it: s.chars()
        invariant
            out@ == it.seq().take(it.index() as int),
            it.seq() == s@,
    {
        out.push(c);
    }
    out
}

/// The string made of the characters of `v`, in order.
pub fn from_chars(v: &Vec<char>) -> (out: String)
    ensures
        out@ == v@,
{
    let mut out = String::new();
    let mut i: usize = 0;
    while i < v.len()
        invariant
            i <= v.len(),
            out@ == v@.take(i as int),
        decreases v.len() - i,
    {
        push_char(&mut out, v[i]);
        i += 1;
    }
    assert(v@.take(v.len() as int) == v@);
    out
}

/// Appends the characters of `src` to `dst`.
pub fn append_chars(dst: &mut Vec<char>, src: &Vec<char>)
    ensures
        final(dst)@ == old(dst)@ + src@,
{
    let mut i: usize = 0;
    while i < src.len()
        invariant
            i <= src.len(),
            dst@ == old(dst)@ + src@.take(i as int),
        decreases src.len() - i,
    {
        dst.push(src[i]);
        i += 1;
    }
    assert(src@.take(src.len() as int) == src@);
}

/// Appends the characters of the string `src` to `dst`.
pub fn append_str(dst: &mut Vec<char>, src: &str)
    ensures
        final(dst)@ == old(dst)@ + src@,
{
    let chars = to_chars(src);
    append_chars(dst, &chars);
}

/// Whether two strings hold the same characters.
pub fn same_text(a: &str, b: &str) -> (r: bool)
    ensures
        r == (a@ == b@),
{
    let x = to_chars(a);
    let y = to_chars(b);
    same_chars(&x, &y)
}

/// Whether two character vectors hold the same characters.
pub fn same_chars(a: &Vec<char>, b: &Vec<char>) -> (r: bool)
    ensures
        r == (a@ == b@),
{
    if a.len() != b.len() {
        return false;
    }
    let mut i: usize = 0;
    while i < a.len()
        invariant
            i <= a.len(),
            a.len() == b.len(),
            a@.take(i as int) == b@.take(i as int),
        decreases a.len() - i,
    {
        if a[i] != b[i] {
            return false;
        }
        assert(a@.take(i + 1) == a@.take(i as int).push(a@[i as int]));
        assert(b@.take(i + 1) == b@.take(i as int).push(b@[i as int]));
        i += 1;
    }
    assert(a@.take(a.len() as int) == a@);
    assert(b@.take(b.len() as int) == b@);
    true
}

/// A copy of a byte vector.
pub fn copy_bytes(src: &Vec<u8>) -> (out: Vec<u8>)
    ensures
        out@ == src@,
{
    let mut out: Vec<u8> = Vec::new();
    let mut i: usize = 0;
    while i < src.len()
        invariant
            i <= src.len(),
            out@ == src@.take(i as int),
        decreases src.len() - i,
    {
        out.push(src[i]);
        i += 1;
    }
    assert(src@.take(src.len() as int) == src@);
    out
}

// ---------------------------------------------------------------------
// Whitespace normalization
// ---------------------------------------------------------------------

/// The whitespace characters: every character with the Unicode property
/// White_Space. These are the tab, the line feed, the vertical tab, the form
/// feed and the carriage return (U+0009 to U+000D), the space, the next-line
/// control (U+0085), the no-break space (U+00A0), the Ogham space mark
/// (U+1680), the spaces of fixed width (U+2000 to U+200A), the line and the
/// paragraph separator (U+2028, U+2029), the narrow no-break space (U+202F),
/// the medium mathematical space (U+205F) and the ideographic space
/// (U+3000).
pub open spec fn is_space(c: char) -> bool {
    ('\u{9}' <= c && c <= '\u{d}') || c == ' ' || c == '\u{85}' || c == '\u{a0}' || c
        == '\u{1680}' || ('\u{2000}' <= c && c <= '\u{200a}') || c == '\u{2028}' || c
        == '\u{2029}' || c == '\u{202f}' || c == '\u{205f}' || c == '\u{3000}'
}

/// Executable form of [`is_space`].
pub fn is_space_char(c: char) -> (b: bool)
    ensures
        b == is_space(c),
{
    ('\u{9}' <= c && c <= '\u{d}') || c == ' ' || c == '\u{85}' || c == '\u{a0}' || c
        == '\u{1680}' || ('\u{2000}' <= c && c <= '\u{200a}') || c == '\u{2028}' || c
        == '\u{2029}' || c == '\u{202f}' || c == '\u{205f}' || c == '\u{3000}'
}

/// Whitespace-normal form of a text: leading and trailing whitespace is
/// removed and every inner run of whitespace becomes one space.
///
/// Read from the left: a whitespace character adds nothing; any other
/// character is added, after one space if it starts a new word that is not
/// the first.
pub open spec fn normalize(s: Seq<char>) -> Seq<char>
    decreases s.len(),
{
    if s.len() == 0 {
        Seq::<char>::empty()
    } else {
        let init = normalize(s.drop_last());
        let c = s.last();
        if is_space(c) {
            init
        } else if s.len() >= 2 && is_space(s[s.len() - 2]) && init.len() > 0 {
            init.push(' ').push(c)
        } else {
            init.push(c)
        }
    }
}

/// Whether every character of `s` is whitespace (true of the empty text).
pub open spec fn is_blank(s: Seq<char>) -> bool {
    forall|i: int| 0 <= i < s.len() ==> is_space(#[trigger] s[i])
}

/// A text normalizes to nothing exactly when it is blank.
pub proof fn lemma_normalize_empty_iff_blank(s: Seq<char>)
    ensures
        (normalize(s).len() == 0) == is_blank(s),
    decreases s.len(),
{
    if s.len() > 0 {
        let init = s.drop_last();
        lemma_normalize_empty_iff_blank(init);
        if is_space(s.last()) {
            if is_blank(init) {
                assert forall|i: int| 0 <= i < s.len() implies is_space(#[trigger] s[i]) by {
                    if i < s.len() - 1 {
                        assert(s[i] == init[i]);
                    }
                }
            } else {
                let j = choose|j: int| 0 <= j < init.len() && !is_space(#[trigger] init[j]);
                assert(s[j] == init[j]);
            }
        } else {
            assert(!is_space(s[s.len() - 1]));
        }
    }
}

/// Whether every whitespace character of `t` is a single space that stands
/// between two other characters or at the very end.
pub open spec fn spaced_singly(t: Seq<char>) -> bool {
    forall|i: int|
        0 <= i < t.len() && is_space(#[trigger] t[i]) ==> t[i] == ' ' && i > 0 && !is_space(
            t[i - 1],
        )
}

/// Whether `t` is in whitespace-normal form: words separated by single
/// spaces, with no whitespace at either end.
pub open spec fn is_normal(t: Seq<char>) -> bool {
    spaced_singly(t) && (t.len() > 0 ==> !is_space(t.last()))
}

/// The whitespace-normal form of a text is in whitespace-normal form.
pub proof fn lemma_normalize_is_normal(s: Seq<char>)
    ensures
        is_normal(normalize(s)),
    decreases s.len(),
{
    if s.len() > 0 {
        let init = normalize(s.drop_last());
        let out = normalize(s);
        let c = s.last();
        lemma_normalize_is_normal(s.drop_last());
        if is_space(c) {
        } else {
            assert forall|i: int| 0 <= i < out.len() && is_space(#[trigger] out[i]) implies out[i]
                == ' ' && i > 0 && !is_space(out[i - 1]) by {
                if i < init.len() {
                    assert(out[i] == init[i]);
                    assert(is_space(init[i]));
                    assert(out[i - 1] == init[i - 1]);
                } else if i == init.len() && out.len() == init.len() + 2 {
                    assert(out[i - 1] == init.last());
                }
            }
        }
    }
}

/// A singly spaced text normalizes to itself, less a space at its end.
pub proof fn lemma_normalize_spaced_singly(t: Seq<char>)
    requires
        spaced_singly(t),
    ensures
        normalize(t) == (if t.len() > 0 && is_space(t.last()) {
            t.drop_last()
        } else {
            t
        }),
    decreases t.len(),
{
    if t.len() > 0 {
        let u = t.drop_last();
        let c = t.last();
        assert forall|i: int| 0 <= i < u.len() && is_space(#[trigger] u[i]) implies u[i] == ' '
            && i > 0 && !is_space(u[i - 1]) by {
            assert(u[i] == t[i]);
            assert(is_space(t[i]));
            assert(u[i - 1] == t[i - 1]);
        }
        lemma_normalize_spaced_singly(u);
        if is_space(c) {
            assert(is_space(t[t.len() - 1]));
            assert(u.last() == t[t.len() - 2]);
        } else if u.len() > 0 && is_space(u.last()) {
            assert(u.last() == t[t.len() - 2]);
            assert(is_space(t[t.len() - 2]));
            assert(u.len() >= 2);
            assert(normalize(t) =~= t);
        } else {
            if u.len() > 0 {
                assert(u.last() == t[t.len() - 2]);
            }
            assert(normalize(t) =~= t);
        }
    }
}

/// Normalizing twice is the same as normalizing once.
pub proof fn lemma_normalize_idempotent(s: Seq<char>)
    ensures
        normalize(normalize(s)) == normalize(s),
{
    lemma_normalize_is_normal(s);
    lemma_normalize_spaced_singly(normalize(s));
}

/// Whether `s` holds nothing but whitespace; see [`is_blank`].
pub fn is_blank_text(s: &str) -> (r: bool)
    ensures
        r == is_blank(s@),
{
    let v = to_chars(s);
    let mut i: usize = 0;
    while i < v.len()
        invariant
            i <= v.len(),
            v@ == s@,
            forall|j: int| 0 <= j < i ==> is_space(#[trigger] v@[j]),
        decreases v.len() - i,
    {
        if !is_space_char(v[i]) {
            return false;
        }
        i += 1;
    }
    true
}

/// Whitespace-normal form of `v`; see [`normalize`].
pub fn normalize_chars(v: &Vec<char>) -> (out: Vec<char>)
    ensures
        out@ == normalize(v@),
{
    let mut out: Vec<char> = Vec::new();
    let mut i: usize = 0;
    assert(v@.take(0) =~= Seq::<char>::empty());
    while i < v.len()
        invariant
            i <= v.len(),
            out@ == normalize(v@.take(i as int)),
        decreases v.len() - i,
    {
        let c = v[i];
        proof {
            let t = v@.take(i + 1);
            assert(t.drop_last() =~= v@.take(i as int));
            assert(t.last() == c);
            if i >= 1 {
                assert(t[t.len() - 2] == v@[i - 1]);
            }
        }
        if !is_space_char(c) {
            if i >= 1 && is_space_char(v[i - 1]) && out.len() > 0 {
                out.push(' ');
            }
            out.push(c);
        }
        i += 1;
    }
    assert(v@.take(v.len() as int) == v@);
    out
}

// ---------------------------------------------------------------------
// Character substitution
// ---------------------------------------------------------------------

/// `s` with every occurrence of the character `from` replaced by the
/// characters `to`.
pub open spec fn replace_char(s: Seq<char>, from: char, to: Seq<char>) -> Seq<char>
    decreases s.len(),
{
    if s.len() == 0 {
        Seq::<char>::empty()
    } else if s.last() == from {
        replace_char(s.drop_last(), from, to) + to
    } else {
        replace_char(s.drop_last(), from, to).push(s.last())
    }
}

/// Where the replacement does not hold the replaced character, none is
/// left after replacing.
pub proof fn lemma_replace_leaves_none(s: Seq<char>, from: char, to: Seq<char>)
    requires
        !to.contains(from),
    ensures
        !replace_char(s, from, to).contains(from),
    decreases s.len(),
{
    if s.len() > 0 {
        let init = replace_char(s.drop_last(), from, to);
        let out = replace_char(s, from, to);
        lemma_replace_leaves_none(s.drop_last(), from, to);
        if out.contains(from) {
            let i = choose|i: int| 0 <= i < out.len() && out[i] == from;
            if i < init.len() {
                assert(init[i] == from);
                assert(init.contains(from));
            } else if s.last() == from {
                assert(to[i - init.len()] == from);
                assert(to.contains(from));
            }
        }
    }
}

/// Replaces every `from` in `v` by `to`; see [`replace_char`].
pub fn replace_in_chars(v: &Vec<char>, from: char, to: &Vec<char>) -> (out: Vec<char>)
    ensures
        out@ == replace_char(v@, from, to@),
{
    let mut out: Vec<char> = Vec::new();
    let mut i: usize = 0;
    assert(v@.take(0) =~= Seq::<char>::empty());
    while i < v.len()
        invariant
            i <= v.len(),
            out@ == replace_char(v@.take(i as int), from, to@),
        decreases v.len() - i,
    {
        let c = v[i];
        proof {
            let t = v@.take(i + 1);
            assert(t.drop_last() =~= v@.take(i as int));
            assert(t.last() == c);
        }
        if c == from {
            append_chars(&mut out, to);
        } else {
            out.push(c);
        }
        i += 1;
    }
    assert(v@.take(v.len() as int) == v@);
    out
}

/// `unit` repeated `n` times.
pub open spec fn repeat(unit: Seq<char>, n: nat) -> Seq<char>
    decreases n,
{
    if n == 0 {
        Seq::<char>::empty()
    } else {
        repeat(unit, (n - 1) as nat) + unit
    }
}

/// Repeating a text made of one character gives a text made of that
/// character.
pub proof fn lemma_repeat_of_one_char(unit: Seq<char>, n: nat, c: char)
    requires
        forall|i: int| 0 <= i < unit.len() ==> unit[i] == c,
    ensures
        forall|i: int| 0 <= i < repeat(unit, n).len() ==> repeat(unit, n)[i] == c,
    decreases n,
{
    if n > 0 {
        let init = repeat(unit, (n - 1) as nat);
        let all = repeat(unit, n);
        lemma_repeat_of_one_char(unit, (n - 1) as nat, c);
        assert forall|i: int| 0 <= i < all.len() implies all[i] == c by {
            if i < init.len() {
                assert(all[i] == init[i]);
            } else {
                assert(all[i] == unit[i - init.len()]);
            }
        }
    }
}

/// Appends `n` copies of `unit` to `dst`.
pub fn append_repeated(dst: &mut Vec<char>, unit: &Vec<char>, n: usize)
    ensures
        final(dst)@ == old(dst)@ + repeat(unit@, n as nat),
{
    let mut i: usize = 0;
    assert(dst@ =~= old(dst)@ + repeat(unit@, 0));
    while i < n
        invariant
            i <= n,
            dst@ == old(dst)@ + repeat(unit@, i as nat),
        decreases n - i,
    {
        append_chars(dst, unit);
        assert(dst@ =~= old(dst)@ + repeat(unit@, (i + 1) as nat));
        i += 1;
    }
}

// ---------------------------------------------------------------------
// Decimal digits
// ---------------------------------------------------------------------

/// Whether `c` is one of the ASCII digits `0` to `9`.
pub open spec fn is_digit(c: char) -> bool {
    '0' <= c && c <= '9'
}

/// Executable form of [`is_digit`].
pub fn is_digit_char(c: char) -> (b: bool)
    ensures
        b == is_digit(c),
{
    '0' <= c && c <= '9'
}

/// The number that the ASCII digit `c` stands for.
pub open spec fn digit_value(c: char) -> nat {
    (c as u32 - '0' as u32) as nat
}

/// The ASCII digit for `d`, where `d` is below ten.
pub open spec fn digit_char(d: nat) -> char {
    if d == 0 {
        '0'
    } else if d == 1 {
        '1'
    } else if d == 2 {
        '2'
    } else if d == 3 {
        '3'
    } else if d == 4 {
        '4'
    } else if d == 5 {
        '5'
    } else if d == 6 {
        '6'
    } else if d == 7 {
        '7'
    } else if d == 8 {
        '8'
    } else {
        '9'
    }
}

/// Executable form of [`digit_char`].
pub fn digit_to_char(d: u64) -> (c: char)
    requires
        d < 10,
    ensures
        c == digit_char(d as nat),
        is_digit(c),
        digit_value(c) == d,
{
    if d == 0 {
        '0'
    } else if d == 1 {
        '1'
    } else if d == 2 {
        '2'
    } else if d == 3 {
        '3'
    } else if d == 4 {
        '4'
    } else if d == 5 {
        '5'
    } else if d == 6 {
        '6'
    } else if d == 7 {
        '7'
    } else if d == 8 {
        '8'
    } else {
        '9'
    }
}

/// The decimal numeral of `n`, without sign or leading zeros (`0` for zero).
pub open spec fn decimal(n: nat) -> Seq<char>
    decreases n,
{
    if n < 10 {
        seq![digit_char(n)]
    } else {
        decimal(n / 10).push(digit_char(n % 10))
    }
}

/// Appends the decimal numeral of `n` to `dst`.
pub fn append_decimal(dst: &mut Vec<char>, n: u64)
    ensures
        final(dst)@ == old(dst)@ + decimal(n as nat),
    decreases n,
{
    if n < 10 {
        dst.push(digit_to_char(n));
        assert(dst@ =~= old(dst)@ + decimal(n as nat));
    } else {
        append_decimal(dst, n / 10);
        dst.push(digit_to_char(n % 10));
        assert(dst@ =~= old(dst)@ + decimal(n as nat));
    }
}

/// The numeral of a value given in tenths, with exactly one digit after the
/// point: `923` reads `92.3`.
pub open spec fn one_decimal(tenths: nat) -> Seq<char> {
    decimal(tenths / 10).push('.').push(digit_char(tenths % 10))
}

/// Appends [`one_decimal`] of `tenths` to `dst`.
pub fn append_one_decimal(dst: &mut Vec<char>, tenths: u64)
    ensures
        final(dst)@ == old(dst)@ + one_decimal(tenths as nat),
{
    append_decimal(dst, tenths / 10);
    dst.push('.');
    dst.push(digit_to_char(tenths % 10));
    assert(dst@ =~= old(dst)@ + one_decimal(tenths as nat));
}

/// The value of a run of ASCII digits read as a decimal numeral (zero for
/// the empty run).
pub open spec fn digits_value(s: Seq<char>) -> nat
    decreases s.len(),
{
    if s.len() == 0 {
        0
    } else {
        digits_value(s.drop_last()) * 10 + digit_value(s.last())
    }
}

/// The first position at or after `from` that holds a digit, or the length
/// of `s` where there is none.
pub open spec fn first_digit_from(s: Seq<char>, from: int) -> int
    decreases s.len() - from,
{
    if from < 0 || from >= s.len() {
        s.len() as int
    } else if is_digit(s[from]) {
        from
    } else {
        first_digit_from(s, from + 1)
    }
}

/// The first position at or after `from` that holds no digit, or the length
/// of `s` where every later character is a digit.
pub open spec fn digits_end_from(s: Seq<char>, from: int) -> int
    decreases s.len() - from,
{
    if from < 0 || from >= s.len() {
        s.len() as int
    } else if is_digit(s[from]) {
        digits_end_from(s, from + 1)
    } else {
        from
    }
}

/// Whether `s` holds at least one digit.
pub open spec fn has_digit(s: Seq<char>) -> bool {
    exists|i: int| 0 <= i < s.len() && is_digit(#[trigger] s[i])
}

/// [`first_digit_from`] finds a digit exactly where one exists at or after
/// `from`, and skips only non-digits.
pub proof fn lemma_first_digit_from(s: Seq<char>, from: int)
    requires
        0 <= from <= s.len(),
    ensures
        from <= first_digit_from(s, from) <= s.len(),
        first_digit_from(s, from) < s.len() ==> is_digit(s[first_digit_from(s, from)]),
        forall|j: int| from <= j < first_digit_from(s, from) ==> !is_digit(#[trigger] s[j]),
    decreases s.len() - from,
{
    if from < s.len() && !is_digit(s[from]) {
        lemma_first_digit_from(s, from + 1);
    }
}

/// A text holds a digit exactly when the search from its start finds one.
pub proof fn lemma_has_digit(s: Seq<char>)
    ensures
        has_digit(s) == (first_digit_from(s, 0) < s.len()),
{
    lemma_first_digit_from(s, 0);
    let f = first_digit_from(s, 0);
    if f < s.len() {
        assert(is_digit(s[f]));
    }
}

/// The largest whole part that a number read from text keeps; longer
/// numerals read as this value.
pub const MAX_READ_WHOLE: u64 = 1_000_000_000_000_000;

/// The smaller of two numbers.
pub open spec fn min_nat(a: nat, b: nat) -> nat {
    if a <= b {
        a
    } else {
        b
    }
}

/// The first number written in `s`, in tenths: the first run of digits is the
/// whole part (capped at [`MAX_READ_WHOLE`]); a point directly after it,
/// followed by a digit, gives the tenths, and further digits are dropped.
/// `None` where `s` holds no digit.
pub open spec fn first_number_tenths(s: Seq<char>) -> Option<nat> {
    let start = first_digit_from(s, 0);
    if start >= s.len() {
        None
    } else {
        let end = digits_end_from(s, start);
        let whole = min_nat(digits_value(s.subrange(start, end)), MAX_READ_WHOLE as nat);
        let tenth = if end + 1 < s.len() && s[end] == '.' && is_digit(s[end + 1]) {
            digit_value(s[end + 1])
        } else {
            0
        };
        Some(whole * 10 + tenth)
    }
}

/// Reads the first number written in `v`; see [`first_number_tenths`].
pub fn read_first_number(v: &Vec<char>) -> (r: Option<u64>)
    ensures
        r.is_some() == first_number_tenths(v@).is_some(),
        r.is_some() ==> r.unwrap() as nat == first_number_tenths(v@).unwrap(),
        r.is_some() == has_digit(v@),
{
    let n = v.len();
    let mut start: usize = 0;
    while start < n && !is_digit_char(v[start])
        invariant
            start <= n,
            n == v.len(),
            first_digit_from(v@, 0) == first_digit_from(v@, start as int),
        decreases n - start,
    {
        start += 1;
    }
    proof {
        lemma_has_digit(v@);
    }
    if start >= n {
        return None;
    }
    let mut end: usize = start;
    let mut whole: u64 = 0;
    assert(v@.subrange(start as int, start as int) =~= Seq::<char>::empty());
    while end < n && is_digit_char(v[end])
        invariant
            start <= end <= n,
            n == v.len(),
            digits_end_from(v@, start as int) == digits_end_from(v@, end as int),
            whole as nat == min_nat(
                digits_value(v@.subrange(start as int, end as int)),
                MAX_READ_WHOLE as nat,
            ),
        decreases n - end,
    {
        let d: u64 = (v[end] as u32 - '0' as u32) as u64;
        proof {
            let run = v@.subrange(start as int, end + 1);
            assert(run.drop_last() =~= v@.subrange(start as int, end as int));
            assert(run.last() == v@[end as int]);
            assert(d as nat == digit_value(v@[end as int]));
        }
        let next: u64 = whole * 10 + d;
        whole = if next > MAX_READ_WHOLE {
            MAX_READ_WHOLE
        } else {
            next
        };
        end += 1;
    }
    let tenth: u64 = if end < n - 1 && v[end] == '.' && is_digit_char(v[end + 1]) {
        (v[end + 1] as u32 - '0' as u32) as u64
    } else {
        0
    };
    Some(whole * 10 + tenth)
}

} // verus!
