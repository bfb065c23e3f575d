//! Text primitives: decimal numbers, splitting, trimming and shortening.
//!
//! Every text is modelled by the sequence of its characters.

use vstd::prelude::*;

verus! {

/// `String::push`: "Appends the given `char` to the end of this `String`."
/// The new text is the old one with that one character behind it.
pub assume_specification[ String::push ](s: &mut String, c: char)
    ensures
        final(s)@ == old(s)@.push(c),
;

// ---------------------------------------------------------------------------
// Characters

/// The characters of `text`, one by one.
pub fn chars_of(text: &str) -> (chars: Vec<char>)
    ensures
        chars@ == text@,
{
    let mut chars: Vec<char> = Vec::new();
    for c in iter: text.chars()
        invariant
            iter.seq() == text@,
            chars@ == text@.take(iter.index() as int),
    {
        chars.push(c);
    }
    chars
}

/// Appends the characters of `chars` in the range `from..to` to `out`.
pub fn push_chars(out: &mut String, chars: &Vec<char>, from: usize, to: usize)
    requires
        from <= to <= chars@.len(),
    ensures
        final(out)@ == old(out)@ + chars@.subrange(from as int, to as int),
{
    let ghost start = out@;
    let mut i: usize = from;
    while i < to
        invariant
            from <= i <= to <= chars@.len(),
            out@ == start + chars@.subrange(from as int, i as int),
        decreases to - i,
    {
        out.push(chars[i]);
        i += 1;
    }
}

/// Appends `text` to `out`.
pub fn push_text(out: &mut String, text: &str)
    ensures
        final(out)@ == old(out)@ + text@,
{
    out.append(text);
}

/// A new text with the given characters in the range `from..to`.
pub fn slice_text(chars: &Vec<char>, from: usize, to: usize) -> (text: String)
    requires
        from <= to <= chars@.len(),
    ensures
        text@ == chars@.subrange(from as int, to as int),
{
    let mut text = String::new();
    push_chars(&mut text, chars, from, to);
    text
}

/// The characters of each of several texts.
pub open spec fn texts_view(texts: Seq<String>) -> Seq<Seq<char>> {
    texts.map_values(|t: String| t@)
}

/// An owned copy of `text`.
pub fn copy_text(text: &str) -> (copy: String)
    ensures
        copy@ == text@,
{
    text.to_string()
}

/// Whether two texts hold the same characters.
pub fn same_text(a: &str, b: &str) -> (same: bool)
    ensures
        same == (a@ == b@),
{
    copy_text(a) == copy_text(b)
}

// ---------------------------------------------------------------------------
// Decimal numbers

/// The decimal digit `d` as a character.
pub open spec fn digit_char(d: int) -> char {
    (48 + d) as char
}

/// `n` in decimal, without leading zeros.
pub open spec fn decimal(n: nat) -> Seq<char>
    decreases n,
{
    if n < 10 {
        seq![digit_char(n as int)]
    } else {
        decimal(n / 10).push(digit_char((n % 10) as int))
    }
}

/// `n` copies of the character `0`.
pub open spec fn zeros(n: nat) -> Seq<char> {
    Seq::new(n, |i: int| '0')
}

/// `n` in decimal, filled up on the left with zeros to at least `width` characters.
pub open spec fn padded(n: nat, width: nat) -> Seq<char> {
    if decimal(n).len() < width {
        zeros((width - decimal(n).len()) as nat) + decimal(n)
    } else {
        decimal(n)
    }
}

/// A signed number filled up with zeros between its sign and its digits, so
/// that sign and digits together take at least `width` characters.
pub open spec fn signed_padded(n: int, width: nat) -> Seq<char> {
    if n < 0 {
        seq!['-'] + padded((-n) as nat, if width == 0 { 0 } else { (width - 1) as nat })
    } else {
        padded(n as nat, width)
    }
}

fn digit(d: u64) -> (c: char)
    requires
        d < 10,
    ensures
        c == digit_char(d as int),
{
    (48u8 + d as u8) as char
}

/// Appends `n` in decimal to `out`.
pub fn push_decimal(out: &mut String, n: u64)
    ensures
        final(out)@ == old(out)@ + decimal(n as nat),
    decreases n,
{
    if n >= 10 {
        push_decimal(out, n / 10);
    }
    out.push(digit(n % 10));
}

/// Filling up can be done digit by digit from the right.
proof fn lemma_padded_step(n: nat, width: nat)
    requires
        n >= 10 || width >= 2,
    ensures
        padded(n, width) == padded(n / 10, if width == 0 { 0 } else { (width - 1) as nat }).push(
            digit_char((n % 10) as int),
        ),
{
    let shorter: nat = if width == 0 { 0 } else { (width - 1) as nat };
    reveal_with_fuel(decimal, 2);
    assert(digit_char(0) == '0');
    assert(padded(n, width) =~= padded(n / 10, shorter).push(digit_char((n % 10) as int)));
}

/// Appends `n` in decimal to `out`, filled up with zeros to `width` characters.
pub fn push_padded(out: &mut String, n: u64, width: usize)
    ensures
        final(out)@ == old(out)@ + padded(n as nat, width as nat),
    decreases n, width,
{
    if n >= 10 || width >= 2 {
        proof {
            lemma_padded_step(n as nat, width as nat);
        }
        let shorter: usize = if width == 0 { 0 } else { width - 1 };
        push_padded(out, n / 10, shorter);
    }
    out.push(digit(n % 10));
}

/// Appends a signed number to `out`; sign and digits fill at least `width` characters.
pub fn push_signed_padded(out: &mut String, n: i64, width: usize)
    ensures
        final(out)@ == old(out)@ + signed_padded(n as int, width as nat),
{
    if n < 0 {
        let shorter: usize = if width == 0 { 0 } else { width - 1 };
        out.push('-');
        let magnitude: u64 = if n == i64::MIN { 0x8000_0000_0000_0000u64 } else { (-n) as u64 };
        push_padded(out, magnitude, shorter);
    } else {
        push_padded(out, n as u64, width);
    }
}

/// `value` with two digits; empty from one hundred on.
pub fn padded_number(value: u32) -> (text: String)
    ensures
        text@ == if value < 100 {
            padded(value as nat, 2)
        } else {
            Seq::<char>::empty()
        },
{
    let mut text = String::new();
    if value < 100 {
        push_padded(&mut text, value as u64, 2);
    }
    text
}

/// `value` in decimal; empty from one hundred on.
pub fn number(value: u32) -> (text: String)
    ensures
        text@ == if value < 100 {
            decimal(value as nat)
        } else {
            Seq::<char>::empty()
        },
{
    let mut text = String::new();
    if value < 100 {
        push_decimal(&mut text, value as u64);
    }
    text
}

/// Two numbers with the same decimal digits are the same.
pub proof fn decimal_is_injective(a: nat, b: nat)
    requires
        decimal(a) == decimal(b),
    ensures
        a == b,
    decreases a,
{
    reveal_with_fuel(decimal, 2);
    lemma_decimal_digits(a);
    lemma_decimal_digits(b);
    assert(decimal(a).last() == digit_char((a % 10) as int));
    assert(decimal(b).last() == digit_char((b % 10) as int));
    assert(a % 10 == b % 10);
    if a < 10 {
        assert(decimal(a).len() == 1);
    } else if b < 10 {
        assert(decimal(b).len() == 1);
    } else {
        assert(decimal(a).drop_last() =~= decimal(a / 10));
        assert(decimal(b).drop_last() =~= decimal(b / 10));
        decimal_is_injective(a / 10, b / 10);
    }
}

/// A decimal number is not empty and holds digits only; its first digit is
/// zero for the number zero alone.
pub proof fn lemma_decimal_digits(n: nat)
    ensures
        decimal(n).len() >= 1,
        n >= 10 ==> decimal(n).len() >= 2,
        forall|i: int|
            0 <= i < decimal(n).len() ==> '0' <= #[trigger] decimal(n)[i] && decimal(n)[i] <= '9',
        n > 0 ==> decimal(n)[0] != '0',
    decreases n,
{
    if n >= 10 {
        lemma_decimal_digits(n / 10);
    }
}

/// Filled up to the same width, different numbers still differ.
pub proof fn padded_is_injective(a: nat, b: nat, width: nat)
    requires
        padded(a, width) == padded(b, width),
    ensures
        a == b,
    decreases a, width,
{
    if (a >= 10 || width >= 2) && (b >= 10 || width >= 2) {
        lemma_padded_step(a, width);
        lemma_padded_step(b, width);
        let shorter: nat = if width == 0 { 0 } else { (width - 1) as nat };
        let pa = padded(a / 10, shorter);
        let pb = padded(b / 10, shorter);
        let da = digit_char((a % 10) as int);
        let db = digit_char((b % 10) as int);
        assert(pa.push(da).last() == da);
        assert(pb.push(db).last() == db);
        assert(pa.push(da).drop_last() =~= pa);
        assert(pb.push(db).drop_last() =~= pb);
        padded_is_injective(a / 10, b / 10, shorter);
    } else {
        lemma_decimal_digits(a);
        lemma_decimal_digits(b);
        decimal_is_injective(a, b);
    }
}

// ---------------------------------------------------------------------------
// Whitespace

/// The characters that Unicode counts as white space.
pub open spec fn is_white(c: char) -> bool {
    ||| '\u{9}' <= c <= '\u{d}'
    ||| c == ' '
    ||| c == '\u{85}'
    ||| c == '\u{a0}'
    ||| c == '\u{1680}'
    ||| '\u{2000}' <= c <= '\u{200a}'
    ||| c == '\u{2028}'
    ||| c == '\u{2029}'
    ||| c == '\u{202f}'
    ||| c == '\u{205f}'
    ||| c == '\u{3000}'
}

/// Whether `c` is white space.
pub fn is_whitespace(c: char) -> (white: bool)
    ensures
        white == is_white(c),
{
    ('\u{9}' <= c && c <= '\u{d}') || c == ' ' || c == '\u{85}' || c == '\u{a0}' || c
        == '\u{1680}' || ('\u{2000}' <= c && c <= '\u{200a}') || c == '\u{2028}' || c == '\u{2029}'
        || c == '\u{202f}' || c == '\u{205f}' || c == '\u{3000}'
}

/// `s` without the white space at its start.
pub open spec fn trim_start(s: Seq<char>) -> Seq<char>
    decreases s.len(),
{
    if s.len() > 0 && is_white(s[0]) {
        trim_start(s.skip(1))
    } else {
        s
    }
}

/// `s` without the white space at its end.
pub open spec fn trim_end(s: Seq<char>) -> Seq<char>
    decreases s.len(),
{
    if s.len() > 0 && is_white(s.last()) {
        trim_end(s.drop_last())
    } else {
        s
    }
}

/// `s` without the white space at both of its ends.
pub open spec fn trimmed(s: Seq<char>) -> Seq<char> {
    trim_end(trim_start(s))
}

/// `text` without the white space at both of its ends.
pub fn trim(text: &str) -> (result: String)
    ensures
        result@ == trimmed(text@),
{
    let chars = chars_of(text);
    let mut from: usize = 0;
    assert(chars@.skip(0) =~= chars@);
    while from < chars.len() && is_whitespace(chars[from])
        invariant
            from <= chars@.len(),
            chars@ == text@,
            trim_start(chars@.skip(from as int)) == trim_start(chars@),
        decreases chars@.len() - from,
    {
        proof {
            assert(chars@.skip(from as int).skip(1) =~= chars@.skip(from + 1));
        }
        from += 1;
    }
    let mut to: usize = chars.len();
    assert(chars@.subrange(from as int, to as int) =~= chars@.skip(from as int));
    while from < to && is_whitespace(chars[to - 1])
        invariant
            from <= to <= chars@.len(),
            chars@ == text@,
            trim_end(chars@.subrange(from as int, to as int)) == trimmed(chars@),
        decreases to - from,
    {
        proof {
            assert(chars@.subrange(from as int, to as int).drop_last() =~= chars@.subrange(
                from as int,
                to - 1,
            ));
        }
        to -= 1;
    }
    slice_text(&chars, from, to)
}

/// The index of the first white space in `s`, its length if there is none.
pub open spec fn word_len(s: Seq<char>) -> nat
    decreases s.len(),
{
    if s.len() == 0 || is_white(s[0]) {
        0
    } else {
        1 + word_len(s.skip(1))
    }
}

pub proof fn lemma_word_len(s: Seq<char>)
    ensures
        word_len(s) <= s.len(),
        forall|i: int| 0 <= i < word_len(s) ==> !is_white(#[trigger] s[i]),
        word_len(s) < s.len() ==> is_white(s[word_len(s) as int]),
    decreases s.len(),
{
    if s.len() > 0 && !is_white(s[0]) {
        lemma_word_len(s.skip(1));
        assert forall|i: int| 0 <= i < word_len(s) implies !is_white(#[trigger] s[i]) by {
            if i > 0 {
                assert(s[i] == s.skip(1)[i - 1]);
            }
        }
    }
}

pub proof fn lemma_trim_start_len(s: Seq<char>)
    ensures
        trim_start(s).len() <= s.len(),
        trim_start(s).len() > 0 ==> !is_white(trim_start(s)[0]),
    decreases s.len(),
{
    if s.len() > 0 && is_white(s[0]) {
        lemma_trim_start_len(s.skip(1));
    }
}

/// The words of `s`: its longest runs of characters that are no white space.
pub open spec fn words(s: Seq<char>) -> Seq<Seq<char>>
    decreases s.len(),
{
    let rest = trim_start(s);
    if rest.len() == 0 {
        Seq::empty()
    } else {
        proof {
            lemma_trim_start_len(s);
            lemma_word_len(rest);
            assert(word_len(rest) >= 1);
        }
        seq![rest.take(word_len(rest) as int)] + words(rest.skip(word_len(rest) as int))
    }
}

/// The parts one behind the other, with `sep` between each two.
pub open spec fn join(parts: Seq<Seq<char>>, sep: Seq<char>) -> Seq<char>
    decreases parts.len(),
{
    if parts.len() == 0 {
        Seq::empty()
    } else if parts.len() == 1 {
        parts[0]
    } else {
        join(parts.drop_last(), sep) + sep + parts.last()
    }
}

/// `parts` one behind the other, with `sep` between them.
pub fn join_texts(parts: &Vec<String>, sep: &str) -> (result: String)
    ensures
        result@ == join(texts_view(parts@), sep@),
{
    let ghost views = texts_view(parts@);
    let mut result = String::new();
    let mut i: usize = 0;
    proof {
        assert(join(views.take(0), sep@) =~= Seq::<char>::empty());
    }
    while i < parts.len()
        invariant
            i <= parts@.len(),
            views == texts_view(parts@),
            result@ == join(views.take(i as int), sep@),
        decreases parts@.len() - i,
    {
        proof {
            assert(views.take(i + 1).drop_last() =~= views.take(i as int));
            assert(views.take(i + 1).last() == parts@[i as int]@);
        }
        if i > 0 {
            push_text(&mut result, sep);
        }
        push_text(&mut result, parts[i].as_str());
        proof {
            assert(result@ =~= join(views.take(i + 1), sep@));
        }
        i += 1;
    }
    proof {
        assert(views.take(i as int) =~= views);
    }
    result
}

/// `s` with every run of white space made one blank, and none at the ends.
pub open spec fn collapsed(s: Seq<char>) -> Seq<char> {
    join(words(s), seq![' '])
}

/// `text` with its words separated by single blanks.
pub fn collapse(text: &str) -> (result: String)
    ensures
        result@ == collapsed(text@),
{
    let chars = chars_of(text);
    let mut result = String::new();
    let mut at: usize = 0;
    let ghost mut done: Seq<Seq<char>> = Seq::empty();
    assert(chars@.skip(0) =~= chars@);
    assert(done + words(chars@) =~= words(chars@));
    while at < chars.len()
        invariant
            at <= chars@.len(),
            chars@ == text@,
            result@ == join(done, seq![' ']),
            done + words(chars@.skip(at as int)) == words(text@),
            done.len() == 0 <==> result@.len() == 0,
            forall|i: int| 0 <= i < done.len() ==> (#[trigger] done[i]).len() > 0,
        decreases chars@.len() - at,
    {
        let ghost rest = chars@.skip(at as int);
        if is_whitespace(chars[at]) {
            proof {
                assert(rest.skip(1) =~= chars@.skip(at + 1));
                assert(trim_start(rest) == trim_start(rest.skip(1)));
                reveal_with_fuel(words, 2);
            }
            at += 1;
        } else {
            let start: usize = at;
            proof {
                lemma_word_len(rest);
            }
            let ghost len = word_len(rest);
            while at < chars.len() && !is_whitespace(chars[at])
                invariant
                    start <= at <= chars@.len(),
                    at <= start + len,
                    rest == chars@.skip(start as int),
                    len == word_len(rest),
                    len <= rest.len(),
                    forall|i: int| 0 <= i < len ==> !is_white(#[trigger] rest[i]),
                    len < rest.len() ==> is_white(rest[len as int]),
                decreases chars@.len() - at,
            {
                proof {
                    assert(rest[at - start] == chars@[at as int]);
                }
                at += 1;
            }
            proof {
                if at < start + len {
                    assert(rest[at - start] == chars@[at as int]);
                }
                assert(at == start + len);
                assert(rest[0] == chars@[start as int]);
                assert(trim_start(rest) == rest);
                let word = rest.take(len as int);
                assert(word =~= chars@.subrange(start as int, at as int));
                assert(rest.skip(len as int) =~= chars@.skip(at as int));
                assert(words(rest) == seq![word] + words(rest.skip(len as int)));
                assert(done.push(word) + words(chars@.skip(at as int)) =~= done + words(rest));
                assert(done.push(word).drop_last() =~= done);
                done = done.push(word);
            }
            if !result.as_str().is_empty() {
                result.push(' ');
            }
            push_chars(&mut result, &chars, start, at);
            proof {
                assert(result@ =~= join(done, seq![' ']));
            }
        }
    }
    proof {
        assert(chars@.skip(at as int).len() == 0);
        assert(done + words(chars@.skip(at as int)) =~= done);
    }
    result
}

// ---------------------------------------------------------------------------
// Splitting and reading numbers

/// The index of the first `sep` in `s`, its length if there is none.
pub open spec fn first_index(s: Seq<char>, sep: char) -> nat
    decreases s.len(),
{
    if s.len() == 0 || s[0] == sep {
        0
    } else {
        1 + first_index(s.skip(1), sep)
    }
}

pub proof fn lemma_first_index(s: Seq<char>, sep: char)
    ensures
        first_index(s, sep) <= s.len(),
        forall|i: int| 0 <= i < first_index(s, sep) ==> #[trigger] s[i] != sep,
        first_index(s, sep) < s.len() ==> s[first_index(s, sep) as int] == sep,
    decreases s.len(),
{
    if s.len() > 0 && s[0] != sep {
        lemma_first_index(s.skip(1), sep);
        assert forall|i: int| 0 <= i < first_index(s, sep) implies #[trigger] s[i] != sep by {
            if i > 0 {
                assert(s[i] == s.skip(1)[i - 1]);
            }
        }
    }
}

/// The first index is where the separator stands for the first time.
pub proof fn lemma_first_index_is(s: Seq<char>, sep: char, at: int)
    requires
        0 <= at <= s.len(),
        forall|i: int| 0 <= i < at ==> #[trigger] s[i] != sep,
        at < s.len() ==> s[at] == sep,
    ensures
        first_index(s, sep) == at,
{
    lemma_first_index(s, sep);
    let k = first_index(s, sep) as int;
    if k < at {
        assert(s[k] != sep);
    }
    if at < k {
        assert(s[at] != sep);
    }
}

/// The parts of `s` between the separators; one more than there are separators.
pub open spec fn split_on(s: Seq<char>, sep: char) -> Seq<Seq<char>>
    decreases s.len(),
{
    let k = first_index(s, sep);
    if k < s.len() {
        seq![s.take(k as int)] + split_on(s.skip(k as int + 1), sep)
    } else {
        seq![s]
    }
}

/// Where each part of `chars` between separators begins and ends.
pub fn split_ranges(chars: &Vec<char>, sep: char) -> (ranges: Vec<(usize, usize)>)
    ensures
        ranges@.len() == split_on(chars@, sep).len(),
        ranges@.len() >= 1,
        forall|i: int|
            0 <= i < ranges@.len() ==> (#[trigger] ranges@[i]).0 <= ranges@[i].1 <= chars@.len()
                && chars@.subrange(ranges@[i].0 as int, ranges@[i].1 as int) == split_on(
                chars@,
                sep,
            )[i],
{
    let mut ranges: Vec<(usize, usize)> = Vec::new();
    let mut start: usize = 0;
    let mut at: usize = 0;
    let ghost mut done: Seq<Seq<char>> = Seq::empty();
    proof {
        assert(chars@.skip(0) =~= chars@);
        assert(done + split_on(chars@, sep) =~= split_on(chars@, sep));
    }
    while at < chars.len()
        invariant
            start <= at <= chars@.len(),
            done + split_on(chars@.skip(start as int), sep) == split_on(chars@, sep),
            ranges@.len() == done.len(),
            forall|i: int|
                0 <= i < ranges@.len() ==> (#[trigger] ranges@[i]).0 <= ranges@[i].1 <= chars@.len()
                    && chars@.subrange(ranges@[i].0 as int, ranges@[i].1 as int) == done[i],
            forall|i: int| start <= i < at ==> #[trigger] chars@[i] != sep,
        decreases chars@.len() - at,
    {
        if chars[at] == sep {
            proof {
                let rest = chars@.skip(start as int);
                assert forall|i: int| 0 <= i < at - start implies #[trigger] rest[i] != sep by {
                    assert(rest[i] == chars@[start + i]);
                }
                lemma_first_index_is(rest, sep, at - start);
                let part = rest.take(at - start);
                assert(part =~= chars@.subrange(start as int, at as int));
                assert(rest.skip(at - start + 1) =~= chars@.skip(at + 1));
                assert(done.push(part) + split_on(chars@.skip(at + 1), sep) =~= done + split_on(
                    rest,
                    sep,
                ));
                done = done.push(part);
            }
            ranges.push((start, at));
            start = at + 1;
        }
        at += 1;
    }
    proof {
        let rest = chars@.skip(start as int);
        assert forall|i: int| 0 <= i < at - start implies #[trigger] rest[i] != sep by {
            assert(rest[i] == chars@[start + i]);
        }
        lemma_first_index_is(rest, sep, at - start);
        assert(rest =~= chars@.subrange(start as int, at as int));
        assert(split_on(rest, sep) == seq![rest]);
        assert(split_on(chars@, sep) =~= done.push(rest));
    }
    ranges.push((start, at));
    ranges
}

/// Whether `c` is one of the digits `0` to `9`.
pub open spec fn is_digit(c: char) -> bool {
    '0' <= c <= '9'
}

/// The number that a sequence of digits stands for.
pub open spec fn digits_value(s: Seq<char>) -> nat
    decreases s.len(),
{
    if s.len() == 0 {
        0
    } else {
        digits_value(s.drop_last()) * 10 + (s.last() as nat - 48) as nat
    }
}

/// `s` without the one plus sign that may stand before a number.
pub open spec fn without_plus(s: Seq<char>) -> Seq<char> {
    if s.len() > 0 && s[0] == '+' {
        s.skip(1)
    } else {
        s
    }
}

/// The number that `s` writes: digits, at least one, with an optional plus
/// sign before them and nothing else. `None` for any other text.
pub open spec fn unsigned_value(s: Seq<char>) -> Option<nat> {
    let body = without_plus(s);
    if body.len() > 0 && (forall|i: int| 0 <= i < body.len() ==> is_digit(#[trigger] body[i])) {
        Some(digits_value(body))
    } else {
        None
    }
}

/// Reads `chars[from..to]` as an unsigned number of 32 bits.
pub fn parse_u32(chars: &Vec<char>, from: usize, to: usize) -> (result: Option<u32>)
    requires
        from <= to <= chars@.len(),
    ensures
        ({
            let value = unsigned_value(chars@.subrange(from as int, to as int));
            match result {
                Some(n) => value == Some(n as nat),
                None => value is None || value->0 > u32::MAX,
            }
        }),
{
    let ghost s = chars@.subrange(from as int, to as int);
    let ghost body = without_plus(s);
    let start: usize = if from < to && chars[from] == '+' { from + 1 } else { from };
    proof {
        assert(body =~= chars@.subrange(start as int, to as int));
    }
    if start == to {
        return None;
    }
    let mut value: u64 = 0;
    let mut large: bool = false;
    let mut at: usize = start;
    while at < to
        invariant
            from <= start <= at <= to <= chars@.len(),
            body == without_plus(chars@.subrange(from as int, to as int)),
            body == chars@.subrange(start as int, to as int),
            forall|i: int| 0 <= i < at - start ==> is_digit(#[trigger] body[i]),
            value <= u32::MAX,
            !large ==> value == digits_value(body.take(at - start)),
            large ==> digits_value(body.take(at - start)) > u32::MAX,
        decreases to - at,
    {
        let c = chars[at];
        proof {
            assert(body[at - start] == c);
            assert(body.take(at - start + 1).drop_last() =~= body.take(at - start));
        }
        if c < '0' || c > '9' {
            assert(!is_digit(body[at - start]));
            return None;
        }
        if !large {
            let next: u64 = value * 10 + (c as u64 - 48);
            if next > u32::MAX as u64 {
                large = true;
            } else {
                value = next;
            }
        }
        at += 1;
    }
    proof {
        assert(body.take(to - start) =~= body);
    }
    if large {
        None
    } else {
        Some(value as u32)
    }
}

/// Reading the padded decimal form of a number gives the number back.
pub proof fn padded_reads_back(n: nat, width: nat)
    ensures
        unsigned_value(padded(n, width)) == Some(n),
{
    lemma_padded_digits(n, width);
    lemma_padded_value(n, width);
}

/// A padded number is made of digits, at least one and at least `width`.
pub proof fn lemma_padded_digits(n: nat, width: nat)
    ensures
        padded(n, width).len() >= 1,
        padded(n, width).len() >= width,
        forall|i: int|
            0 <= i < padded(n, width).len() ==> is_digit(#[trigger] padded(n, width)[i]),
{
    lemma_decimal_digits(n);
}

proof fn lemma_padded_value(n: nat, width: nat)
    ensures
        digits_value(padded(n, width)) == n,
    decreases n, width,
{
    if n >= 10 || width >= 2 {
        let shorter: nat = if width == 0 { 0 } else { (width - 1) as nat };
        lemma_padded_step(n, width);
        lemma_padded_value(n / 10, shorter);
        assert(padded(n / 10, shorter).push(digit_char((n % 10) as int)).drop_last() =~= padded(
            n / 10,
            shorter,
        ));
    } else {
        assert(padded(n, width) =~= seq![digit_char(n as int)]);
        assert(padded(n, width).drop_last() =~= Seq::<char>::empty());
        reveal_with_fuel(digits_value, 2);
    }
}

/// A part without separators splits into itself; a separator behind it starts
/// the next part.
pub proof fn lemma_split_on_concat(head: Seq<char>, tail: Seq<char>, sep: char)
    requires
        forall|i: int| 0 <= i < head.len() ==> #[trigger] head[i] != sep,
    ensures
        split_on(head, sep) == seq![head],
        split_on(head.push(sep) + tail, sep) == seq![head] + split_on(tail, sep),
{
    lemma_first_index_is(head, sep, head.len() as int);
    let s = head.push(sep) + tail;
    assert forall|i: int| 0 <= i < head.len() implies #[trigger] s[i] != sep by {
        assert(s[i] == head[i]);
    }
    lemma_first_index_is(s, sep, head.len() as int);
    assert(s.take(head.len() as int) =~= head);
    assert(s.skip(head.len() as int + 1) =~= tail);
}

// ---------------------------------------------------------------------------
// Letters, prefixes, order, shortening

/// The ASCII lower case of `c`; other characters stay as they are.
pub open spec fn ascii_lower(c: char) -> char {
    if 'A' <= c <= 'Z' {
        (c as int + 32) as char
    } else {
        c
    }
}

/// `s` with its ASCII letters in lower case.
pub open spec fn ascii_lowered(s: Seq<char>) -> Seq<char> {
    s.map_values(|c: char| ascii_lower(c))
}

/// `text` with its ASCII letters in lower case.
pub fn to_ascii_lowercase(text: &str) -> (result: String)
    ensures
        result@ == ascii_lowered(text@),
{
    let chars = chars_of(text);
    let mut result = String::new();
    let mut i: usize = 0;
    while i < chars.len()
        invariant
            i <= chars@.len(),
            chars@ == text@,
            result@ == ascii_lowered(text@).take(i as int),
        decreases chars@.len() - i,
    {
        let c = chars[i];
        let lower: char = if 'A' <= c && c <= 'Z' { (c as u8 + 32) as char } else { c };
        proof {
            assert(ascii_lowered(text@)[i as int] == ascii_lower(text@[i as int]));
        }
        result.push(lower);
        i += 1;
    }
    result
}

/// Whether `s` begins with `prefix`.
pub open spec fn has_prefix(s: Seq<char>, prefix: Seq<char>) -> bool {
    prefix.len() <= s.len() && s.take(prefix.len() as int) == prefix
}

/// Whether `text` begins with `prefix`.
pub fn starts_with(text: &str, prefix: &str) -> (yes: bool)
    ensures
        yes == has_prefix(text@, prefix@),
{
    let a = chars_of(text);
    let b = chars_of(prefix);
    if b.len() > a.len() {
        return false;
    }
    let mut i: usize = 0;
    while i < b.len()
        invariant
            i <= b@.len() <= a@.len(),
            a@ == text@,
            b@ == prefix@,
            a@.take(i as int) == b@.take(i as int),
        decreases b@.len() - i,
    {
        if a[i] != b[i] {
            proof {
                assert(text@.take(b@.len() as int)[i as int] == a@[i as int]);
            }
            return false;
        }
        proof {
            assert(a@.take(i + 1) =~= a@.take(i as int).push(a@[i as int]));
            assert(b@.take(i + 1) =~= b@.take(i as int).push(b@[i as int]));
        }
        i += 1;
    }
    proof {
        assert(b@.take(b@.len() as int) =~= b@);
    }
    true
}

/// The dictionary order of texts, by the code points of their characters.
pub open spec fn text_before(a: Seq<char>, b: Seq<char>) -> bool
    decreases a.len(),
{
    if b.len() == 0 {
        false
    } else if a.len() == 0 {
        true
    } else if a[0] == b[0] {
        text_before(a.skip(1), b.skip(1))
    } else {
        a[0] < b[0]
    }
}

/// Whether `a` stands before `b` in dictionary order.
pub fn is_before(a: &str, b: &str) -> (before: bool)
    ensures
        before == text_before(a@, b@),
{
    let x = chars_of(a);
    let y = chars_of(b);
    let mut i: usize = 0;
    proof {
        assert(x@.skip(0) =~= x@);
        assert(y@.skip(0) =~= y@);
    }
    while i < x.len() && i < y.len()
        invariant
            i <= x@.len(),
            i <= y@.len(),
            x@ == a@,
            y@ == b@,
            text_before(x@.skip(i as int), y@.skip(i as int)) == text_before(a@, b@),
        decreases x@.len() - i,
    {
        proof {
            assert(x@.skip(i as int).skip(1) =~= x@.skip(i + 1));
            assert(y@.skip(i as int).skip(1) =~= y@.skip(i + 1));
        }
        if x[i] != y[i] {
            return x[i] < y[i];
        }
        i += 1;
    }
    i < y.len()
}

/// Of two different texts one stands before the other, and never both.
pub proof fn text_order_is_total(a: Seq<char>, b: Seq<char>)
    ensures
        !text_before(a, a),
        a != b ==> (text_before(a, b) <==> !text_before(b, a)),
        text_before(a, b) ==> a != b && !text_before(b, a),
    decreases a.len(),
{
    if a.len() > 0 {
        text_order_is_total(a.skip(1), a.skip(1));
        if b.len() > 0 && a[0] == b[0] {
            text_order_is_total(a.skip(1), b.skip(1));
            if a.skip(1) == b.skip(1) {
                assert(a =~= seq![a[0]] + a.skip(1));
                assert(b =~= seq![b[0]] + b.skip(1));
            }
        }
    } else if b.len() == 0 {
        assert(a =~= b);
    }
}

/// The order carries over: what stands before something before `c` stands before `c`.
pub proof fn text_order_is_transitive(a: Seq<char>, b: Seq<char>, c: Seq<char>)
    requires
        text_before(a, b),
        text_before(b, c),
    ensures
        text_before(a, c),
    decreases a.len(),
{
    if a.len() > 0 && a[0] == b[0] && b[0] == c[0] {
        text_order_is_transitive(a.skip(1), b.skip(1), c.skip(1));
    }
}

/// `s`, or its first `max` characters and an ellipsis where it is longer.
pub open spec fn shortened(s: Seq<char>, max: nat) -> Seq<char> {
    if s.len() <= max {
        s
    } else {
        s.take(max as int).push('…')
    }
}

/// `text` cut down to `max_chars` characters, with an ellipsis where something was cut.
pub fn truncate_chars(text: &str, max_chars: usize) -> (result: String)
    ensures
        result@ == shortened(text@, max_chars as nat),
{
    let chars = chars_of(text);
    if chars.len() <= max_chars {
        copy_text(text)
    } else {
        let mut cut = slice_text(&chars, 0, max_chars);
        cut.push('…');
        proof {
            assert(chars@.subrange(0, max_chars as int) =~= text@.take(max_chars as int));
        }
        cut
    }
}

// ---------------------------------------------------------------------------
// What holds of texts

/// White space is what Unicode counts as white space, by the numbers of the characters.
pub proof fn white_space_by_numbers(c: char)
    ensures
        is_white(c) <==> {
            let n = c as u32 as int;
            ||| 9 <= n <= 13
            ||| n == 32
            ||| n == 0x85
            ||| n == 0xa0
            ||| n == 0x1680
            ||| 0x2000 <= n <= 0x200a
            ||| n == 0x2028
            ||| n == 0x2029
            ||| n == 0x202f
            ||| n == 0x205f
            ||| n == 0x3000
        },
{
}

proof fn lemma_word_len_is(s: Seq<char>, k: int)
    requires
        0 <= k <= s.len(),
        forall|i: int| 0 <= i < k ==> !is_white(#[trigger] s[i]),
        k < s.len() ==> is_white(s[k]),
    ensures
        word_len(s) == k,
{
    lemma_word_len(s);
    let w = word_len(s) as int;
    if w < k {
        assert(!is_white(s[w]));
    }
    if k < w {
        assert(!is_white(s[k]));
    }
}

/// The words of a text, character by character: white space ends a word and
/// starts none, any other character lengthens the last word, or starts a new
/// one at the beginning and behind white space.
pub proof fn words_grow_by_characters(s: Seq<char>, c: char)
    ensures
        words(Seq::<char>::empty()) == Seq::<Seq<char>>::empty(),
        s.len() > 0 && !is_white(s.last()) ==> words(s).len() > 0,
        is_white(c) ==> words(s.push(c)) == words(s),
        !is_white(c) && (s.len() == 0 || is_white(s.last())) ==> words(s.push(c)) == words(s).push(
            seq![c],
        ),
        !is_white(c) && s.len() > 0 && !is_white(s.last()) ==> words(s.push(c))
            == words(s).drop_last().push(words(s).last().push(c)),
    decreases s.len(),
{
    let none = Seq::<char>::empty();
    assert(words(none) =~= Seq::<Seq<char>>::empty());
    let t = s.push(c);
    if s.len() == 0 {
        if is_white(c) {
            assert(t.skip(1) =~= none);
            assert(trim_start(t) =~= none) by {
                reveal_with_fuel(trim_start, 2);
            }
            assert(words(t) =~= words(s));
        } else {
            lemma_word_len_is(t, 1);
            assert(trim_start(t) == t);
            assert(t.take(1) =~= seq![c]);
            assert(t.skip(1) =~= none);
            assert(words(t) =~= words(s).push(seq![c]));
        }
    } else if is_white(s[0]) {
        let r = s.skip(1);
        assert(t.skip(1) =~= r.push(c));
        assert(trim_start(s) == trim_start(r));
        assert(trim_start(t) == trim_start(t.skip(1)));
        assert(words(s) == words(r)) by {
            reveal_with_fuel(words, 1);
        }
        assert(words(t) == words(r.push(c))) by {
            reveal_with_fuel(words, 1);
        }
        words_grow_by_characters(r, c);
        if r.len() > 0 {
            assert(r.last() == s.last());
        }
    } else {
        lemma_word_len(s);
        let k = word_len(s) as int;
        assert(k >= 1);
        assert(trim_start(s) == s);
        assert(t[0] == s[0]);
        assert(trim_start(t) == t);
        assert(words(s) == seq![s.take(k)] + words(s.skip(k)));
        if k == s.len() {
            assert(s.take(k) =~= s);
            assert(s.skip(k) =~= none);
            assert(words(s) =~= seq![s]);
            assert(!is_white(s[k - 1]));
            if is_white(c) {
                assert forall|i: int| 0 <= i < k implies !is_white(#[trigger] t[i]) by {
                    assert(t[i] == s[i]);
                }
                lemma_word_len_is(t, k);
                assert(t.take(k) =~= s);
                assert(t.skip(k) =~= none.push(c));
                words_grow_by_characters(none, c);
                assert(words(t) =~= seq![s]);
            } else {
                assert forall|i: int| 0 <= i < k + 1 implies !is_white(#[trigger] t[i]) by {
                    if i < k {
                        assert(t[i] == s[i]);
                    }
                }
                lemma_word_len_is(t, k + 1);
                assert(t.take(k + 1) =~= t);
                assert(t.skip(k + 1) =~= none);
                assert(words(t) =~= seq![t]);
                assert(words(s).drop_last().push(words(s).last().push(c)) =~= seq![t]);
            }
        } else {
            assert forall|i: int| 0 <= i < k implies !is_white(#[trigger] t[i]) by {
                assert(t[i] == s[i]);
            }
            assert(t[k] == s[k]);
            lemma_word_len_is(t, k);
            let r = s.skip(k);
            assert(t.take(k) =~= s.take(k));
            assert(t.skip(k) =~= r.push(c));
            assert(r.last() == s.last());
            words_grow_by_characters(r, c);
            assert(words(t) == seq![s.take(k)] + words(r.push(c)));
            if is_white(c) {
                assert(words(t) =~= words(s));
            } else if is_white(s.last()) {
                assert(words(t) =~= words(s).push(seq![c]));
            } else {
                assert(words(t) =~= words(s).drop_last().push(words(s).last().push(c)));
            }
        }
    }
}

/// Parts are joined from left to right, with the separator between each two.
pub proof fn parts_are_joined_in_order(parts: Seq<Seq<char>>, part: Seq<char>, sep: Seq<char>)
    ensures
        join(Seq::<Seq<char>>::empty(), sep) == Seq::<char>::empty(),
        join(seq![part], sep) == part,
        parts.len() > 0 ==> join(parts.push(part), sep) == join(parts, sep) + sep + part,
{
    assert(parts.push(part).drop_last() =~= parts);
}

/// No word is empty or holds white space.
pub proof fn words_are_words(s: Seq<char>, i: int)
    requires
        0 <= i < words(s).len(),
    ensures
        words(s)[i].len() > 0,
        forall|k: int| 0 <= k < words(s)[i].len() ==> !is_white(#[trigger] words(s)[i][k]),
    decreases s.len(),
{
    let rest = trim_start(s);
    lemma_trim_start_len(s);
    lemma_word_len(rest);
    let k = word_len(rest) as int;
    if i > 0 {
        words_are_words(rest.skip(k), i - 1);
        assert(words(s)[i] == words(rest.skip(k))[i - 1]);
    } else {
        assert(words(s)[0] == rest.take(k));
    }
}

proof fn lemma_word_behind(a: Seq<char>, word: Seq<char>)
    requires
        a.len() == 0 || is_white(a.last()),
        word.len() > 0,
        forall|k: int| 0 <= k < word.len() ==> !is_white(#[trigger] word[k]),
    ensures
        words(a + word) == words(a).push(word),
    decreases word.len(),
{
    let head = word.drop_last();
    let c = word.last();
    assert(a + word =~= (a + head).push(c));
    words_grow_by_characters(a + head, c);
    if head.len() == 0 {
        assert(a + head =~= a);
        assert(word =~= seq![c]);
    } else {
        assert forall|k: int| 0 <= k < head.len() implies !is_white(#[trigger] head[k]) by {
            assert(head[k] == word[k]);
        }
        lemma_word_behind(a, head);
        assert((a + head).last() == head.last());
        assert(head.push(c) =~= word);
        assert(words(a).push(head).drop_last() =~= words(a));
    }
}

proof fn lemma_words_of_joined(parts: Seq<Seq<char>>)
    requires
        forall|i: int| 0 <= i < parts.len() ==> (#[trigger] parts[i]).len() > 0,
        forall|i: int, k: int|
            0 <= i < parts.len() && 0 <= k < parts[i].len() ==> !is_white(#[trigger] parts[i][k]),
    ensures
        words(join(parts, seq![' '])) == parts,
    decreases parts.len(),
{
    let none = Seq::<char>::empty();
    words_grow_by_characters(none, ' ');
    if parts.len() == 0 {
        assert(join(parts, seq![' ']) =~= none);
        assert(words(join(parts, seq![' '])) =~= parts);
    } else {
        let shorter = parts.drop_last();
        let word = parts.last();
        assert(word == parts[parts.len() - 1]);
        assert forall|k: int| 0 <= k < word.len() implies !is_white(#[trigger] word[k]) by {
            assert(word[k] == parts[parts.len() - 1][k]);
        }
        if shorter.len() == 0 {
            assert(none + word =~= word);
            lemma_word_behind(none, word);
            assert(join(parts, seq![' ']) == word);
            assert(words(word) =~= parts);
        } else {
            assert forall|i: int| 0 <= i < shorter.len() implies (#[trigger] shorter[i]).len()
                > 0 by {
                assert(shorter[i] == parts[i]);
            }
            assert forall|i: int, k: int|
                0 <= i < shorter.len() && 0 <= k < shorter[i].len() implies !is_white(
                #[trigger] shorter[i][k],
            ) by {
                assert(shorter[i][k] == parts[i][k]);
            }
            lemma_words_of_joined(shorter);
            let a = join(shorter, seq![' ']);
            words_grow_by_characters(a, ' ');
            assert(a + seq![' '] =~= a.push(' '));
            lemma_word_behind(a.push(' '), word);
            assert(join(parts, seq![' ']) =~= a.push(' ') + word);
            assert(shorter.push(word) =~= parts);
        }
    }
}

/// Collapsing keeps every word whole and in its place: the result has the words
/// of the text, and it is them with one blank between each two. It is empty for
/// a text of white space alone.
pub proof fn collapsing_keeps_the_words(s: Seq<char>)
    ensures
        words(collapsed(s)) == words(s),
        collapsed(s) == join(words(s), seq![' ']),
        collapsed(s).len() == 0 <==> (forall|i: int| 0 <= i < s.len() ==> is_white(#[trigger] s[i])),
{
    let parts = words(s);
    assert forall|i: int| 0 <= i < parts.len() implies (#[trigger] parts[i]).len() > 0 by {
        words_are_words(s, i);
    }
    assert forall|i: int, k: int|
        0 <= i < parts.len() && 0 <= k < parts[i].len() implies !is_white(
        #[trigger] parts[i][k],
    ) by {
        words_are_words(s, i);
    }
    lemma_words_of_joined(parts);
    words_grow_by_characters(Seq::<char>::empty(), ' ');
    if parts.len() == 0 {
        assert(collapsed(s).len() == 0);
    } else if collapsed(s).len() == 0 {
        assert(collapsed(s) =~= Seq::<char>::empty());
    }
    lemma_no_words(s);
}

proof fn lemma_no_words(s: Seq<char>)
    ensures
        words(s).len() == 0 <==> (forall|i: int| 0 <= i < s.len() ==> is_white(#[trigger] s[i])),
    decreases s.len(),
{
    let none = Seq::<char>::empty();
    words_grow_by_characters(none, ' ');
    if s.len() == 0 {
        assert(s =~= none);
    } else {
        let shorter = s.drop_last();
        assert(s =~= shorter.push(s.last()));
        words_grow_by_characters(shorter, s.last());
        lemma_no_words(shorter);
        assert forall|i: int| 0 <= i < shorter.len() implies shorter[i] == s[i] by {}
        if is_white(s.last()) {
            if forall|i: int| 0 <= i < shorter.len() ==> is_white(#[trigger] shorter[i]) {
                assert forall|i: int| 0 <= i < s.len() implies is_white(#[trigger] s[i]) by {
                    if i < shorter.len() {
                        assert(is_white(shorter[i]));
                    }
                }
            } else {
                let k = choose|i: int| 0 <= i < shorter.len() && !is_white(#[trigger] shorter[i]);
                assert(!is_white(s[k]));
            }
        } else {
            assert(!is_white(s[s.len() - 1]));
        }
    }
}

proof fn lemma_trim_start_is_suffix(s: Seq<char>) -> (from: int)
    ensures
        0 <= from <= s.len(),
        trim_start(s) == s.skip(from),
        forall|i: int| 0 <= i < from ==> is_white(#[trigger] s[i]),
    decreases s.len(),
{
    if s.len() > 0 && is_white(s[0]) {
        let k = lemma_trim_start_is_suffix(s.skip(1));
        assert(s.skip(1).skip(k) =~= s.skip(k + 1));
        assert forall|i: int| 0 <= i < k + 1 implies is_white(#[trigger] s[i]) by {
            if i > 0 {
                assert(s[i] == s.skip(1)[i - 1]);
            }
        }
        k + 1
    } else {
        assert(s.skip(0) =~= s);
        0
    }
}

proof fn lemma_trim_end_is_prefix(s: Seq<char>) -> (to: int)
    ensures
        0 <= to <= s.len(),
        trim_end(s) == s.take(to),
        forall|i: int| to <= i < s.len() ==> is_white(#[trigger] s[i]),
        to > 0 ==> !is_white(s[to - 1]),
    decreases s.len(),
{
    if s.len() > 0 && is_white(s.last()) {
        let shorter = s.drop_last();
        let k = lemma_trim_end_is_prefix(shorter);
        assert(shorter.take(k) =~= s.take(k));
        assert forall|i: int| k <= i < s.len() implies is_white(#[trigger] s[i]) by {
            if i < shorter.len() {
                assert(s[i] == shorter[i]);
            }
        }
        k
    } else {
        assert(s.take(s.len() as int) =~= s);
        s.len() as int
    }
}

/// Trimming takes away white space at both ends and nothing else, and leaves
/// none there.
pub proof fn trimming_takes_the_ends(s: Seq<char>)
    ensures
        exists|from: int, to: int|
            {
                &&& 0 <= from <= to <= s.len()
                &&& trimmed(s) == #[trigger] s.subrange(from, to)
                &&& forall|i: int| 0 <= i < from ==> is_white(#[trigger] s[i])
                &&& forall|i: int| to <= i < s.len() ==> is_white(#[trigger] s[i])
            },
        trimmed(s).len() > 0 ==> !is_white(trimmed(s)[0]) && !is_white(trimmed(s).last()),
{
    let from = lemma_trim_start_is_suffix(s);
    lemma_trim_start_len(s);
    let rest = s.skip(from);
    let k = lemma_trim_end_is_prefix(rest);
    let to = from + k;
    assert(rest.take(k) =~= s.subrange(from, to));
    assert forall|i: int| to <= i < s.len() implies is_white(#[trigger] s[i]) by {
        assert(s[i] == rest[i - from]);
    }
    if trimmed(s).len() > 0 {
        assert(trimmed(s)[0] == rest[0]);
    }
}

/// Decimal digits, from the last one on: the last digit is the rest by ten, and
/// what stands before it is the tenth part.
pub proof fn digits_are_decimal(n: nat)
    ensures
        decimal(n).len() > 0,
        decimal(n).last() as u32 as int == 48 + n % 10,
        n < 10 ==> decimal(n).len() == 1,
        n >= 10 ==> decimal(n).drop_last() == decimal(n / 10),
{
    if n >= 10 {
        assert(decimal(n).drop_last() =~= decimal(n / 10));
    }
}

/// A number below one hundred, filled up to two digits: its tens and its ones.
pub proof fn two_digits_are_tens_and_ones(n: nat)
    requires
        n < 100,
    ensures
        padded(n, 2) == seq![(48 + n / 10) as char, (48 + n % 10) as char],
{
    reveal_with_fuel(decimal, 3);
    assert(digit_char(0) == '0');
    assert(padded(n, 2) =~= seq![(48 + n / 10) as char, (48 + n % 10) as char]);
}

/// Filling up puts zeros before the digits, just as many as are missing; a
/// negative number has its sign before them, which counts as one of the characters.
pub proof fn filling_up_adds_zeros(n: nat, width: nat)
    ensures
        padded(n, width).len() == if decimal(n).len() < width {
            width
        } else {
            decimal(n).len()
        },
        padded(n, width).skip(padded(n, width).len() - decimal(n).len()) == decimal(n),
        forall|i: int|
            0 <= i < padded(n, width).len() - decimal(n).len() ==> #[trigger] padded(n, width)[i]
                == '0',
        signed_padded(n as int, width) == padded(n, width),
        n > 0 && width > 0 ==> signed_padded(-(n as int), width) == seq!['-'] + padded(
            n,
            (width - 1) as nat,
        ),
        n > 0 ==> signed_padded(-(n as int), 0) == seq!['-'] + decimal(n),
{
    assert(padded(n, width).skip(padded(n, width).len() - decimal(n).len()) =~= decimal(n));
}

/// Shortening keeps what is short enough; of a longer text it keeps the first
/// characters and puts an ellipsis behind them.
pub proof fn shortening_keeps_the_start(s: Seq<char>, max: nat)
    ensures
        s.len() <= max ==> shortened(s, max) == s,
        s.len() > max ==> {
            &&& shortened(s, max).len() == max + 1
            &&& shortened(s, max)[max as int] == '…'
            &&& forall|i: int| 0 <= i < max ==> #[trigger] shortened(s, max)[i] == s[i]
        },
{
}

/// Lower case changes the letters from A to Z and nothing else.
pub proof fn lower_case_changes_capitals_only(s: Seq<char>)
    ensures
        ascii_lowered(s).len() == s.len(),
        forall|i: int|
            0 <= i < s.len() ==> (#[trigger] ascii_lowered(s)[i]) as u32 as int == (if 65
                <= s[i] as u32 && s[i] as u32 <= 90 {
                s[i] as u32 + 32
            } else {
                s[i] as u32 as int
            }),
{
}

/// A text begins with another where something can be put behind the other to give it.
pub proof fn beginnings_can_be_continued(s: Seq<char>, prefix: Seq<char>, rest: Seq<char>)
    ensures
        has_prefix(prefix + rest, prefix),
        has_prefix(s, prefix) ==> s == prefix + s.skip(prefix.len() as int),
{
    assert((prefix + rest).take(prefix.len() as int) =~= prefix);
    if has_prefix(s, prefix) {
        assert(s =~= s.take(prefix.len() as int) + s.skip(prefix.len() as int));
    }
}

/// The first difference decides the order, and what ends before it comes first.
pub proof fn the_first_difference_decides(
    common: Seq<char>,
    a: Seq<char>,
    b: Seq<char>,
)
    requires
        a.len() == 0 || b.len() == 0 || a[0] != b[0],
    ensures
        text_before(common + a, common + b) <==> b.len() > 0 && (a.len() == 0 || a[0] < b[0]),
    decreases common.len(),
{
    if common.len() == 0 {
        assert(common + a =~= a);
        assert(common + b =~= b);
    } else {
        the_first_difference_decides(common.skip(1), a, b);
        assert((common + a)[0] == common[0]);
        assert((common + b)[0] == common[0]);
        assert((common + a).skip(1) =~= common.skip(1) + a);
        assert((common + b).skip(1) =~= common.skip(1) + b);
    }
}

/// Splitting loses nothing: joined again with the separator, the parts give the
/// text back, and no part holds the separator.
pub proof fn split_parts_join_again(s: Seq<char>, sep: char)
    ensures
        split_on(s, sep).len() > 0,
        join(split_on(s, sep), seq![sep]) == s,
        forall|i: int, k: int|
            0 <= i < split_on(s, sep).len() && 0 <= k < split_on(s, sep)[i].len()
                ==> #[trigger] split_on(s, sep)[i][k] != sep,
    decreases s.len(),
{
    lemma_first_index(s, sep);
    let k = first_index(s, sep) as int;
    if k < s.len() {
        let rest = s.skip(k + 1);
        split_parts_join_again(rest, sep);
        lemma_join_front(s.take(k), split_on(rest, sep), seq![sep]);
        assert(s =~= s.take(k) + seq![sep] + rest);
        assert forall|i: int, j: int|
            0 <= i < split_on(s, sep).len() && 0 <= j < split_on(s, sep)[i].len() implies
            #[trigger] split_on(s, sep)[i][j] != sep by {
            if i == 0 {
                assert(split_on(s, sep)[0][j] == s[j]);
            } else {
                assert(split_on(s, sep)[i][j] == split_on(rest, sep)[i - 1][j]);
            }
        }
    }
}

pub(crate) proof fn lemma_join_front(first: Seq<char>, parts: Seq<Seq<char>>, sep: Seq<char>)
    requires
        parts.len() > 0,
    ensures
        join(seq![first] + parts, sep) == first + sep + join(parts, sep),
    decreases parts.len(),
{
    let all = seq![first] + parts;
    assert(all.drop_last() =~= seq![first] + parts.drop_last());
    assert(all.last() == parts.last());
    if parts.len() == 1 {
        assert(all.drop_last() =~= seq![first]);
        assert(join(all.drop_last(), sep) == first);
        assert(join(parts, sep) == parts.last());
        assert(join(all, sep) =~= first + sep + join(parts, sep));
    } else {
        lemma_join_front(first, parts.drop_last(), sep);
        assert(join(all, sep) == join(all.drop_last(), sep) + sep + all.last());
        assert(join(parts, sep) == join(parts.drop_last(), sep) + sep + parts.last());
        assert(join(all, sep) =~= first + sep + join(parts, sep));
    }
}

/// A number is read digit by digit: one more digit makes it ten times as large
/// and adds the digit. One plus sign may stand before it, and nothing else may
/// stand beside the digits.
pub proof fn numbers_are_read_digit_by_digit(s: Seq<char>, c: char)
    ensures
        unsigned_value(Seq::<char>::empty()) is None,
        48 <= c as u32 <= 57 ==> unsigned_value(seq![c]) == Some((c as u32 - 48) as nat),
        48 <= c as u32 <= 57 && s.len() > 0 ==> match unsigned_value(s) {
            Some(n) => unsigned_value(s.push(c)) == Some(n * 10 + (c as u32 - 48) as nat),
            None => s == seq!['+'] || unsigned_value(s.push(c)) is None,
        },
        48 <= c as u32 <= 57 ==> unsigned_value(seq!['+', c]) == Some((c as u32 - 48) as nat),
        s.len() > 0 && !(48 <= c as u32 <= 57) ==> unsigned_value(s.push(c)) is None,
        !(48 <= c as u32 <= 57) ==> unsigned_value(seq![c]) is None,
{
    let none = Seq::<char>::empty();
    let one = seq![c];
    let plus = seq!['+', c];
    let t = s.push(c);
    assert(one.drop_last() =~= none);
    assert(without_plus(plus) =~= one);
    reveal_with_fuel(digits_value, 2);
    if is_digit(c) {
        assert(without_plus(one) == one);
    } else {
        assert(one[0] == c);
        if c == '+' {
            assert(without_plus(one) =~= none);
        }
    }
    if s.len() > 0 {
        let body = without_plus(s);
        assert(t[0] == s[0]);
        assert(without_plus(t) =~= body.push(c));
        let longer = body.push(c);
        assert(longer.drop_last() =~= body);
        assert(longer[body.len() as int] == c);
        if is_digit(c) {
            if unsigned_value(s) is Some {
                assert forall|i: int| 0 <= i < longer.len() implies is_digit(
                    #[trigger] longer[i],
                ) by {
                    if i < body.len() {
                        assert(longer[i] == body[i]);
                    }
                }
            } else if body.len() == 0 {
                assert(s =~= seq!['+']);
            } else {
                let k = choose|i: int| 0 <= i < body.len() && !is_digit(#[trigger] body[i]);
                assert(longer[k] == body[k]);
            }
        }
    }
}

/// A number below ten thousand, filled up to four digits.
pub proof fn four_digits_are_written(n: nat)
    requires
        n < 10000,
    ensures
        padded(n, 4) == seq![
            (48 + n / 1000) as char,
            (48 + n / 100 % 10) as char,
            (48 + n / 10 % 10) as char,
            (48 + n % 10) as char,
        ],
{
    lemma_padded_step(n, 4);
    lemma_padded_step(n / 10, 3);
    two_digits_are_tens_and_ones(n / 100);
    assert(n / 10 / 10 == n / 100);
    assert(n / 100 / 10 == n / 1000);
    assert(padded(n, 4) =~= seq![
        (48 + n / 1000) as char,
        (48 + n / 100 % 10) as char,
        (48 + n / 10 % 10) as char,
        (48 + n % 10) as char,
    ]);
}

} // verus!
