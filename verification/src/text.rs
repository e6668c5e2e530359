//! Reading lines, words and decimal numbers out of the bytes of a small
//! system file.

use vstd::prelude::*;

verus! {

/// The byte that ends a line.
pub const NEWLINE: u8 = 0x0a;

/// The byte that may stand before the end of a line and then belongs to it.
pub const CARRIAGE_RETURN: u8 = 0x0d;

/// The sign that may stand before a number.
pub const PLUS: u8 = 0x2b;

/// `b` is one of the ASCII digits `0` to `9`.
pub open spec fn is_digit(b: u8) -> bool {
    0x30 <= b <= 0x39
}

/// `b` is ASCII white space: a blank, or one of tab, line feed, vertical
/// tab, form feed and carriage return.
pub open spec fn is_space(b: u8) -> bool {
    b == 0x20 || 0x09 <= b <= 0x0d
}

/// The number that the digit `b` stands for; 0 for another byte.
pub open spec fn digit_of(b: u8) -> nat {
    if is_digit(b) {
        (b - 0x30) as nat
    } else {
        0
    }
}

/// Every byte of `s` is a digit.
pub open spec fn all_digits(s: Seq<u8>) -> bool {
    forall|i: int| 0 <= i < s.len() ==> is_digit(s[i])
}

/// The number that the digits `s` write in base ten.
pub open spec fn digits_value(s: Seq<u8>) -> nat
    decreases s.len(),
{
    if s.len() == 0 {
        0
    } else {
        digits_value(s.drop_last()) * 10 + digit_of(s.last())
    }
}

/// `s` without the plus sign that it may begin with.
pub open spec fn unsigned_part(s: Seq<u8>) -> Seq<u8> {
    if s.len() > 0 && s[0] == PLUS {
        s.drop_first()
    } else {
        s
    }
}

/// The number that `s` writes: an optional plus sign, then one digit or
/// more and nothing else, with a value that a `u64` holds. `None` for every
/// other text.
pub open spec fn decimal(s: Seq<u8>) -> Option<u64> {
    let digits = unsigned_part(s);
    if digits.len() > 0 && all_digits(digits) && digits_value(digits) <= u64::MAX {
        Some(digits_value(digits) as u64)
    } else {
        None
    }
}

/// The number of bytes of `s` before its first line end, or the length of
/// `s` where it has none.
pub open spec fn line_length(s: Seq<u8>) -> int
    decreases s.len(),
{
    if s.len() == 0 || s[0] == NEWLINE {
        0
    } else {
        1 + line_length(s.drop_first())
    }
}

/// The first line of `s`, without the line end that closes it and without a
/// carriage return just before that line end.
pub open spec fn first_line(s: Seq<u8>) -> Seq<u8> {
    let n = line_length(s);
    if 0 < n < s.len() && s[n - 1] == CARRIAGE_RETURN {
        s.subrange(0, n - 1)
    } else {
        s.subrange(0, n)
    }
}

/// What follows the first line of `s` and its line end.
pub open spec fn after_first_line(s: Seq<u8>) -> Seq<u8> {
    let n = line_length(s);
    if n < s.len() {
        s.subrange(n + 1, s.len() as int)
    } else {
        Seq::empty()
    }
}

/// The first line of `s` that begins with `key`, if there is one.
pub open spec fn line_with_key(s: Seq<u8>, key: Seq<u8>) -> Option<Seq<u8>>
    decreases s.len(),
{
    if s.len() == 0 {
        None
    } else if key.is_prefix_of(first_line(s)) {
        Some(first_line(s))
    } else {
        proof {
            lemma_line_length(s);
        }
        line_with_key(after_first_line(s), key)
    }
}

/// The length of `s` without the white space at its end.
pub open spec fn trimmed_length(s: Seq<u8>) -> int
    decreases s.len(),
{
    if s.len() == 0 || !is_space(s.last()) {
        s.len() as int
    } else {
        trimmed_length(s.drop_last())
    }
}

/// Where the word of `s` that ends before index `end` begins: the least
/// index from which up to `end` no byte is white space.
pub open spec fn word_start(s: Seq<u8>, end: int) -> int
    decreases end,
{
    if end <= 0 || is_space(s[end - 1]) {
        end
    } else {
        word_start(s, end - 1)
    }
}

/// The last word of `s`, words being parted by white space; empty where `s`
/// holds nothing but white space.
pub open spec fn last_word(s: Seq<u8>) -> Seq<u8> {
    let end = trimmed_length(s);
    s.subrange(word_start(s, end), end)
}

/// A line's length is within the text, no byte before it ends a line, and
/// the byte at it does, where there is one.
pub proof fn lemma_line_length(s: Seq<u8>)
    ensures
        0 <= line_length(s) <= s.len(),
        forall|i: int| 0 <= i < line_length(s) ==> s[i] != NEWLINE,
        line_length(s) < s.len() ==> s[line_length(s)] == NEWLINE,
    decreases s.len(),
{
    if s.len() == 0 || s[0] == NEWLINE {
    } else {
        let rest = s.drop_first();
        lemma_line_length(rest);
        assert forall|i: int| 0 <= i < line_length(s) implies s[i] != NEWLINE by {
            if i > 0 {
                assert(s[i] == rest[i - 1]);
            }
        }
        if line_length(s) < s.len() {
            assert(s[line_length(s)] == rest[line_length(rest)]);
        }
    }
}

/// The index `n` is the line's length where no byte before it ends a line
/// and the byte at it does, or the text ends there.
proof fn lemma_line_length_is(s: Seq<u8>, n: int)
    requires
        0 <= n <= s.len(),
        forall|i: int| 0 <= i < n ==> s[i] != NEWLINE,
        n < s.len() ==> s[n] == NEWLINE,
    ensures
        line_length(s) == n,
    decreases s.len(),
{
    if n == 0 {
    } else {
        let rest = s.drop_first();
        assert(s[0] != NEWLINE);
        assert forall|i: int| 0 <= i < n - 1 implies rest[i] != NEWLINE by {
            assert(rest[i] == s[i + 1]);
        }
        lemma_line_length_is(rest, n - 1);
    }
}

/// The digits of the beginning of a text write no larger number than those
/// of the whole.
proof fn lemma_digits_value_grows(s: Seq<u8>, k: int)
    requires
        0 <= k <= s.len(),
    ensures
        digits_value(s.subrange(0, k)) <= digits_value(s),
    decreases s.len() - k,
{
    if k == s.len() {
        assert(s.subrange(0, k) =~= s);
    } else {
        lemma_digits_value_grows(s.drop_last(), k);
        assert(s.drop_last().subrange(0, k) =~= s.subrange(0, k));
    }
}

/// The index `n` is the trimmed length where only white space follows it and
/// none stands just before it.
proof fn lemma_trimmed_length_is(s: Seq<u8>, n: int)
    requires
        0 <= n <= s.len(),
        forall|i: int| n <= i < s.len() ==> is_space(s[i]),
        n > 0 ==> !is_space(s[n - 1]),
    ensures
        trimmed_length(s) == n,
    decreases s.len(),
{
    if n == s.len() {
    } else {
        let init = s.drop_last();
        assert(is_space(s[s.len() - 1]));
        assert forall|i: int| n <= i < init.len() implies is_space(init[i]) by {
            assert(init[i] == s[i]);
        }
        if n > 0 {
            assert(init[n - 1] == s[n - 1]);
        }
        lemma_trimmed_length_is(init, n);
    }
}

/// The index `start` is where the word before `end` begins, where no byte
/// from it up to `end` is white space and the byte before it is, or it is 0.
proof fn lemma_word_start_is(s: Seq<u8>, start: int, end: int)
    requires
        0 <= start <= end <= s.len(),
        forall|i: int| start <= i < end ==> !is_space(s[i]),
        start > 0 ==> is_space(s[start - 1]),
    ensures
        word_start(s, end) == start,
    decreases end - start,
{
    if start < end {
        assert(!is_space(s[end - 1]));
        lemma_word_start_is(s, start, end - 1);
    }
}

/// The number that the bytes of `text` from `from` up to `to` write.
pub fn parse_decimal(text: &[u8], from: usize, to: usize) -> (number: Option<u64>)
    requires
        from <= to <= text@.len(),
    ensures
        number == decimal(text@.subrange(from as int, to as int)),
{
    let ghost whole = text@.subrange(from as int, to as int);
    let mut i: usize = from;
    if i < to && text[i] == PLUS {
        i = i + 1;
    }
    let start: usize = i;
    let ghost digits = text@.subrange(start as int, to as int);
    assert(digits =~= unsigned_part(whole));
    if start == to {
        return None;
    }
    let mut value: u64 = 0;
    assert(digits.subrange(0, 0) =~= Seq::<u8>::empty());
    while i < to
        invariant
            from <= start <= i <= to <= text@.len(),
            whole == text@.subrange(from as int, to as int),
            digits == text@.subrange(start as int, to as int),
            digits == unsigned_part(whole),
            digits.len() > 0,
            all_digits(digits.subrange(0, i - start)),
            value == digits_value(digits.subrange(0, i - start)),
        decreases to - i,
    {
        let byte: u8 = text[i];
        assert(byte == digits[i - start]);
        if byte < 0x30 || byte > 0x39 {
            return None;
        }
        let digit: u64 = (byte - 0x30) as u64;
        proof {
            assert(digits.subrange(0, i + 1 - start).drop_last() =~= digits.subrange(
                0,
                i - start,
            ));
        }
        if value > (u64::MAX - digit) / 10 {
            proof {
                lemma_digits_value_grows(digits, i + 1 - start);
            }
            return None;
        }
        value = value * 10 + digit;
        proof {
            let next = digits.subrange(0, i + 1 - start);
            assert forall|k: int| 0 <= k < next.len() implies is_digit(next[k]) by {
                if k < i - start {
                    assert(is_digit(digits.subrange(0, i - start)[k]));
                }
            }
        }
        i = i + 1;
    }
    proof {
        assert(digits.subrange(0, i - start) =~= digits);
    }
    Some(value)
}

/// The index of the first line end of `text` at or after `from`, or the
/// length of `text` where none follows.
pub fn find_line_end(text: &[u8], from: usize) -> (end: usize)
    requires
        from <= text@.len(),
    ensures
        from <= end <= text@.len(),
        end - from == line_length(text@.subrange(from as int, text@.len() as int)),
{
    let mut end: usize = from;
    while end < text.len() && text[end] != NEWLINE
        invariant
            from <= end <= text@.len(),
            forall|i: int| from <= i < end ==> text@[i] != NEWLINE,
        decreases text@.len() - end,
    {
        end = end + 1;
    }
    proof {
        lemma_line_length_is(text@.subrange(from as int, text@.len() as int), end - from);
    }
    end
}

/// Whether the bytes of `text` from `from` up to `to` begin with `key`.
pub fn begins_with(text: &[u8], from: usize, to: usize, key: &[u8]) -> (found: bool)
    requires
        from <= to <= text@.len(),
    ensures
        found == key@.is_prefix_of(text@.subrange(from as int, to as int)),
{
    let ghost part = text@.subrange(from as int, to as int);
    if key.len() > to - from {
        return false;
    }
    let mut i: usize = 0;
    while i < key.len()
        invariant
            from <= to <= text@.len(),
            key@.len() <= to - from,
            i <= key@.len(),
            part == text@.subrange(from as int, to as int),
            forall|k: int| 0 <= k < i ==> key@[k] == part[k],
        decreases key@.len() - i,
    {
        if key[i] != text[from + i] {
            proof {
                assert(part[i as int] == text@[from + i]);
                assert(part.subrange(0, key@.len() as int)[i as int] == part[i as int]);
            }
            return false;
        }
        i = i + 1;
    }
    proof {
        assert(key@ =~= part.subrange(0, key@.len() as int));
    }
    true
}

/// Where the last word of the bytes of `text` from `from` up to `to` begins
/// and ends.
pub fn last_word_bounds(text: &[u8], from: usize, to: usize) -> (bounds: (usize, usize))
    requires
        from <= to <= text@.len(),
    ensures
        from <= bounds.0 <= bounds.1 <= to,
        text@.subrange(bounds.0 as int, bounds.1 as int) == last_word(
            text@.subrange(from as int, to as int),
        ),
{
    let ghost part = text@.subrange(from as int, to as int);
    let mut end: usize = to;
    while end > from && is_space_byte(text[end - 1])
        invariant
            from <= end <= to <= text@.len(),
            forall|i: int| end <= i < to ==> is_space(text@[i]),
        decreases end - from,
    {
        end = end - 1;
    }
    let mut start: usize = end;
    while start > from && !is_space_byte(text[start - 1])
        invariant
            from <= start <= end <= to <= text@.len(),
            forall|i: int| start <= i < end ==> !is_space(text@[i]),
        decreases start - from,
    {
        start = start - 1;
    }
    proof {
        lemma_trimmed_length_is(part, end - from);
        lemma_word_start_is(part, start - from, end - from);
        assert(text@.subrange(start as int, end as int) =~= part.subrange(
            start - from,
            end - from,
        ));
    }
    (start, end)
}

/// Whether `b` is ASCII white space.
pub fn is_space_byte(b: u8) -> (space: bool)
    ensures
        space == is_space(b),
{
    b == 0x20 || (0x09 <= b && b <= 0x0d)
}

} // verus!
