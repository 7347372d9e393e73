//! Conversions between strings and their characters.

use vstd::prelude::*;
use vstd::string::StringSliceAdditionalSpecFns;
use vstd::utf8::{decode_utf8, encode_utf8, is_char_boundary, valid_utf8};

verus! {

/// `String::push` appends one character to the string's characters.
pub assume_specification[ String::push ](s: &mut String, c: char)
    ensures
        final(s)@ == old(s)@.push(c),
;

/// The characters of a string slice, in order.
pub fn to_chars(s: &str) -> (chars: Vec<char>)
    ensures
        chars@ == s@,
{
    let mut chars: Vec<char> = Vec::new();
    for c in it: s.chars()
        invariant
            chars@ == it.seq().take(it.index@),
            it.seq() == s@,
    {
        chars.push(c);
    }
    chars
}

/// The string made of the characters `chars[from..to]`.
pub fn from_chars(chars: &Vec<char>, from: usize, to: usize) -> (s: String)
    requires
        from <= to <= chars@.len(),
    ensures
        s@ == chars@.subrange(from as int, to as int),
{
    let mut s = String::new();
    let mut i: usize = from;
    while i < to
        invariant
            from <= i <= to <= chars@.len(),
            s@ == chars@.subrange(from as int, i as int),
        decreases to - i,
    {
        s.push(chars[i]);
        i += 1;
    }
    s
}

/// The characters `chars[from..to]`.
pub fn slice_chars(chars: &Vec<char>, from: usize, to: usize) -> (part: Vec<char>)
    requires
        from <= to <= chars@.len(),
    ensures
        part@ == chars@.subrange(from as int, to as int),
{
    let mut part: Vec<char> = Vec::new();
    let mut i: usize = from;
    while i < to
        invariant
            from <= i <= to <= chars@.len(),
            part@ == chars@.subrange(from as int, i as int),
        decreases to - i,
    {
        part.push(chars[i]);
        i += 1;
    }
    part
}

/// Whether two string slices hold the same characters.
pub fn str_eq(a: &str, b: &str) -> (same: bool)
    ensures
        same == (a@ == b@),
{
    let left = to_chars(a);
    let right = to_chars(b);
    chars_eq(&left, &right)
}

/// Whether two character vectors hold the same characters.
pub fn chars_eq(a: &Vec<char>, b: &Vec<char>) -> (same: bool)
    ensures
        same == (a@ == b@),
{
    if a.len() != b.len() {
        return false;
    }
    let mut i: usize = 0;
    while i < a.len()
        invariant
            a@.len() == b@.len(),
            i <= a@.len(),
            a@.take(i as int) == b@.take(i as int),
        decreases a@.len() - i,
    {
        if a[i] != b[i] {
            return false;
        }
        assert(a@.take(i + 1) == a@.take(i as int).push(a@[i as int]));
        assert(b@.take(i + 1) == b@.take(i as int).push(b@[i as int]));
        i += 1;
    }
    assert(a@.take(a@.len() as int) == a@);
    assert(b@.take(b@.len() as int) == b@);
    true
}

/// The position of the first `c` in `s`, if `s` holds one.
pub open spec fn first_index(s: Seq<char>, c: char) -> Option<nat>
    decreases s.len(),
{
    if s.len() == 0 {
        None
    } else if s[0] == c {
        Some(0)
    } else {
        match first_index(s.drop_first(), c) {
            Some(k) => Some(k + 1),
            None => None,
        }
    }
}

/// `first_index` finds the least position that holds `c`, and none exactly
/// when `c` does not occur.
pub proof fn lemma_first_index(s: Seq<char>, c: char)
    ensures
        match first_index(s, c) {
            Some(k) => k < s.len() && s[k as int] == c && forall|j: int|
                0 <= j < k ==> s[j] != c,
            None => forall|j: int| 0 <= j < s.len() ==> s[j] != c,
        },
        first_index(s, c) is Some <==> s.contains(c),
    decreases s.len(),
{
    if s.len() > 0 && s[0] != c {
        let rest = s.drop_first();
        lemma_first_index(rest, c);
        match first_index(rest, c) {
            Some(k) => {
                assert(rest[k as int] == s[k as int + 1]);
                assert forall|j: int| 0 <= j < k + 1 implies s[j] != c by {
                    if j > 0 {
                        assert(rest[j - 1] == s[j]);
                    }
                }
                assert(s.contains(c));
            },
            None => {
                assert forall|j: int| 0 <= j < s.len() implies s[j] != c by {
                    if j > 0 {
                        assert(rest[j - 1] == s[j]);
                    }
                }
            },
        }
    } else if s.len() > 0 {
        assert(s.contains(c));
    }
}

/// The position, counted from `from`, of the first `c` in `chars[from..]`.
pub fn find_from(chars: &Vec<char>, from: usize, c: char) -> (found: Option<usize>)
    requires
        from <= chars@.len(),
    ensures
        match found {
            Some(k) => first_index(chars@.skip(from as int), c) == Some(k as nat) && from + k
                < chars@.len(),
            None => first_index(chars@.skip(from as int), c) is None,
        },
{
    let mut i: usize = from;
    while i < chars.len()
        invariant
            from <= i <= chars@.len(),
            forall|j: int| from <= j < i ==> chars@[j] != c,
        decreases chars@.len() - i,
    {
        if chars[i] == c {
            proof {
                let rest = chars@.skip(from as int);
                lemma_first_index(rest, c);
                assert(rest[i - from] == c);
                assert forall|j: int| 0 <= j < i - from implies rest[j] != c by {
                    assert(rest[j] == chars@[from + j]);
                }
            }
            return Some(i - from);
        }
        i += 1;
    }
    proof {
        let rest = chars@.skip(from as int);
        lemma_first_index(rest, c);
        assert forall|j: int| 0 <= j < rest.len() implies rest[j] != c by {
            assert(rest[j] == chars@[from + j]);
        }
    }
    None
}

/// Whether `chars` holds `c`.
pub fn chars_contain(chars: &Vec<char>, c: char) -> (found: bool)
    ensures
        found == chars@.contains(c),
{
    let at = find_from(chars, 0, c);
    proof {
        assert(chars@.skip(0) == chars@);
        lemma_first_index(chars@, c);
    }
    at.is_some()
}

/// Whether `s` begins with `prefix`.
pub open spec fn has_prefix(s: Seq<char>, prefix: Seq<char>) -> bool {
    prefix.len() <= s.len() && s.take(prefix.len() as int) == prefix
}

/// Decides `has_prefix`.
pub fn starts_with(s: &Vec<char>, prefix: &Vec<char>) -> (begins: bool)
    ensures
        begins == has_prefix(s@, prefix@),
{
    if prefix.len() > s.len() {
        return false;
    }
    let mut i: usize = 0;
    while i < prefix.len()
        invariant
            i <= prefix@.len() <= s@.len(),
            s@.take(i as int) == prefix@.take(i as int),
        decreases prefix@.len() - i,
    {
        if s[i] != prefix[i] {
            assert(s@.take(prefix@.len() as int)[i as int] != prefix@[i as int]);
            return false;
        }
        assert(s@.take(i + 1) == s@.take(i as int).push(s@[i as int]));
        assert(prefix@.take(i + 1) == prefix@.take(i as int).push(prefix@[i as int]));
        i += 1;
    }
    assert(prefix@.take(prefix@.len() as int) == prefix@);
    true
}

/// Whether `pattern` stands in `text` at the position `at`.
pub fn matches_at(text: &Vec<char>, at: usize, pattern: &Vec<char>) -> (matches: bool)
    requires
        at <= text@.len(),
    ensures
        matches == has_prefix(text@.skip(at as int), pattern@),
{
    let ghost rest = text@.skip(at as int);
    if pattern.len() > text.len() - at {
        return false;
    }
    let mut j: usize = 0;
    while j < pattern.len()
        invariant
            at <= text@.len() <= usize::MAX,
            rest == text@.skip(at as int),
            j <= pattern@.len() <= text@.len() - at,
            rest.take(j as int) == pattern@.take(j as int),
        decreases pattern@.len() - j,
    {
        assert(rest[j as int] == text@[at + j]);
        if text[at + j] != pattern[j] {
            assert(rest.take(pattern@.len() as int)[j as int] != pattern@[j as int]);
            return false;
        }
        assert(rest.take(j + 1) == rest.take(j as int).push(rest[j as int]));
        assert(pattern@.take(j + 1) == pattern@.take(j as int).push(pattern@[j as int]));
        j += 1;
    }
    assert(pattern@.take(pattern@.len() as int) == pattern@);
    true
}

/// `value` before each character of `text` and behind the last.
pub open spec fn interleaved(text: Seq<char>, value: Seq<char>) -> Seq<char>
    decreases text.len(),
{
    if text.len() == 0 {
        value
    } else {
        value + seq![text[0]] + interleaved(text.drop_first(), value)
    }
}

/// `text` with each occurrence of `pattern` replaced by `value`. The
/// occurrences are found from left to right and do not overlap. An empty
/// pattern occurs before each character and at the end.
pub open spec fn replaced(text: Seq<char>, pattern: Seq<char>, value: Seq<char>) -> Seq<char>
    decreases text.len(),
{
    if pattern.len() == 0 {
        interleaved(text, value)
    } else if text.len() == 0 {
        text
    } else if has_prefix(text, pattern) {
        value + replaced(text.skip(pattern.len() as int), pattern, value)
    } else {
        seq![text[0]] + replaced(text.drop_first(), pattern, value)
    }
}

/// Adds the characters of `value` to `out`.
fn push_all(out: &mut Vec<char>, value: &Vec<char>)
    ensures
        final(out)@ == old(out)@ + value@,
{
    let mut k: usize = 0;
    assert(out@ + value@.take(0) == out@);
    while k < value.len()
        invariant
            k <= value@.len(),
            out@ == old(out)@ + value@.take(k as int),
        decreases value@.len() - k,
    {
        out.push(value[k]);
        assert(value@.take(k + 1) == value@.take(k as int).push(value@[k as int]));
        assert(out@ == old(out)@ + value@.take(k + 1));
        k += 1;
    }
    assert(value@.take(value@.len() as int) == value@);
}

/// Replaces each occurrence of `pattern` in `text` by `value`, as `replaced`
/// says.
pub fn replace_all(text: &Vec<char>, pattern: &Vec<char>, value: &Vec<char>) -> (result: Vec<char>)
    ensures
        result@ == replaced(text@, pattern@, value@),
{
    let mut result: Vec<char> = Vec::new();
    if pattern.len() == 0 {
        let mut k: usize = 0;
        assert(text@.skip(0) == text@);
        assert(result@ + interleaved(text@, value@) == interleaved(text@, value@));
        while k < text.len()
            invariant
                k <= text@.len(),
                result@ + interleaved(text@.skip(k as int), value@) == interleaved(text@, value@),
            decreases text@.len() - k,
        {
            let ghost rest = text@.skip(k as int);
            let ghost before = result@;
            push_all(&mut result, value);
            result.push(text[k]);
            proof {
                assert(rest[0] == text@[k as int]);
                assert(rest.drop_first() == text@.skip(k + 1));
                assert(before + (value@ + seq![rest[0]] + interleaved(rest.drop_first(), value@))
                    == (before + value@).push(text@[k as int]) + interleaved(
                    text@.skip(k + 1),
                    value@,
                ));
            }
            k += 1;
        }
        assert(text@.skip(text@.len() as int) == Seq::<char>::empty());
        push_all(&mut result, value);
        return result;
    }
    let mut i: usize = 0;
    assert(text@.skip(0) == text@);
    assert(result@ + replaced(text@, pattern@, value@) == replaced(text@, pattern@, value@));
    while i < text.len()
        invariant
            i <= text@.len(),
            pattern@.len() > 0,
            result@ + replaced(text@.skip(i as int), pattern@, value@) == replaced(
                text@,
                pattern@,
                value@,
            ),
        decreases text@.len() - i,
    {
        let ghost rest = text@.skip(i as int);
        let ghost before = result@;
        if matches_at(text, i, pattern) {
            push_all(&mut result, value);
            proof {
                assert(rest.skip(pattern@.len() as int) == text@.skip(i + pattern@.len()));
                assert(before + (value@ + replaced(
                    rest.skip(pattern@.len() as int),
                    pattern@,
                    value@,
                )) == (before + value@) + replaced(
                    text@.skip(i + pattern@.len()),
                    pattern@,
                    value@,
                ));
            }
            i += pattern.len();
        } else {
            result.push(text[i]);
            proof {
                assert(rest[0] == text@[i as int]);
                assert(rest.drop_first() == text@.skip(i + 1));
                assert(before + (seq![rest[0]] + replaced(rest.drop_first(), pattern@, value@))
                    == before.push(text@[i as int]) + replaced(
                    text@.skip(i + 1),
                    pattern@,
                    value@,
                ));
            }
            i += 1;
        }
    }
    assert(text@.skip(text@.len() as int) == Seq::<char>::empty());
    assert(result@ + Seq::<char>::empty() == result@);
    result
}

/// Whether `needle` occurs in `hay` as a run of neighbouring characters.
pub open spec fn has_substring(hay: Seq<char>, needle: Seq<char>) -> bool {
    exists|i: int|
        0 <= i && i + needle.len() <= hay.len() && #[trigger] hay.subrange(i, i + needle.len())
            == needle
}

/// Decides `has_substring`.
pub fn contains_str(hay: &Vec<char>, needle: &Vec<char>) -> (found: bool)
    ensures
        found == has_substring(hay@, needle@),
{
    if needle.len() == 0 {
        assert(hay@.subrange(0int, 0int + needle@.len()) == needle@);
        return true;
    }
    if needle.len() > hay.len() {
        return false;
    }
    let last = hay.len() - needle.len();
    let mut i: usize = 0;
    while i <= last
        invariant
            0 < needle@.len() <= hay@.len() <= usize::MAX,
            last == hay@.len() - needle@.len(),
            i <= last + 1,
            forall|k: int| 0 <= k < i ==> #[trigger] hay@.subrange(k, k + needle@.len()) != needle@,
        decreases last + 1 - i,
    {
        let mut j: usize = 0;
        while j < needle.len() && hay[i + j] == needle[j]
            invariant
                i <= last,
                hay@.len() <= usize::MAX,
                last == hay@.len() - needle@.len(),
                j <= needle@.len(),
                hay@.subrange(i as int, i + j) == needle@.take(j as int),
            decreases needle@.len() - j,
        {
            assert(hay@.subrange(i as int, i + j + 1) == hay@.subrange(i as int, i + j).push(
                hay@[i + j],
            ));
            assert(needle@.take(j + 1) == needle@.take(j as int).push(needle@[j as int]));
            j += 1;
        }
        if j == needle.len() {
            assert(needle@.take(j as int) == needle@);
            return true;
        }
        assert(hay@.subrange(i as int, i + needle@.len())[j as int] != needle@[j as int]);
        i += 1;
    }
    false
}

/// The number that the digits `0` to `9` in `digits` write in base ten.
pub open spec fn decimal_number(digits: Seq<char>) -> nat
    decreases digits.len(),
{
    if digits.len() == 0 {
        0
    } else {
        decimal_number(digits.drop_last()) * 10 + (digits.last() as u32 - '0' as u32) as nat
    }
}

/// Whether every character of `s` is one of the digits `0` to `9`.
pub open spec fn all_digits(s: Seq<char>) -> bool {
    forall|i: int| 0 <= i < s.len() ==> '0' <= #[trigger] s[i] <= '9'
}

/// The value of `s` as a decimal number of 64 bits: none if `s` is empty,
/// holds anything but digits, or writes a number that does not fit.
pub open spec fn decimal_value(s: Seq<char>) -> Option<u64> {
    if s.len() > 0 && all_digits(s) && decimal_number(s) <= u64::MAX {
        Some(decimal_number(s) as u64)
    } else {
        None
    }
}

/// A longer run of digits writes a number at least as large.
pub proof fn lemma_decimal_number_grows(s: Seq<char>, i: int)
    requires
        0 <= i <= s.len(),
        all_digits(s),
    ensures
        decimal_number(s.take(i)) <= decimal_number(s),
    decreases s.len() - i,
{
    if i < s.len() {
        lemma_decimal_number_grows(s, i + 1);
        assert(s.take(i + 1).drop_last() == s.take(i));
        assert(s.take(i + 1).last() == s[i]);
    } else {
        assert(s.take(i) == s);
    }
}

/// Reads `chars[from..]` as `decimal_value` says.
pub fn parse_decimal(chars: &Vec<char>, from: usize) -> (value: Option<u64>)
    requires
        from <= chars@.len(),
    ensures
        value == decimal_value(chars@.skip(from as int)),
{
    let ghost s = chars@.skip(from as int);
    if from == chars.len() {
        return None;
    }
    let mut value: u64 = 0;
    let mut i: usize = from;
    assert(s.take(0) == Seq::<char>::empty());
    while i < chars.len()
        invariant
            from <= i <= chars@.len(),
            s == chars@.skip(from as int),
            all_digits(s.take(i - from)),
            value == decimal_number(s.take(i - from)),
        decreases chars@.len() - i,
    {
        let c = chars[i];
        assert(s[i - from] == c);
        if c < '0' || c > '9' {
            return None;
        }
        let digit = (c as u32 - '0' as u32) as u64;
        proof {
            assert(s.take(i - from + 1).drop_last() == s.take(i - from));
            assert(s.take(i - from + 1).last() == c);
            assert(all_digits(s.take(i - from + 1))) by {
                assert forall|k: int| 0 <= k < i - from + 1 implies '0' <= #[trigger] s.take(
                    i - from + 1,
                )[k] <= '9' by {
                    if k < i - from {
                        assert(s.take(i - from)[k] == s[k]);
                    }
                }
            }
        }
        if value > (u64::MAX - digit) / 10 {
            proof {
                assert(decimal_number(s.take(i - from + 1)) > u64::MAX);
                if all_digits(s) {
                    lemma_decimal_number_grows(s, i - from + 1);
                }
            }
            return None;
        }
        value = value * 10 + digit;
        i += 1;
    }
    assert(s.take(s.len() as int) == s);
    Some(value)
}

/// The digit that writes `d`, a number below ten.
pub open spec fn digit_of(d: nat) -> char {
    if d == 0 {
        '0'
    } else if d == 1 {
        '1'
    } else if d == 2 {
        '2'
    } else if d == 3 {
        '3'
    } else if d == 4 {
        '4'
    } else if d == 5 {
        '5'
    } else if d == 6 {
        '6'
    } else if d == 7 {
        '7'
    } else if d == 8 {
        '8'
    } else {
        '9'
    }
}

/// The digits that write `n` in base ten, without leading zeros.
pub open spec fn decimal_digits(n: nat) -> Seq<char>
    decreases n,
{
    if n < 10 {
        seq![digit_of(n)]
    } else {
        decimal_digits(n / 10).push(digit_of(n % 10))
    }
}

/// Adds to `out` the digits that write `n` in base ten.
pub fn push_decimal(n: u64, out: &mut String)
    ensures
        final(out)@ == old(out)@ + decimal_digits(n as nat),
    decreases n,
{
    if n >= 10 {
        push_decimal(n / 10, out);
    }
    let d = n % 10;
    let digit = if d == 0 {
        '0'
    } else if d == 1 {
        '1'
    } else if d == 2 {
        '2'
    } else if d == 3 {
        '3'
    } else if d == 4 {
        '4'
    } else if d == 5 {
        '5'
    } else if d == 6 {
        '6'
    } else if d == 7 {
        '7'
    } else if d == 8 {
        '8'
    } else {
        '9'
    };
    out.push(digit);
    assert(out@ =~= old(out)@ + decimal_digits(n as nat));
}

/// Whether `c` is white space: a character with Unicode's property
/// `White_Space`.
pub open spec fn is_white_space(c: char) -> bool {
    let code = c as u32;
    (0x09 <= code <= 0x0D) || code == 0x20 || code == 0x85 || code == 0xA0 || code == 0x1680 || (
    0x2000 <= code <= 0x200A) || code == 0x2028 || code == 0x2029 || code == 0x202F || code
        == 0x205F || code == 0x3000
}

/// Decides `is_white_space`.
pub fn char_is_white_space(c: char) -> (white: bool)
    ensures
        white == is_white_space(c),
{
    let code = c as u32;
    (0x09 <= code && code <= 0x0D) || code == 0x20 || code == 0x85 || code == 0xA0 || code
        == 0x1680 || (0x2000 <= code && code <= 0x200A) || code == 0x2028 || code == 0x2029
        || code == 0x202F || code == 0x205F || code == 0x3000
}

/// The number of white-space characters at the start of `s`.
pub open spec fn leading_white(s: Seq<char>) -> nat
    decreases s.len(),
{
    if s.len() > 0 && is_white_space(s[0]) {
        1 + leading_white(s.drop_first())
    } else {
        0
    }
}

/// The number of white-space characters at the end of `s`.
pub open spec fn trailing_white(s: Seq<char>) -> nat
    decreases s.len(),
{
    if s.len() > 0 && is_white_space(s.last()) {
        1 + trailing_white(s.drop_last())
    } else {
        0
    }
}

/// `s` without the white space at its start and at its end.
pub open spec fn trimmed(s: Seq<char>) -> Seq<char> {
    let from = leading_white(s);
    if from == s.len() {
        Seq::empty()
    } else {
        s.subrange(from as int, s.len() - trailing_white(s))
    }
}

/// A run of white space at the start of `s` that ends before another
/// character, or at the end of `s`, is the leading white space.
pub proof fn lemma_leading_white_is(s: Seq<char>, n: int)
    requires
        0 <= n <= s.len(),
        forall|i: int| 0 <= i < n ==> is_white_space(#[trigger] s[i]),
        n < s.len() ==> !is_white_space(s[n]),
    ensures
        leading_white(s) == n,
    decreases s.len(),
{
    if n > 0 {
        let rest = s.drop_first();
        assert forall|i: int| 0 <= i < n - 1 implies is_white_space(#[trigger] rest[i]) by {
            assert(rest[i] == s[i + 1]);
        }
        lemma_leading_white_is(rest, n - 1);
    }
}

/// A run of `n` white-space characters at the end of `s` that begins after
/// another character, or at the start of `s`, is the trailing white space.
pub proof fn lemma_trailing_white_is(s: Seq<char>, n: int)
    requires
        0 <= n <= s.len(),
        forall|i: int| s.len() - n <= i < s.len() ==> is_white_space(#[trigger] s[i]),
        n < s.len() ==> !is_white_space(s[s.len() - n - 1]),
    ensures
        trailing_white(s) == n,
    decreases s.len(),
{
    if n > 0 {
        let rest = s.drop_last();
        assert forall|i: int| rest.len() - (n - 1) <= i < rest.len() implies is_white_space(
            #[trigger] rest[i],
        ) by {
            assert(rest[i] == s[i]);
        }
        lemma_trailing_white_is(rest, n - 1);
    }
}

/// The bounds of `trimmed(chars[from..to])` within `chars`.
pub fn trim_bounds(chars: &Vec<char>, from: usize, to: usize) -> (bounds: (usize, usize))
    requires
        from <= to <= chars@.len(),
    ensures
        from <= bounds.0 <= bounds.1 <= to,
        chars@.subrange(bounds.0 as int, bounds.1 as int) == trimmed(
            chars@.subrange(from as int, to as int),
        ),
{
    let ghost s = chars@.subrange(from as int, to as int);
    let mut lo: usize = from;
    while lo < to && char_is_white_space(chars[lo])
        invariant
            from <= lo <= to <= chars@.len(),
            s == chars@.subrange(from as int, to as int),
            forall|i: int| 0 <= i < lo - from ==> is_white_space(#[trigger] s[i]),
        decreases to - lo,
    {
        assert(s[lo - from] == chars@[lo as int]);
        lo += 1;
    }
    proof {
        if lo < to {
            assert(s[lo - from] == chars@[lo as int]);
        }
        lemma_leading_white_is(s, lo - from);
    }
    if lo == to {
        assert(chars@.subrange(lo as int, lo as int) == Seq::<char>::empty());
        return (lo, lo);
    }
    let mut hi: usize = to;
    while hi > lo && char_is_white_space(chars[hi - 1])
        invariant
            from <= lo <= hi <= to <= chars@.len(),
            lo < to,
            s == chars@.subrange(from as int, to as int),
            !is_white_space(chars@[lo as int]),
            forall|i: int| hi - from <= i < s.len() ==> is_white_space(#[trigger] s[i]),
        decreases hi,
    {
        assert(s[hi - 1 - from] == chars@[hi - 1]);
        hi -= 1;
    }
    proof {
        assert(hi > lo);
        assert(s[hi - 1 - from] == chars@[hi - 1]);
        lemma_trailing_white_is(s, to - hi);
        assert(chars@.subrange(lo as int, hi as int) == s.subrange(lo - from, s.len() - (to - hi)));
    }
    (lo, hi)
}

/// The parts of `s` between the separators: one more than `s` has separators.
pub open spec fn plain_split(s: Seq<char>, sep: char) -> Seq<Seq<char>>
    decreases s.len(),
{
    match first_index(s, sep) {
        None => seq![s],
        Some(k) => if k < s.len() {
            seq![s.take(k as int)] + plain_split(s.skip(k as int + 1), sep)
        } else {
            seq![s]
        },
    }
}

/// The bounds within `chars` of each part of `plain_split(chars[from..to], sep)`.
pub fn split_bounds(chars: &Vec<char>, from: usize, to: usize, sep: char) -> (bounds: Vec<
    (usize, usize),
>)
    requires
        from <= to <= chars@.len(),
    ensures
        bounds@.len() == plain_split(chars@.subrange(from as int, to as int), sep).len(),
        forall|i: int|
            0 <= i < bounds@.len() ==> from <= (#[trigger] bounds@[i]).0 <= bounds@[i].1 <= to
                && chars@.subrange(bounds@[i].0 as int, bounds@[i].1 as int) == plain_split(
                chars@.subrange(from as int, to as int),
                sep,
            )[i],
    decreases to - from,
{
    let ghost s = chars@.subrange(from as int, to as int);
    let mut i: usize = from;
    while i < to && chars[i] != sep
        invariant
            from <= i <= to <= chars@.len(),
            forall|k: int| from <= k < i ==> chars@[k] != sep,
        decreases to - i,
    {
        i += 1;
    }
    proof {
        lemma_first_index(s, sep);
        if i < to {
            assert(s[i - from] == sep);
            assert forall|k: int| 0 <= k < i - from implies s[k] != sep by {
                assert(s[k] == chars@[from + k]);
            }
            assert(first_index(s, sep) == Some((i - from) as nat));
        } else {
            assert forall|k: int| 0 <= k < s.len() implies s[k] != sep by {
                assert(s[k] == chars@[from + k]);
            }
        }
    }
    if i == to {
        let mut bounds: Vec<(usize, usize)> = Vec::new();
        bounds.push((from, to));
        return bounds;
    }
    let rest = split_bounds(chars, i + 1, to, sep);
    let mut bounds: Vec<(usize, usize)> = Vec::new();
    bounds.push((from, i));
    let mut k: usize = 0;
    proof {
        assert(s.skip(i - from + 1) == chars@.subrange(i + 1, to as int));
        assert(s.take(i - from) == chars@.subrange(from as int, i as int));
    }
    let ghost tail = plain_split(chars@.subrange(i + 1, to as int), sep);
    while k < rest.len()
        invariant
            k <= rest@.len(),
            from <= i < to <= chars@.len(),
            bounds@.len() == k + 1,
            bounds@[0] == (from, i),
            rest@.len() == tail.len(),
            forall|j: int|
                0 <= j < rest@.len() ==> i + 1 <= (#[trigger] rest@[j]).0 <= rest@[j].1 <= to
                    && chars@.subrange(rest@[j].0 as int, rest@[j].1 as int) == tail[j],
            forall|j: int| 0 <= j < k ==> #[trigger] bounds@[j + 1] == rest@[j],
        decreases rest@.len() - k,
    {
        bounds.push(rest[k]);
        k += 1;
    }
    proof {
        let whole = plain_split(s, sep);
        assert(whole == seq![s.take(i - from)] + tail);
        assert forall|j: int| 0 <= j < bounds@.len() implies from <= (#[trigger] bounds@[j]).0
            <= bounds@[j].1 <= to && chars@.subrange(bounds@[j].0 as int, bounds@[j].1 as int)
            == whole[j] by {
            if j > 0 {
                assert(bounds@[j - 1 + 1] == rest@[j - 1]);
                assert(whole[j] == tail[j - 1]);
            }
        }
    }
    bounds
}

/// Whether `text` can be cut at the bytes `from` and `to` of its UTF-8 form:
/// both lie within it, in order, and at the start of a character or at the end.
pub open spec fn sliceable(text: Seq<char>, from: int, to: int) -> bool {
    &&& 0 <= from <= to <= encode_utf8(text).len()
    &&& is_char_boundary(encode_utf8(text), from)
    &&& is_char_boundary(encode_utf8(text), to)
}

/// The characters that the bytes `from..to` of the UTF-8 form of `text` hold.
pub open spec fn bytes_between(text: Seq<char>, from: int, to: int) -> Seq<char> {
    decode_utf8(encode_utf8(text).subrange(from, to))
}

/// Within the bytes before a character boundary, the character boundaries
/// are those of the whole.
pub proof fn lemma_boundary_in_prefix(bytes: Seq<u8>, from: int, to: int)
    requires
        valid_utf8(bytes),
        0 <= from <= to <= bytes.len(),
        is_char_boundary(bytes, to),
    ensures
        valid_utf8(bytes.subrange(0, to)),
        is_char_boundary(bytes.subrange(0, to), from) == is_char_boundary(bytes, from),
{
    broadcast use vstd::utf8::group_utf8_lib;

    let head = bytes.subrange(0, to);
    vstd::utf8::valid_utf8_split(bytes, to);
    if from < to {
        vstd::utf8::is_char_boundary_iff_not_is_continuation_byte(bytes, from);
        vstd::utf8::is_char_boundary_iff_not_is_continuation_byte(head, from);
        assert(head[from] == bytes[from]);
    } else {
        vstd::utf8::is_char_boundary_start_end_of_seq(head);
    }
}

/// The part of `text` between the bytes `from` and `to` of its UTF-8 form,
/// if it can be cut there.
pub fn slice_bytes<'a>(text: &'a str, from: usize, to: usize) -> (part: Option<&'a str>)
    ensures
        match part {
            Some(found) => sliceable(text@, from as int, to as int) && found@ == bytes_between(
                text@,
                from as int,
                to as int,
            ),
            None => !sliceable(text@, from as int, to as int),
        },
{
    broadcast use vstd::utf8::group_utf8_lib;

    let ghost bytes = encode_utf8(text@);
    if from > to || to > text.as_bytes().len() || !text.is_char_boundary(to) {
        return None;
    }
    proof {
        lemma_boundary_in_prefix(bytes, from as int, to as int);
    }
    let (head, _) = text.split_at(to);
    assert(head.spec_bytes() == bytes.subrange(0, to as int));
    if !head.is_char_boundary(from) {
        return None;
    }
    let (_, found) = head.split_at(from);
    assert(found.spec_bytes() == bytes.subrange(from as int, to as int));
    Some(found)
}

} // verus!
