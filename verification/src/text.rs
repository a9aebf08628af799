//! Text operations on strings, stated over their characters.

use vstd::arithmetic::power::pow;
use vstd::prelude::*;
use vstd::utf8::{encode_utf8, encode_utf8_decode_utf8};

verus! {

/// `String::push` appends one character.
pub assume_specification[ String::push ](s: &mut String, c: char)
    ensures
        final(s)@ == old(s)@.push(c),
;

/// `needle` stands in `text` at character position `i`.
pub open spec fn occurs_at(text: Seq<char>, needle: Seq<char>, i: int) -> bool {
    &&& 0 <= i
    &&& i + needle.len() <= text.len()
    &&& text.subrange(i, i + needle.len()) == needle
}

/// `needle` stands somewhere in `text`.
pub open spec fn occurs(text: Seq<char>, needle: Seq<char>) -> bool {
    exists|i: int| occurs_at(text, needle, i)
}

/// `text` begins with `prefix`.
pub open spec fn has_prefix(text: Seq<char>, prefix: Seq<char>) -> bool {
    occurs_at(text, prefix, 0)
}

/// `text` ends with the character `c`.
pub open spec fn has_last(text: Seq<char>, c: char) -> bool {
    text.len() > 0 && text.last() == c
}

/// Number of bytes of `text` in UTF-8.
pub open spec fn byte_len(text: Seq<char>) -> nat {
    encode_utf8(text).len()
}

/// The decimal digit `d` as a character.
pub open spec fn digit_char(d: nat) -> char {
    (('0' as u32) + d) as char
}

/// `n` written in decimal, without leading zeros.
pub open spec fn decimal_text(n: nat) -> Seq<char>
    decreases n,
{
    if n < 10 {
        seq![digit_char(n)]
    } else {
        decimal_text(n / 10).push(digit_char(n % 10))
    }
}

/// The characters of an optional string.
pub open spec fn text_option(s: Option<String>) -> Option<Seq<char>> {
    match s {
        Some(s) => Some(s@),
        None => None,
    }
}

/// The characters of an optional string slice.
pub open spec fn slice_option(s: Option<&str>) -> Option<Seq<char>> {
    match s {
        Some(s) => Some(s@),
        None => None,
    }
}

/// Whether two strings hold the same characters.
pub fn same(a: &str, b: &str) -> (r: bool)
    ensures
        r == (a@ == b@),
{
    let x = a.as_bytes();
    let y = b.as_bytes();
    proof {
        encode_utf8_decode_utf8(a@);
        encode_utf8_decode_utf8(b@);
    }
    if x.len() != y.len() {
        return false;
    }
    let mut i: usize = 0;
    while i < x.len()
        invariant
            x@ == encode_utf8(a@),
            y@ == encode_utf8(b@),
            x@.len() == y@.len(),
            i <= x@.len(),
            forall|j: int| 0 <= j < i ==> x@[j] == y@[j],
        decreases x@.len() - i,
    {
        if x[i] != y[i] {
            return false;
        }
        i = i + 1;
    }
    assert(x@ =~= y@);
    true
}

/// The characters of a string.
pub fn chars_of(s: &str) -> (r: Vec<char>)
    ensures
        r@ == s@,
{
    let mut out: Vec<char> = Vec::new();
    for c in it: s.chars()
        invariant
            it.seq() == s@,
            out@ == s@.take(it.index()),
    {
        assert(s@.take(it.index() + 1) =~= s@.take(it.index()).push(c));
        out.push(c);
    }
    assert(s@.take(s@.len() as int) =~= s@);
    out
}

/// The characters `from..to` as a string.
pub fn string_of(chars: &Vec<char>, from: usize, to: usize) -> (r: String)
    requires
        from <= to <= chars@.len(),
    ensures
        r@ == chars@.subrange(from as int, to as int),
{
    let mut out = String::new();
    let mut i: usize = from;
    while i < to
        invariant
            from <= i <= to <= chars@.len(),
            out@ == chars@.subrange(from as int, i as int),
        decreases to - i,
    {
        out.push(chars[i]);
        assert(chars@.subrange(from as int, i + 1) =~= chars@.subrange(from as int, i as int).push(
            chars@[i as int],
        ));
        i = i + 1;
    }
    out
}

/// Whether `needle` stands in `text` at position `i`.
fn stands_at(text: &Vec<char>, needle: &Vec<char>, i: usize) -> (r: bool)
    ensures
        r == occurs_at(text@, needle@, i as int),
{
    if i > text.len() || needle.len() > text.len() - i {
        return false;
    }
    let mut j: usize = 0;
    while j < needle.len()
        invariant
            i + needle.len() <= text.len(),
            j <= needle@.len(),
            forall|k: int| 0 <= k < j ==> text@[i + k] == needle@[k],
        decreases needle@.len() - j,
    {
        if text[i + j] != needle[j] {
            assert(text@.subrange(i as int, i + needle@.len())[j as int] != needle@[j as int]);
            return false;
        }
        j = j + 1;
    }
    assert(text@.subrange(i as int, i + needle@.len()) =~= needle@);
    true
}

/// Whether `needle` stands somewhere in `text`.
pub fn contains(text: &str, needle: &str) -> (r: bool)
    ensures
        r == occurs(text@, needle@),
{
    let t = chars_of(text);
    let n = chars_of(needle);
    let mut i: usize = 0;
    while i < t.len()
        invariant
            t@ == text@,
            n@ == needle@,
            i <= t@.len(),
            forall|k: int| 0 <= k < i ==> !occurs_at(t@, n@, k),
        decreases t@.len() - i,
    {
        if stands_at(&t, &n, i) {
            return true;
        }
        i = i + 1;
    }
    let r = stands_at(&t, &n, i);
    assert forall|k: int| occurs_at(t@, n@, k) implies r by {
        if k < i {
        } else {
            assert(k == i);
        }
    }
    r
}

/// Whether `text` begins with `prefix`.
pub fn starts_with(text: &str, prefix: &str) -> (r: bool)
    ensures
        r == has_prefix(text@, prefix@),
{
    let t = chars_of(text);
    let p = chars_of(prefix);
    stands_at(&t, &p, 0)
}

/// Whether `text` ends with the character `c`.
pub fn ends_with(text: &str, c: char) -> (r: bool)
    ensures
        r == has_last(text@, c),
{
    let t = chars_of(text);
    t.len() > 0 && t[t.len() - 1] == c
}

/// Number of bytes of a string.
pub fn bytes_in(text: &str) -> (r: usize)
    ensures
        r == byte_len(text@),
{
    text.as_bytes().len()
}

/// The decimal digit `d` as a character.
fn digit(d: u64) -> (r: char)
    requires
        d < 10,
    ensures
        r == digit_char(d as nat),
{
    ((48u8 + d as u8) as u8) as char
}

/// `n` written in decimal.
pub fn decimal(n: u64) -> (r: String)
    ensures
        r@ == decimal_text(n as nat),
    decreases n,
{
    if n < 10 {
        let mut s = String::new();
        s.push(digit(n));
        assert(s@ =~= seq![digit_char(n as nat)]);
        s
    } else {
        let mut s = decimal(n / 10);
        s.push(digit(n % 10));
        s
    }
}

/// Whether the character is a decimal digit.
pub open spec fn is_digit(c: char) -> bool {
    '0' <= c <= '9'
}

/// The number that a run of decimal digits stands for.
pub open spec fn digits_value(s: Seq<char>) -> nat
    decreases s.len(),
{
    if s.len() == 0 {
        0
    } else {
        digits_value(s.drop_last()) * 10 + (s.last() as u32 - '0' as u32) as nat
    }
}

/// A run of one or more decimal digits.
pub open spec fn all_digits(s: Seq<char>) -> bool {
    s.len() > 0 && forall|i: int| 0 <= i < s.len() ==> is_digit(#[trigger] s[i])
}

/// The natural number that `s` writes out, digits after an optional `+`.
pub open spec fn unsigned_value(s: Seq<char>) -> Option<nat> {
    let body = if s.len() > 0 && s[0] == '+' { s.skip(1) } else { s };
    if all_digits(body) {
        Some(digits_value(body))
    } else {
        None
    }
}

/// The integer that `s` writes out, digits after an optional `+` or `-`.
pub open spec fn signed_value(s: Seq<char>) -> Option<int> {
    if s.len() > 0 && s[0] == '-' {
        if all_digits(s.skip(1)) {
            Some(-(digits_value(s.skip(1)) as int))
        } else {
            None
        }
    } else {
        match unsigned_value(s) {
            Some(n) => Some(n as int),
            None => None,
        }
    }
}

/// More digits make no smaller number.
proof fn lemma_digits_monotone(s: Seq<char>, i: int)
    requires
        0 <= i <= s.len(),
    ensures
        digits_value(s.take(i)) <= digits_value(s),
    decreases s.len() - i,
{
    if i < s.len() {
        lemma_digits_monotone(s, i + 1);
        assert(s.take(i + 1).drop_last() =~= s.take(i));
    } else {
        assert(s.take(i) =~= s);
    }
}

/// Reads the digits from position `from` to the end; `None` where there is no digit, another
/// character, or a number above `max`.
fn digits_from(chars: &Vec<char>, from: usize, max: u64) -> (r: Option<u64>)
    requires
        from <= chars@.len(),
    ensures
        r == (if all_digits(chars@.skip(from as int)) && digits_value(chars@.skip(from as int))
            <= max {
            Some(digits_value(chars@.skip(from as int)) as u64)
        } else {
            None::<u64>
        }),
{
    let ghost body = chars@.skip(from as int);
    if from == chars.len() {
        return None;
    }
    let mut i: usize = from;
    let mut n: u64 = 0;
    assert(body.take(0) =~= Seq::<char>::empty());
    while i < chars.len()
        invariant
            from <= i <= chars@.len(),
            body == chars@.skip(from as int),
            forall|k: int| 0 <= k < i - from ==> is_digit(#[trigger] body[k]),
            n == digits_value(body.take(i - from)),
            n <= max,
        decreases chars@.len() - i,
    {
        let c = chars[i];
        proof {
            assert(body[i - from] == c);
            lemma_digits_monotone(body, i - from + 1);
            assert(body.take(i - from + 1).drop_last() =~= body.take(i - from));
        }
        if !('0' <= c && c <= '9') {
            return None;
        }
        let d: u64 = (c as u64) - 48;
        if d > max || n > (max - d) / 10 {
            assert(n * 10 + d > max);
            return None;
        }
        n = n * 10 + d;
        i = i + 1;
    }
    assert(body.take(body.len() as int) =~= body);
    Some(n)
}

/// Reads a `u64` no greater than `max` from its decimal text.
pub fn parse_unsigned(s: &str, max: u64) -> (r: Option<u64>)
    ensures
        r == (match unsigned_value(s@) {
            Some(n) if n <= max => Some(n as u64),
            _ => None::<u64>,
        }),
{
    let chars = chars_of(s);
    if chars.len() > 0 && chars[0] == '+' {
        digits_from(&chars, 1, max)
    } else {
        assert(chars@.skip(0) =~= chars@);
        digits_from(&chars, 0, max)
    }
}

/// Reads an `i64` from its decimal text.
pub fn parse_signed(s: &str) -> (r: Option<i64>)
    ensures
        r == (match signed_value(s@) {
            Some(n) if i64::MIN <= n <= i64::MAX => Some(n as i64),
            _ => None::<i64>,
        }),
{
    let chars = chars_of(s);
    if chars.len() > 0 && chars[0] == '-' {
        match digits_from(&chars, 1, 9223372036854775808) {
            Some(n) => {
                if n == 9223372036854775808 {
                    Some(i64::MIN)
                } else {
                    Some(-(n as i64))
                }
            },
            None => None,
        }
    } else {
        match parse_unsigned(s, 9223372036854775807) {
            Some(n) => Some(n as i64),
            None => None,
        }
    }
}

/// `n` written in decimal, after a minus sign where it is below zero.
pub open spec fn signed_text(n: int) -> Seq<char> {
    if n < 0 {
        "-"@ + decimal_text((-n) as nat)
    } else {
        decimal_text(n as nat)
    }
}

/// `n` written in decimal, after a minus sign where it is below zero.
pub fn signed_decimal(n: i64) -> (r: String)
    ensures
        r@ == signed_text(n as int),
{
    if n < 0 {
        let size: u64 = if n == i64::MIN {
            9223372036854775808
        } else {
            (-n) as u64
        };
        let digits = decimal(size);
        "-".to_owned().concat(digits.as_str())
    } else {
        decimal(n as u64)
    }
}

/// How often `c` stands in `s`.
pub open spec fn count_of(s: Seq<char>, c: char) -> nat
    decreases s.len(),
{
    if s.len() == 0 {
        0
    } else {
        count_of(s.drop_last(), c) + if s.last() == c {
            1nat
        } else {
            0
        }
    }
}

/// How often `c` stands in `s`.
pub fn count_char(s: &str, c: char) -> (r: usize)
    ensures
        r == count_of(s@, c),
{
    let chars = chars_of(s);
    let mut n: usize = 0;
    let mut i: usize = 0;
    assert(s@.take(0) =~= Seq::<char>::empty());
    while i < chars.len()
        invariant
            chars@ == s@,
            i <= chars@.len(),
            n == count_of(s@.take(i as int), c),
            n <= i,
        decreases chars@.len() - i,
    {
        assert(s@.take(i + 1).drop_last() =~= s@.take(i as int));
        if chars[i] == c {
            n = n + 1;
        }
        i = i + 1;
    }
    assert(s@.take(s@.len() as int) =~= s@);
    n
}

/// What stands in a text stands in a longer one.
pub proof fn lemma_occurs_within(before: Seq<char>, text: Seq<char>, after: Seq<char>, n: Seq<char>)
    requires
        occurs(text, n),
    ensures
        occurs(before + text + after, n),
{
    let i = choose|i: int| occurs_at(text, n, i);
    let whole = before + text + after;
    let j = before.len() + i;
    assert(whole.subrange(j, j + n.len()) =~= text.subrange(i, i + n.len()));
    assert(occurs_at(whole, n, j));
}

/// A character takes at most four bytes.
pub proof fn lemma_byte_len_bound(s: Seq<char>)
    ensures
        byte_len(s) <= 4 * s.len(),
    decreases s.len(),
{
    if s.len() > 0 {
        lemma_byte_len_bound(s.drop_first());
    }
}

/// A number below a power of ten has no more digits than the power has zeros.
pub proof fn lemma_decimal_len(n: nat, k: nat)
    requires
        k > 0,
        n < pow(10, k),
    ensures
        0 < decimal_text(n).len() <= k,
    decreases k,
{
    reveal(pow);
    if n >= 10 {
        if k == 1 {
            assert(pow(10, 1) == 10) by {
                reveal_with_fuel(pow, 2);
            }
        } else {
            assert(pow(10, k) == 10 * pow(10, (k - 1) as nat));
            lemma_decimal_len(n / 10, (k - 1) as nat);
        }
    }
}

/// An unsigned 64-bit number has at most 20 digits.
pub proof fn lemma_decimal_len_u64(n: u64)
    ensures
        0 < decimal_text(n as nat).len() <= 20,
{
    assert(pow(10, 20) == 100_000_000_000_000_000_000) by {
        reveal_with_fuel(pow, 21);
    }
    lemma_decimal_len(n as nat, 20);
}

/// Where `needle` stands in `text` for the first time, from position `from` on.
pub open spec fn first_occurrence(text: Seq<char>, needle: Seq<char>, from: int) -> Option<int>
    decreases text.len() + 1 - from,
{
    if from < 0 || from > text.len() {
        None
    } else if occurs_at(text, needle, from) {
        Some(from)
    } else {
        first_occurrence(text, needle, from + 1)
    }
}

/// Where `needle` stands in `text` for the first time, from position `from` on.
pub fn find_from(text: &Vec<char>, needle: &Vec<char>, from: usize) -> (r: Option<usize>)
    requires
        from <= text@.len(),
    ensures
        match first_occurrence(text@, needle@, from as int) {
            Some(i) => r is Some && r->Some_0 == i && occurs_at(text@, needle@, i),
            None => r is None,
        },
{
    let mut i: usize = from;
    while i < text.len()
        invariant
            from <= i <= text@.len(),
            first_occurrence(text@, needle@, from as int) == first_occurrence(
                text@,
                needle@,
                i as int,
            ),
        decreases text@.len() - i,
    {
        if stands_at(text, needle, i) {
            return Some(i);
        }
        i = i + 1;
    }
    if stands_at(text, needle, i) {
        Some(i)
    } else {
        assert(first_occurrence(text@, needle@, i + 1) is None);
        None
    }
}

/// The first of all occurrences is the first one.
pub proof fn lemma_first_occurrence(text: Seq<char>, needle: Seq<char>, from: int, at: int)
    requires
        0 <= from <= at,
        occurs_at(text, needle, at),
        forall|k: int| from <= k < at ==> !occurs_at(text, needle, k),
    ensures
        first_occurrence(text, needle, from) == Some(at),
    decreases at - from,
{
    if from < at {
        assert(!occurs_at(text, needle, from));
        lemma_first_occurrence(text, needle, from + 1, at);
    }
}

/// What occurs nowhere is not found.
pub proof fn lemma_no_occurrence(text: Seq<char>, needle: Seq<char>, from: int)
    requires
        0 <= from,
        forall|k: int| from <= k <= text.len() ==> !occurs_at(text, needle, k),
    ensures
        first_occurrence(text, needle, from) is None,
    decreases text.len() + 1 - from,
{
    if from <= text.len() {
        assert(!occurs_at(text, needle, from));
        lemma_no_occurrence(text, needle, from + 1);
    }
}

/// A number written out is read back.
pub proof fn lemma_decimal_value(n: nat)
    ensures
        all_digits(decimal_text(n)),
        digits_value(decimal_text(n)) == n,
    decreases n,
{
    if n < 10 {
        let s = decimal_text(n);
        assert(s[0] == digit_char(n));
        assert(s.drop_last() =~= Seq::<char>::empty());
        assert(digits_value(s.drop_last()) == 0);
    } else {
        lemma_decimal_value(n / 10);
        let front = decimal_text(n / 10);
        let s = decimal_text(n);
        assert(s.drop_last() =~= front);
        assert forall|i: int| 0 <= i < s.len() implies is_digit(#[trigger] s[i]) by {
            if i < front.len() {
                assert(s[i] == front[i]);
            }
        }
    }
}

/// A text starts with its first part.
pub proof fn lemma_starts(prefix: Seq<char>, rest: Seq<char>)
    ensures
        has_prefix(prefix + rest, prefix),
{
    assert((prefix + rest).subrange(0, prefix.len() as int) =~= prefix);
}

/// A text holds each of its parts.
pub proof fn lemma_occurs_between(before: Seq<char>, text: Seq<char>, after: Seq<char>)
    ensures
        occurs(before + text + after, text),
{
    let whole = before + text + after;
    assert(whole.subrange(before.len() as int, (before.len() + text.len()) as int) =~= text);
    assert(occurs_at(whole, text, before.len() as int));
}

/// A number that is written is read back, with its sign, and is written without needless zeros.
pub proof fn written_numbers_are_read_back(n: int)
    ensures
        signed_value(signed_text(n)) == Some(n),
        n >= 0 ==> unsigned_value(signed_text(n)) == Some(n as nat),
        n >= 10 ==> signed_text(n)[0] != '0',
{
    reveal_strlit("-");
    assert("-"@.len() == 1 && "-"@[0] == '-');
    let m = if n < 0 {
        (-n) as nat
    } else {
        n as nat
    };
    lemma_decimal_value(m);
    let digits = decimal_text(m);
    assert(is_digit(digits[0]));
    if n < 0 {
        assert(signed_text(n).skip(1) =~= digits);
    } else {
        lemma_no_leading_zero(m);
    }
}

proof fn lemma_no_leading_zero(n: nat)
    ensures
        n > 0 ==> decimal_text(n)[0] != '0',
        decimal_text(n).len() > 0,
    decreases n,
{
    if n >= 10 {
        lemma_no_leading_zero(n / 10);
    }
}

/// A text counts a character as often as it holds it.
pub proof fn counts_are_of_occurrences(s: Seq<char>, c: char)
    ensures
        count_of(s, c) == s.to_multiset().count(c),
    decreases s.len(),
{
    broadcast use vstd::seq_lib::group_to_multiset_ensures;

    if s.len() > 0 {
        counts_are_of_occurrences(s.drop_last(), c);
        assert(s =~= s.drop_last().push(s.last()));
    }
}

} // verus!
