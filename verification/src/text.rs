//! Text as the bytes of its UTF-8 encoding: searching for a pattern, comparing without regard to
//! ASCII case, and reading unsigned numbers.
//!
//! Every pattern that this crate looks for is ASCII, so an occurrence among the bytes of a string
//! is an occurrence among its characters.
use vstd::arithmetic::power::*;
use vstd::prelude::*;
use vstd::utf8::*;

verus! {

/// `pattern` stands in `s` from position `at` on.
pub open spec fn occurs_at(s: Seq<u8>, pattern: Seq<u8>, at: int) -> bool {
    &&& 0 <= at
    &&& at + pattern.len() <= s.len()
    &&& s.subrange(at, at + pattern.len()) == pattern
}

/// `at` is the rightmost position where `pattern` stands in `s`.
pub open spec fn is_last_occurrence(s: Seq<u8>, pattern: Seq<u8>, at: int) -> bool {
    &&& occurs_at(s, pattern, at)
    &&& forall|later: int| at < later ==> !occurs_at(s, pattern, later)
}

/// `pattern` stands somewhere in `s`.
pub open spec fn occurs(s: Seq<u8>, pattern: Seq<u8>) -> bool {
    exists|at: int| occurs_at(s, pattern, at)
}

/// The ASCII lower case form of a byte; bytes that are no ASCII capital stay as they are.
pub open spec fn ascii_lower(b: u8) -> u8 {
    if 0x41 <= b <= 0x5a {
        (b + 0x20) as u8
    } else {
        b
    }
}

/// The two byte sequences differ at most in ASCII case.
pub open spec fn same_ignoring_ascii_case(a: Seq<u8>, b: Seq<u8>) -> bool {
    &&& a.len() == b.len()
    &&& forall|i: int| 0 <= i < a.len() ==> ascii_lower(#[trigger] a[i]) == ascii_lower(b[i])
}

/// The value of one digit: `0` to `9`, then letters of either case, as far as `radix` goes.
pub open spec fn digit_value(b: u8, radix: int) -> Option<int> {
    let value = if 0x30 <= b <= 0x39 {
        b - 0x30
    } else if 0x61 <= b <= 0x7a {
        b - 0x61 + 10
    } else if 0x41 <= b <= 0x5a {
        b - 0x41 + 10
    } else {
        radix
    };
    if value < radix {
        Some(value)
    } else {
        None
    }
}

/// The positional value of a sequence of digits; `None` where a byte is no digit.
pub open spec fn digits_value(s: Seq<u8>, radix: int) -> Option<int>
    decreases s.len(),
{
    if s.len() == 0 {
        Some(0)
    } else {
        match (digits_value(s.drop_last(), radix), digit_value(s.last(), radix)) {
            (Some(high), Some(low)) => Some(high * radix + low),
            _ => None,
        }
    }
}

/// The digits of a number: what follows an optional plus sign.
pub open spec fn without_plus(s: Seq<u8>) -> Seq<u8> {
    if s.len() > 0 && s[0] == 0x2b {
        s.skip(1)
    } else {
        s
    }
}

/// The number that `s` writes in `radix`: an optional plus sign and at least one digit, nothing
/// else, with a value of at most `max`.
pub open spec fn number(s: Seq<u8>, radix: int, max: int) -> Option<int> {
    let digits = without_plus(s);
    if digits.len() == 0 {
        None
    } else {
        match digits_value(digits, radix) {
            Some(value) => if value <= max {
                Some(value)
            } else {
                None
            },
            None => None,
        }
    }
}

/// The byte that the two bytes from `at` on write in hexadecimal.
pub open spec fn hex_byte_at(s: Seq<u8>, at: int) -> Option<u8> {
    if 0 <= at && at + 2 <= s.len() {
        match number(s.subrange(at, at + 2), 16, 255) {
            Some(value) => Some(value as u8),
            None => None,
        }
    } else {
        None
    }
}

/// Whether `pattern` stands in `s` from `at` on.
pub fn stands_at(s: &[u8], pattern: &[u8], at: usize) -> (found: bool)
    ensures
        found == occurs_at(s@, pattern@, at as int),
{
    if at > s.len() || s.len() - at < pattern.len() {
        return false;
    }
    let mut i: usize = 0;
    while i < pattern.len()
        invariant
            i <= pattern.len(),
            at + pattern.len() <= s.len(),
            forall|j: int| 0 <= j < i ==> s[at + j] == pattern[j],
        decreases pattern.len() - i,
    {
        if s[at + i] != pattern[i] {
            assert(s@.subrange(at as int, at + pattern.len())[i as int] != pattern@[i as int]);
            return false;
        }
        i += 1;
    }
    assert(s@.subrange(at as int, at + pattern.len()) =~= pattern@);
    true
}

/// The rightmost position where `pattern` stands in `s`.
pub fn rightmost(s: &[u8], pattern: &[u8]) -> (found: Option<usize>)
    ensures
        match found {
            Some(at) => is_last_occurrence(s@, pattern@, at as int),
            None => !occurs(s@, pattern@),
        },
{
    if s.len() < pattern.len() {
        return None;
    }
    let mut at: usize = s.len() - pattern.len();
    loop
        invariant
            at + pattern.len() <= s.len(),
            forall|later: int| at < later ==> !occurs_at(s@, pattern@, later),
        decreases at,
    {
        if stands_at(s, pattern, at) {
            return Some(at);
        }
        if at == 0 {
            return None;
        }
        at -= 1;
    }
}

/// The ASCII lower case form of a byte.
fn lower(b: u8) -> (l: u8)
    ensures
        l == ascii_lower(b),
{
    if 0x41 <= b && b <= 0x5a {
        b + 0x20
    } else {
        b
    }
}

/// Whether two strings differ at most in ASCII case.
pub fn equal_ignoring_ascii_case(a: &str, b: &str) -> (same: bool)
    ensures
        same == same_ignoring_ascii_case(encode_utf8(a@), encode_utf8(b@)),
{
    let x: &[u8] = a.as_bytes();
    let y: &[u8] = b.as_bytes();
    if x.len() != y.len() {
        return false;
    }
    let mut i: usize = 0;
    while i < x.len()
        invariant
            i <= x.len(),
            x.len() == y.len(),
            x@ == encode_utf8(a@),
            y@ == encode_utf8(b@),
            forall|j: int| 0 <= j < i ==> ascii_lower(#[trigger] x@[j]) == ascii_lower(y@[j]),
        decreases x.len() - i,
    {
        if lower(x[i]) != lower(y[i]) {
            assert(ascii_lower(x@[i as int]) != ascii_lower(y@[i as int]));
            return false;
        }
        i += 1;
    }
    true
}

/// Whatever follows a run of digits, the value of the whole is no smaller than that of the run,
/// and where the run is none the whole is none.
proof fn lemma_prefix_value(s: Seq<u8>, k: int, radix: int)
    requires
        0 <= k <= s.len(),
        2 <= radix,
    ensures
        match (digits_value(s.take(k), radix), digits_value(s, radix)) {
            (Some(part), Some(whole)) => 0 <= part <= whole,
            (Some(part), None) => 0 <= part,
            (None, whole) => whole is None,
        },
    decreases s.len(),
{
    if s.len() == 0 {
        assert(s.take(k) =~= s);
    } else if k == s.len() {
        assert(s.take(k) =~= s);
        assert(s.drop_last() =~= s.drop_last().take(s.len() - 1));
        lemma_prefix_value(s.drop_last(), s.len() - 1, radix);
        lemma_step_value(s, radix);
    } else {
        assert(s.drop_last().take(k) =~= s.take(k));
        lemma_prefix_value(s.drop_last(), k, radix);
        lemma_step_value(s, radix);
    }
}

/// One more digit never makes the value smaller.
proof fn lemma_step_value(s: Seq<u8>, radix: int)
    requires
        s.len() > 0,
        2 <= radix,
        digits_value(s.drop_last(), radix) matches Some(high) ==> 0 <= high,
    ensures
        match (digits_value(s.drop_last(), radix), digits_value(s, radix)) {
            (Some(part), Some(whole)) => part <= whole,
            (None, whole) => whole is None,
            _ => true,
        },
{
    if let Some(high) = digits_value(s.drop_last(), radix) {
        assert(high <= high * radix) by (nonlinear_arith)
            requires
                0 <= high,
                2 <= radix,
        ;
    }
}

/// The value of one digit in `radix`.
fn digit(b: u8, radix: u32) -> (d: Option<u32>)
    requires
        2 <= radix <= 36,
    ensures
        match d {
            Some(value) => digit_value(b, radix as int) == Some(value as int) && value < radix,
            None => digit_value(b, radix as int) is None,
        },
{
    let value: u32 = if 0x30 <= b && b <= 0x39 {
        (b - 0x30) as u32
    } else if 0x61 <= b && b <= 0x7a {
        (b - 0x61) as u32 + 10
    } else if 0x41 <= b && b <= 0x5a {
        (b - 0x41) as u32 + 10
    } else {
        radix
    };
    if value < radix {
        Some(value)
    } else {
        None
    }
}

/// Reads the number that stands in `s` from `from` up to `to`, in `radix`: an optional plus sign
/// and at least one digit, nothing else, with a value of at most `max`.
pub fn parse_number(s: &[u8], from: usize, to: usize, radix: u32, max: u32) -> (parsed: Option<u32>)
    requires
        from <= to <= s.len(),
        2 <= radix <= 36,
    ensures
        match parsed {
            Some(value) => number(s@.subrange(from as int, to as int), radix as int, max as int)
                == Some(value as int),
            None => number(s@.subrange(from as int, to as int), radix as int, max as int) is None,
        },
{
    let ghost written = s@.subrange(from as int, to as int);
    let ghost digits = without_plus(written);
    let start: usize = if from < to && s[from] == 0x2b {
        from + 1
    } else {
        from
    };
    assert(digits =~= s@.subrange(start as int, to as int));
    if start == to {
        return None;
    }
    let mut value: u32 = 0;
    let mut i: usize = start;
    assert(digits.take(0) =~= Seq::empty());
    while i < to
        invariant
            start <= i <= to <= s.len(),
            2 <= radix <= 36,
            value <= max,
            digits == s@.subrange(start as int, to as int),
            digits.len() > 0,
            digits == without_plus(written),
            written == s@.subrange(from as int, to as int),
            digits_value(digits.take(i - start), radix as int) == Some(value as int),
        decreases to - i,
    {
        proof {
            lemma_prefix_value(digits, i + 1 - start, radix as int);
            assert(digits.take(i + 1 - start).drop_last() =~= digits.take(i - start));
            assert(digits.take(i + 1 - start).last() == s@[i as int]);
            assert(value * radix <= 0xffff_ffff * 36) by (nonlinear_arith)
                requires
                    value <= 0xffff_ffff,
                    radix <= 36,
            ;
        }
        match digit(s[i], radix) {
            None => {
                return None;
            },
            Some(low) => {
                let next: u64 = value as u64 * radix as u64 + low as u64;
                if next > max as u64 {
                    return None;
                }
                value = next as u32;
            },
        }
        i += 1;
    }
    assert(digits.take(digits.len() as int) =~= digits);
    Some(value)
}

/// The byte that the two bytes from `at` on write in hexadecimal.
pub fn parse_hex_byte(s: &[u8], at: usize) -> (parsed: Option<u8>)
    ensures
        parsed == hex_byte_at(s@, at as int),
{
    if at > s.len() || s.len() - at < 2 {
        return None;
    }
    match parse_number(s, at, at + 2, 16, 255) {
        Some(value) => Some(value as u8),
        None => None,
    }
}

/// A pattern stands wherever it was put, whatever stands before and behind it.
pub proof fn law_pattern_stands_where_put(head: Seq<u8>, pattern: Seq<u8>, tail: Seq<u8>)
    ensures
        occurs_at(head + pattern + tail, pattern, head.len() as int),
        occurs(head + pattern + tail, pattern),
{
    let s = head + pattern + tail;
    assert(s.subrange(head.len() as int, (head.len() + pattern.len()) as int) =~= pattern);
    assert(occurs_at(s, pattern, head.len() as int));
}

/// Where a pattern stands, it can be cut out: what is before it, the pattern, and what is behind
/// it make up the whole.
pub proof fn law_pattern_can_be_cut_out(s: Seq<u8>, pattern: Seq<u8>, at: int)
    requires
        occurs_at(s, pattern, at),
    ensures
        0 <= at,
        at + pattern.len() <= s.len(),
        s == s.take(at) + pattern + s.skip(at + pattern.len() as int),
{
    assert(forall|i: int|
        at <= i < at + pattern.len() ==> s.subrange(at, at + pattern.len())[i - at]
            == #[trigger] s[i]);
    assert(s =~= s.take(at) + pattern + s.skip(at + pattern.len() as int));
}

/// A pattern that occurs stands somewhere.
pub proof fn law_pattern_that_occurs(s: Seq<u8>, pattern: Seq<u8>) -> (at: int)
    requires
        occurs(s, pattern),
    ensures
        0 <= at <= s.len() - pattern.len(),
        s == s.take(at) + pattern + s.skip(at + pattern.len() as int),
{
    let at = choose|at: int| occurs_at(s, pattern, at);
    law_pattern_can_be_cut_out(s, pattern, at);
    at
}

/// A pattern that occurs has a last occurrence: one that no other occurrence is behind.
pub proof fn law_last_occurrence(s: Seq<u8>, pattern: Seq<u8>, other: int) -> (last: int)
    requires
        occurs_at(s, pattern, other),
    ensures
        other <= last,
        occurs_at(s, pattern, last),
        is_last_occurrence(s, pattern, last),
        forall|at: int| is_last_occurrence(s, pattern, at) ==> at == last,
    decreases s.len() - other,
{
    if exists|later: int| other < later && occurs_at(s, pattern, later) {
        let later = choose|later: int| other < later && occurs_at(s, pattern, later);
        law_last_occurrence(s, pattern, later)
    } else {
        assert(is_last_occurrence(s, pattern, other));
        other
    }
}

/// A character that is one byte long is ASCII.
proof fn lemma_char(c: char)
    requires
        encode_scalar(c as u32).len() == 1,
    ensures
        '\0' <= c <= '\u{7f}',
{
}

/// Text whose bytes are all ASCII is ASCII, character by character.
proof fn lemma_ascii_bytes(chars: Seq<char>)
    requires
        forall|i: int| 0 <= i < encode_utf8(chars).len() ==> #[trigger] encode_utf8(chars)[i] < 0x80,
    ensures
        is_ascii_chars(chars),
    decreases chars.len(),
{
    if chars.len() > 0 {
        let bytes = encode_utf8(chars);
        let rest = chars.drop_first();
        encode_utf8_first_scalar(chars);
        assert(bytes[0] < 0x80);
        let c: char = chars[0];
        let first = encode_scalar(c as u32);
        assert(first.len() == 1);
        lemma_char(c);
        assert(bytes =~= first + encode_utf8(rest));
        assert forall|i: int| 0 <= i < encode_utf8(rest).len() implies #[trigger] encode_utf8(
            rest,
        )[i] < 0x80 by {
            assert(encode_utf8(rest)[i] == bytes[i + 1]);
        }
        lemma_ascii_bytes(rest);
        assert forall|i: int| 0 <= i < chars.len() implies '\0' <= #[trigger] chars[i]
            <= '\u{7f}' by {
            if i > 0 {
                assert(chars[i] == rest[i - 1]);
            }
        }
    }
}

/// Text is the same as an ASCII word without regard to ASCII case exactly if it has as many
/// characters, and each of them is that of the word, or the same letter in the other case.
pub proof fn law_same_word(a: Seq<char>, word: Seq<char>)
    requires
        forall|i: int| 0 <= i < word.len() ==> '\0' <= #[trigger] word[i] <= '\u{7f}',
    ensures
        same_ignoring_ascii_case(encode_utf8(a), encode_utf8(word)) <==> {
            &&& a.len() == word.len()
            &&& forall|i: int|
                0 <= i < a.len() ==> {
                    ||| #[trigger] a[i] == word[i]
                    ||| 'A' <= a[i] <= 'Z' && a[i] as int + 32 == word[i] as int
                    ||| 'a' <= a[i] <= 'z' && a[i] as int == word[i] as int + 32
                }
        },
{
    let x = encode_utf8(a);
    let y = encode_utf8(word);
    assert(is_ascii_chars(word));
    is_ascii_chars_encode_utf8(word);
    if same_ignoring_ascii_case(x, y) {
        assert forall|i: int| 0 <= i < x.len() implies #[trigger] x[i] < 0x80 by {
            assert(word[i] as u8 == y[i]);
            assert(ascii_lower(x[i]) == ascii_lower(y[i]));
        }
        lemma_ascii_bytes(a);
        is_ascii_chars_encode_utf8(a);
        assert forall|i: int| 0 <= i < a.len() implies {
            ||| #[trigger] a[i] == word[i]
            ||| 'A' <= a[i] <= 'Z' && a[i] as int + 32 == word[i] as int
            ||| 'a' <= a[i] <= 'z' && a[i] as int == word[i] as int + 32
        } by {
            assert(a[i] as u8 == x[i]);
            assert(word[i] as u8 == y[i]);
        }
    }
    if a.len() == word.len() && (forall|i: int|
        0 <= i < a.len() ==> {
            ||| #[trigger] a[i] == word[i]
            ||| 'A' <= a[i] <= 'Z' && a[i] as int + 32 == word[i] as int
            ||| 'a' <= a[i] <= 'z' && a[i] as int == word[i] as int + 32
        }) {
        assert(is_ascii_chars(a)) by {
            assert forall|i: int| 0 <= i < a.len() implies '\0' <= #[trigger] a[i] <= '\u{7f}' by {
                assert('\0' <= word[i] <= '\u{7f}');
            }
        }
        is_ascii_chars_encode_utf8(a);
        assert forall|i: int| 0 <= i < x.len() implies ascii_lower(#[trigger] x[i]) == ascii_lower(
            y[i],
        ) by {
            assert(a[i] as u8 == x[i]);
            assert(word[i] as u8 == y[i]);
        }
    }
}

/// The digits of a radix: below ten the decimal digits, and from ten on the letters in
/// alphabetical order, of either case.
pub proof fn law_digits(value: int, radix: int, b: u8)
    requires
        2 <= radix <= 36,
    ensures
        digit_value(b, radix) == Some(value) <==> {
            &&& 0 <= value < radix
            &&& value < 10 ==> b == '0' as u8 + value
            &&& value >= 10 ==> b == 'a' as u8 + (value - 10) || b == 'A' as u8 + (value - 10)
        },
{
}

/// The value of digits that are written one run behind the other: the first run counts for the
/// power of the radix that the second is long.
pub proof fn law_digits_append(a: Seq<u8>, b: Seq<u8>, radix: int)
    ensures
        digits_value(a + b, radix) == (match (digits_value(a, radix), digits_value(b, radix)) {
            (Some(x), Some(y)) => Some(x * pow(radix, b.len()) + y),
            _ => None,
        }),
    decreases b.len(),
{
    reveal(pow);
    if b.len() == 0 {
        assert(a + b =~= a);
        if let Some(x) = digits_value(a, radix) {
            assert(x * 1 == x) by (nonlinear_arith);
        }
    } else {
        let high = b.drop_last();
        assert((a + b).drop_last() =~= a + high);
        assert((a + b).last() == b.last());
        law_digits_append(a, high, radix);
        if let (Some(x), Some(y)) = (digits_value(a, radix), digits_value(high, radix)) {
            let p = pow(radix, high.len());
            assert(pow(radix, b.len()) == radix * p);
            assert((x * p + y) * radix == x * (radix * p) + y * radix) by (nonlinear_arith);
        }
    }
}

/// One digit writes its own value, and no digit at all writes 0.
pub proof fn law_one_digit(b: u8, radix: int)
    requires
        2 <= radix <= 36,
    ensures
        digits_value(seq![b], radix) == digit_value(b, radix),
        digits_value(Seq::empty(), radix) == Some(0int),
{
    reveal_with_fuel(digits_value, 2);
    assert(seq![b].drop_last() =~= Seq::empty());
    assert(digits_value(seq![b].drop_last(), radix) == Some(0int));
    assert(seq![b].last() == b);
    assert(0 * radix == 0) by (nonlinear_arith);
}

/// Digits write a number only where each of them is a digit.
proof fn lemma_all_digits(s: Seq<u8>, radix: int, i: int)
    requires
        0 <= i < s.len(),
        digits_value(s, radix) is Some,
    ensures
        digit_value(s[i], radix) is Some,
    decreases s.len(),
{
    if i < s.len() - 1 {
        lemma_all_digits(s.drop_last(), radix, i);
    }
}

/// Digits, at least one, are read as the number that they write if that is at most `max`, and so
/// are the same digits behind a plus sign; a greater number is none.
pub proof fn law_number_reads_digits(digits: Seq<u8>, radix: int, max: int)
    requires
        2 <= radix <= 36,
        digits.len() > 0,
        digits_value(digits, radix) is Some,
    ensures
        digits_value(digits, radix)->0 <= max ==> number(digits, radix, max) == digits_value(
            digits,
            radix,
        ),
        digits_value(digits, radix)->0 > max ==> number(digits, radix, max) is None,
        number(seq!['+' as u8] + digits, radix, max) == number(digits, radix, max),
{
    lemma_all_digits(digits, radix, 0);
    assert((seq!['+' as u8] + digits).skip(1) =~= digits);
}

/// Text that has no digit, or has anything but digits behind an optional plus sign, is no number.
pub proof fn law_number_reads_nothing_else(s: Seq<u8>, radix: int, max: int, i: int)
    requires
        2 <= radix <= 36,
        s.len() == 0 || s == seq!['+' as u8] || {
            &&& 0 <= i < s.len()
            &&& digit_value(s[i], radix) is None
            &&& i > 0 || s[0] != '+' as u8
        },
    ensures
        number(s, radix, max) is None,
{
    if s == seq!['+' as u8] {
        assert(s[0] == '+' as u8);
        assert(without_plus(s).len() == 0);
    } else if s.len() > 0 {
        let digits = without_plus(s);
        if digits_value(digits, radix) is Some && digits.len() > 0 {
            if s[0] == '+' as u8 {
                assert(digits[i - 1] == s[i]);
                lemma_all_digits(digits, radix, i - 1);
            } else {
                lemma_all_digits(digits, radix, i);
            }
        }
    }
}

/// Two bytes are read as a hexadecimal byte, wherever they stand: two hexadecimal digits as the
/// byte that they write, a plus sign and one digit as that digit, and anything else as none.
pub proof fn law_hex_byte(head: Seq<u8>, high: u8, low: u8, tail: Seq<u8>)
    ensures
        hex_byte_at(head + seq![high, low] + tail, head.len() as int) == (match (
            digit_value(high, 16),
            digit_value(low, 16),
        ) {
            (Some(h), Some(l)) => Some((16 * h + l) as u8),
            (None, Some(l)) if high == '+' as u8 => Some(l as u8),
            _ => None,
        }),
        forall|h: int, l: int|
            digit_value(high, 16) == Some(h) && digit_value(low, 16) == Some(l) ==> 0 <= 16 * h + l
                <= 255,
{
    let s = head + seq![high, low] + tail;
    let two = seq![high, low];
    let at = head.len() as int;
    assert(s.subrange(at, at + 2) =~= two);
    reveal_with_fuel(digits_value, 3);
    assert(two.drop_last().drop_last() =~= Seq::empty());
    assert(two.drop_last().last() == high);
    if high == '+' as u8 {
        assert(two.skip(1) =~= seq![low]);
        assert(seq![low].drop_last() =~= Seq::empty());
    }
}

/// Fewer than two bytes are no hexadecimal byte.
pub proof fn law_hex_byte_is_two_bytes(s: Seq<u8>, at: int)
    requires
        at < 0 || at + 2 > s.len(),
    ensures
        hex_byte_at(s, at) is None,
{
}

} // verus!
