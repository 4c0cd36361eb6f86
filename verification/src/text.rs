//! Text rendering and scanning over sequences of characters.

use vstd::arithmetic::power::pow;
use vstd::prelude::*;

verus! {

/// `String::push` appends one character to the end of the string.
pub assume_specification[ String::push ](s: &mut String, ch: char)
    ensures
        final(s)@ == old(s)@.push(ch),
;

/// The character of a decimal or upper-case hexadecimal digit.
pub open spec fn digit(d: int) -> char {
    if d < 10 {
        (48 + d) as char
    } else {
        (55 + d) as char
    }
}

/// The decimal numeral of `n`, without leading zeros.
pub open spec fn decimal(n: nat) -> Seq<char>
    decreases n,
{
    if n < 10 {
        seq![digit(n as int)]
    } else {
        decimal(n / 10).push(digit((n % 10) as int))
    }
}

/// The decimal numeral of `n` in exactly `width` digits (its low digits).
pub open spec fn decimal_padded(n: nat, width: nat) -> Seq<char>
    decreases width,
{
    if width == 0 {
        Seq::<char>::empty()
    } else {
        decimal_padded(n / 10, (width - 1) as nat).push(digit((n % 10) as int))
    }
}

/// Two upper-case hexadecimal digits.
pub open spec fn hex_byte(b: u8) -> Seq<char> {
    seq![digit(b as int / 16), digit(b as int % 16)]
}

pub(crate) fn digit_char(d: u8) -> (c: char)
    requires
        d < 16,
    ensures
        c == digit(d as int),
{
    if d < 10 {
        (48u8 + d) as char
    } else {
        (55u8 + d) as char
    }
}

/// Appends a string slice.
pub fn push_text(out: &mut String, text: &str)
    ensures
        final(out)@ == old(out)@ + text@,
{
    let ghost before = out@;
    for c in it: text.chars()
        invariant
            out@ == before + text@.take(it.index()),
            it.seq() == text@,
    {
        out.push(c);
        assert(text@.take(it.index() + 1) =~= text@.take(it.index()).push(c));
    }
    assert(text@.take(text@.len() as int) =~= text@);
}

/// Appends the decimal numeral of `n`.
pub fn push_decimal(out: &mut String, n: u64)
    ensures
        final(out)@ == old(out)@ + decimal(n as nat),
    decreases n,
{
    let ghost before = out@;
    if n >= 10 {
        push_decimal(out, n / 10);
    }
    out.push(digit_char((n % 10) as u8));
    assert(out@ =~= before + decimal(n as nat));
}

/// Appends exactly `width` decimal digits of `n`.
pub fn push_decimal_padded(out: &mut String, n: u64, width: u8)
    ensures
        final(out)@ == old(out)@ + decimal_padded(n as nat, width as nat),
    decreases width,
{
    let ghost before = out@;
    if width > 0 {
        push_decimal_padded(out, n / 10, width - 1);
        out.push(digit_char((n % 10) as u8));
    }
    assert(out@ =~= before + decimal_padded(n as nat, width as nat));
}

/// Appends a byte as two upper-case hexadecimal digits.
pub fn push_hex_byte(out: &mut String, b: u8)
    ensures
        final(out)@ == old(out)@ + hex_byte(b),
{
    let ghost before = out@;
    out.push(digit_char(b / 16));
    out.push(digit_char(b % 16));
    assert(out@ =~= before + hex_byte(b));
}

/// The bytes that a character takes in UTF-8.
pub open spec fn utf8_width(c: char) -> nat {
    if (c as u32) < 0x80 {
        1
    } else if (c as u32) < 0x800 {
        2
    } else if (c as u32) < 0x1_0000 {
        3
    } else {
        4
    }
}

/// The bytes that characters take in UTF-8.
pub open spec fn utf8_len(s: Seq<char>) -> nat
    decreases s.len(),
{
    if s.len() == 0 {
        0
    } else {
        utf8_len(s.drop_last()) + utf8_width(s.last())
    }
}

/// The smaller of two lengths.
pub open spec fn shorter(a: nat, b: nat) -> nat {
    if a < b {
        a
    } else {
        b
    }
}

/// Whether some character ends after exactly `n` bytes.
pub open spec fn cuts(s: Seq<char>, n: nat) -> bool {
    exists|k: int| 0 <= k <= s.len() && #[trigger] utf8_len(s.take(k)) == n
}

fn width_of(c: char) -> (r: usize)
    ensures
        r == utf8_width(c),
{
    let code: u32 = c as u32;
    if code < 0x80 {
        1
    } else if code < 0x800 {
        2
    } else if code < 0x1_0000 {
        3
    } else {
        4
    }
}

proof fn lemma_utf8_len_grows(s: Seq<char>, i: int, j: int)
    requires
        0 <= i <= j <= s.len(),
    ensures
        utf8_len(s.take(i)) + (j - i) <= utf8_len(s.take(j)),
    decreases j,
{
    if i < j {
        lemma_utf8_len_grows(s, i, j - 1);
        assert(s.take(j).drop_last() =~= s.take(j - 1));
    }
}

/// The first `limit` bytes of a text, or all of a shorter one. The cut must not
/// fall inside a character.
pub fn first_bytes(text: &str, limit: usize) -> (r: String)
    requires
        cuts(text@, shorter(limit as nat, utf8_len(text@))),
    ensures
        r@.len() <= text@.len(),
        r@ == text@.take(r@.len() as int),
        utf8_len(r@) == shorter(limit as nat, utf8_len(text@)),
{
    let chars = chars_of(text);
    let ghost end = choose|k: int|
        0 <= k <= text@.len() && #[trigger] utf8_len(text@.take(k)) == shorter(
            limit as nat,
            utf8_len(text@),
        );
    assert(text@.take(text@.len() as int) =~= text@);
    let mut used: usize = 0;
    let mut i: usize = 0;
    while i < chars.len() && used < limit
        invariant
            chars@ == text@,
            i <= end <= text@.len(),
            used == utf8_len(text@.take(i as int)) <= limit,
            utf8_len(text@.take(end)) == shorter(limit as nat, utf8_len(text@)),
            text@.take(text@.len() as int) == text@,
        decreases chars@.len() - i,
    {
        proof {
            lemma_utf8_len_grows(text@, i as int, end);
            lemma_utf8_len_grows(text@, i as int, text@.len() as int);
            assert(i < end);
            lemma_utf8_len_grows(text@, i + 1, end);
            assert(text@.take(i + 1).drop_last() =~= text@.take(i as int));
        }
        used = used + width_of(chars[i]);
        i = i + 1;
    }
    proof {
        lemma_utf8_len_grows(text@, i as int, end);
    }
    let prefix = text_of(&chars, 0, i);
    assert(prefix@ =~= text@.take(i as int));
    prefix
}

/// Whether a character has Unicode's White_Space property.
pub open spec fn is_space(c: char) -> bool {
    ||| 0x09 <= c as int <= 0x0D
    ||| c as int == 0x20
    ||| c as int == 0x85
    ||| c as int == 0xA0
    ||| c as int == 0x1680
    ||| 0x2000 <= c as int <= 0x200A
    ||| c as int == 0x2028
    ||| c as int == 0x2029
    ||| c as int == 0x202F
    ||| c as int == 0x205F
    ||| c as int == 0x3000
}

/// The text without leading white space.
pub open spec fn trim_start(s: Seq<char>) -> Seq<char>
    decreases s.len(),
{
    if s.len() > 0 && is_space(s[0]) {
        trim_start(s.drop_first())
    } else {
        s
    }
}

/// The text without trailing white space.
pub open spec fn trim_end(s: Seq<char>) -> Seq<char>
    decreases s.len(),
{
    if s.len() > 0 && is_space(s.last()) {
        trim_end(s.drop_last())
    } else {
        s
    }
}

/// The text without white space at its ends.
pub open spec fn trim(s: Seq<char>) -> Seq<char> {
    trim_end(trim_start(s))
}

/// Whether the text begins with a prefix.
pub open spec fn has_prefix(s: Seq<char>, prefix: Seq<char>) -> bool {
    prefix.len() <= s.len() && s.take(prefix.len() as int) == prefix
}

/// Where a character first occurs.
pub open spec fn first_at(s: Seq<char>, c: char, i: int) -> bool {
    &&& 0 <= i < s.len()
    &&& s[i] == c
    &&& forall|j: int| 0 <= j < i ==> s[j] != c
}

/// Where a character last occurs.
pub open spec fn last_at(s: Seq<char>, c: char, i: int) -> bool {
    &&& 0 <= i < s.len()
    &&& s[i] == c
    &&& forall|j: int| i < j < s.len() ==> s[j] != c
}

/// The value of a hexadecimal digit, or 16.
pub open spec fn hex_digit(c: char) -> int {
    let n = c as int;
    if 48 <= n <= 57 {
        n - 48
    } else if 65 <= n <= 70 {
        n - 55
    } else if 97 <= n <= 102 {
        n - 87
    } else {
        16
    }
}

/// Whether the text is made of hexadecimal digits.
pub open spec fn all_hex(s: Seq<char>) -> bool {
    forall|i: int| 0 <= i < s.len() ==> hex_digit(#[trigger] s[i]) < 16
}

/// The number that hexadecimal digits spell.
pub open spec fn hex_number(s: Seq<char>) -> nat
    decreases s.len(),
{
    if s.len() == 0 {
        0
    } else {
        16 * hex_number(s.drop_last()) + hex_digit(s.last()) as nat
    }
}

/// The digits of a number that may carry a plus sign.
pub open spec fn unsigned_digits(s: Seq<char>) -> Seq<char> {
    if s.len() > 1 && s[0] == '+' {
        s.drop_first()
    } else {
        s
    }
}

/// The byte that a hexadecimal numeral spells, if it is one and fits.
pub open spec fn hex_byte_value(s: Seq<char>) -> Option<u8> {
    let digits = unsigned_digits(s);
    if digits.len() > 0 && all_hex(digits) && hex_number(digits) <= 255 {
        Some(hex_number(digits) as u8)
    } else {
        None
    }
}

/// The characters of a string slice.
pub fn chars_of(text: &str) -> (r: Vec<char>)
    ensures
        r@ == text@,
{
    let mut out: Vec<char> = Vec::new();
    for c in it: text.chars()
        invariant
            out@ == text@.take(it.index()),
            it.seq() == text@,
    {
        out.push(c);
        assert(text@.take(it.index() + 1) =~= text@.take(it.index()).push(c));
    }
    assert(text@.take(text@.len() as int) =~= text@);
    out
}

/// The text of characters `from` to `to`.
pub fn text_of(chars: &Vec<char>, from: usize, to: usize) -> (r: String)
    requires
        from <= to <= chars@.len(),
    ensures
        r@ == chars@.subrange(from as int, to as int),
{
    let mut out = String::new();
    let mut i: usize = from;
    while i < to
        invariant
            from <= i <= to <= chars@.len(),
            out@ == chars@.subrange(from as int, i as int),
        decreases to - i,
    {
        out.push(chars[i]);
        assert(chars@.subrange(from as int, i + 1) =~= chars@.subrange(from as int, i as int).push(
            chars@[i as int],
        ));
        i = i + 1;
    }
    out
}

/// Whether characters `from` to `to` spell a text.
pub fn spells(chars: &Vec<char>, from: usize, to: usize, text: &str) -> (r: bool)
    requires
        from <= to <= chars@.len(),
    ensures
        r == (chars@.subrange(from as int, to as int) == text@),
{
    let wanted = chars_of(text);
    let ghost part = chars@.subrange(from as int, to as int);
    if wanted.len() != to - from {
        assert(part.len() != text@.len());
        return false;
    }
    let mut i: usize = 0;
    while i < wanted.len()
        invariant
            wanted@ == text@,
            from <= to <= chars@.len(),
            wanted@.len() == to - from,
            part == chars@.subrange(from as int, to as int),
            i <= wanted@.len(),
            forall|j: int| 0 <= j < i ==> part[j] == wanted@[j],
        decreases wanted@.len() - i,
    {
        if chars[from + i] != wanted[i] {
            assert(part[i as int] != text@[i as int]);
            return false;
        }
        i = i + 1;
    }
    assert(part =~= text@);
    true
}

/// Whether two texts are the same.
pub fn same_text(a: &str, b: &str) -> (r: bool)
    ensures
        r == (a@ == b@),
{
    let chars = chars_of(a);
    let len: usize = chars.len();
    assert(chars@.subrange(0, len as int) =~= chars@);
    spells(&chars, 0, len, b)
}

/// Whether a text is there and is the one that is wanted.
pub fn is_text(text: &Option<String>, wanted: &str) -> (r: bool)
    ensures
        r == (*text matches Some(t) && t@ == wanted@),
{
    match text {
        Some(text) => same_text(text.as_str(), wanted),
        None => false,
    }
}

/// Whether a character has Unicode's White_Space property.
pub fn is_white_space(c: char) -> (r: bool)
    ensures
        r == is_space(c),
{
    let n: u32 = c as u32;
    (0x09 <= n && n <= 0x0D) || n == 0x20 || n == 0x85 || n == 0xA0 || n == 0x1680 || (0x2000 <= n
        && n <= 0x200A) || n == 0x2028 || n == 0x2029 || n == 0x202F || n == 0x205F || n == 0x3000
}

/// Where the text without white space at its ends begins and ends.
pub fn trim_range(chars: &Vec<char>) -> (r: (usize, usize))
    ensures
        r.0 <= r.1 <= chars@.len(),
        chars@.subrange(r.0 as int, r.1 as int) == trim(chars@),
{
    let mut from: usize = 0;
    let mut to: usize = chars.len();
    assert(chars@.subrange(0, to as int) =~= chars@);
    while from < to && is_white_space(chars[from])
        invariant
            from <= to == chars@.len(),
            trim_start(chars@.subrange(from as int, to as int)) == trim_start(chars@),
        decreases to - from,
    {
        assert(chars@.subrange(from as int, to as int).drop_first() =~= chars@.subrange(
            from + 1,
            to as int,
        ));
        from = from + 1;
    }
    let ghost rest = chars@.subrange(from as int, to as int);
    assert(rest == trim_start(chars@));
    while from < to && is_white_space(chars[to - 1])
        invariant
            from <= to <= chars@.len(),
            trim_end(chars@.subrange(from as int, to as int)) == trim_end(rest),
        decreases to - from,
    {
        assert(chars@.subrange(from as int, to as int).drop_last() =~= chars@.subrange(
            from as int,
            to - 1,
        ));
        to = to - 1;
    }
    (from, to)
}

/// Where a character first occurs among characters `from` to `to`.
pub fn find_first(chars: &Vec<char>, from: usize, to: usize, c: char) -> (r: Option<usize>)
    requires
        from <= to <= chars@.len(),
    ensures
        match r {
            Some(i) => from <= i < to && first_at(
                chars@.subrange(from as int, to as int),
                c,
                i - from,
            ),
            None => !chars@.subrange(from as int, to as int).contains(c),
        },
{
    let ghost part = chars@.subrange(from as int, to as int);
    let mut i: usize = from;
    while i < to
        invariant
            from <= i <= to <= chars@.len(),
            part == chars@.subrange(from as int, to as int),
            forall|j: int| 0 <= j < i - from ==> part[j] != c,
        decreases to - i,
    {
        if chars[i] == c {
            return Some(i);
        }
        i = i + 1;
    }
    None
}

/// Where a character last occurs among characters `from` to `to`.
pub fn find_last(chars: &Vec<char>, from: usize, to: usize, c: char) -> (r: Option<usize>)
    requires
        from <= to <= chars@.len(),
    ensures
        match r {
            Some(i) => from <= i < to && last_at(
                chars@.subrange(from as int, to as int),
                c,
                i - from,
            ),
            None => !chars@.subrange(from as int, to as int).contains(c),
        },
{
    let ghost part = chars@.subrange(from as int, to as int);
    let mut i: usize = to;
    while i > from
        invariant
            from <= i <= to <= chars@.len(),
            part == chars@.subrange(from as int, to as int),
            forall|j: int| i - from <= j < part.len() ==> part[j] != c,
        decreases i,
    {
        i = i - 1;
        if chars[i] == c {
            return Some(i);
        }
    }
    None
}

/// Whether characters `from` on begin with a prefix.
pub fn starts_with(chars: &Vec<char>, from: usize, to: usize, prefix: &str) -> (r: bool)
    requires
        from <= to <= chars@.len(),
    ensures
        r == has_prefix(chars@.subrange(from as int, to as int), prefix@),
{
    let len: usize = chars_of(prefix).len();
    if len > to - from {
        return false;
    }
    assert(chars@.subrange(from as int, to as int).take(len as int) =~= chars@.subrange(
        from as int,
        from + len,
    ));
    spells(chars, from, from + len, prefix)
}

/// The value of a hexadecimal digit, or 16.
fn digit_value(c: char) -> (r: u32)
    ensures
        r == hex_digit(c),
{
    let n: u32 = c as u32;
    if 48 <= n && n <= 57 {
        n - 48
    } else if 65 <= n && n <= 70 {
        n - 55
    } else if 97 <= n && n <= 102 {
        n - 87
    } else {
        16
    }
}

/// The byte that a hexadecimal numeral spells, if it is one and fits.
pub fn parse_hex_byte(chars: &Vec<char>, from: usize, to: usize) -> (r: Option<u8>)
    requires
        from <= to <= chars@.len(),
    ensures
        r == hex_byte_value(chars@.subrange(from as int, to as int)),
{
    let ghost part = chars@.subrange(from as int, to as int);
    let mut start: usize = from;
    if to - from > 1 && chars[from] == '+' {
        start = from + 1;
        assert(part.drop_first() =~= chars@.subrange(start as int, to as int));
    }
    let ghost digits = unsigned_digits(part);
    assert(digits =~= chars@.subrange(start as int, to as int));
    if start == to {
        return None;
    }
    let mut value: u32 = 0;
    let mut i: usize = start;
    assert(digits.take(0).len() == 0);
    while i < to
        invariant
            start <= i <= to <= chars@.len(),
            digits == chars@.subrange(start as int, to as int),
            digits == unsigned_digits(part),
            part == chars@.subrange(from as int, to as int),
            value == hex_number(digits.take(i - start)),
            value <= 255,
            all_hex(digits.take(i - start)),
        decreases to - i,
    {
        let d: u32 = digit_value(chars[i]);
        assert(chars@[i as int] == digits[i - start]);
        assert(d == hex_digit(digits[i - start]));
        let ghost k = i - start;
        assert(digits.take(k + 1).drop_last() =~= digits.take(k));
        assert(digits.take(k + 1).last() == digits[k]);
        if d >= 16 {
            assert(!all_hex(digits));
            return None;
        }
        assert(all_hex(digits.take(k + 1))) by {
            assert forall|j: int| 0 <= j < k + 1 implies hex_digit(#[trigger] digits.take(k + 1)[j])
                < 16 by {
                if j < k {
                    assert(digits.take(k)[j] == digits[j]);
                }
            }
        }
        value = 16 * value + d;
        i = i + 1;
        if value > 255 {
            proof {
                lemma_hex_grows(digits, k + 1);
            }
            return None;
        }
    }
    assert(digits.take(i - start) =~= digits);
    Some(value as u8)
}

/// A longer numeral spells no smaller a number.
proof fn lemma_hex_grows(s: Seq<char>, k: int)
    requires
        0 <= k <= s.len(),
    ensures
        all_hex(s) ==> hex_number(s.take(k)) <= hex_number(s),
    decreases s.len(),
{
    if k < s.len() {
        lemma_hex_grows(s.drop_last(), k);
        assert(s.drop_last().take(k) =~= s.take(k));
        if all_hex(s) {
            assert(all_hex(s.drop_last())) by {
                assert forall|j: int| 0 <= j < s.len() - 1 implies hex_digit(
                    #[trigger] s.drop_last()[j],
                ) < 16 by {
                    assert(s[j] == s.drop_last()[j]);
                }
            }
            assert(hex_digit(s.last()) >= 0);
        }
    } else {
        assert(s.take(k) =~= s);
    }
}

/// `n / d`, rounded to the nearest, and to the even one of two that are equally
/// near.
pub open spec fn round_half_even(n: nat, d: nat) -> nat {
    let q = n / d;
    let r = n % d;
    if 2 * r > d || (2 * r == d && q % 2 == 1) {
        q + 1
    } else {
        q
    }
}

/// A number of hundredths with two decimal places.
pub open spec fn hundredths_text(n: nat) -> Seq<char> {
    decimal(n / 100) + "."@ + decimal_padded(n % 100, 2)
}

/// A number of tenths with one decimal place.
pub open spec fn tenths_text(n: nat) -> Seq<char> {
    decimal(n / 10) + "."@ + decimal_padded(n % 10, 1)
}

/// Appends a number of hundredths with two decimal places.
pub fn push_hundredths(out: &mut String, n: u64)
    ensures
        final(out)@ == old(out)@ + hundredths_text(n as nat),
{
    let ghost before = out@;
    push_decimal(out, n / 100);
    push_text(out, ".");
    push_decimal_padded(out, n % 100, 2);
    assert(out@ =~= before + hundredths_text(n as nat));
}

/// Appends a number of tenths with one decimal place.
pub fn push_tenths(out: &mut String, n: u64)
    ensures
        final(out)@ == old(out)@ + tenths_text(n as nat),
{
    let ghost before = out@;
    push_decimal(out, n / 10);
    push_text(out, ".");
    push_decimal_padded(out, n % 10, 1);
    assert(out@ =~= before + tenths_text(n as nat));
}

/// The upper-case hexadecimal numeral of `n`, without leading zeros.
pub open spec fn hexadecimal(n: nat) -> Seq<char>
    decreases n,
{
    if n < 16 {
        seq![digit(n as int)]
    } else {
        hexadecimal(n / 16).push(digit((n % 16) as int))
    }
}

/// The upper-case hexadecimal numeral of `n`, in two digits at least.
pub open spec fn hex_at_least_two(n: nat) -> Seq<char> {
    if n < 16 {
        "0"@ + hexadecimal(n)
    } else {
        hexadecimal(n)
    }
}

/// Appends the upper-case hexadecimal numeral of `n`.
pub fn push_hexadecimal(out: &mut String, n: u16)
    ensures
        final(out)@ == old(out)@ + hexadecimal(n as nat),
    decreases n,
{
    let ghost before = out@;
    if n >= 16 {
        push_hexadecimal(out, n / 16);
    }
    out.push(digit_char((n % 16) as u8));
    assert(out@ =~= before + hexadecimal(n as nat));
}

/// Appends the upper-case hexadecimal numeral of `n`, in two digits at least.
pub fn push_hex_at_least_two(out: &mut String, n: u16)
    ensures
        final(out)@ == old(out)@ + hex_at_least_two(n as nat),
{
    let ghost before = out@;
    if n < 16 {
        push_text(out, "0");
    }
    push_hexadecimal(out, n);
    assert(out@ =~= before + hex_at_least_two(n as nat));
}

/// The number that decimal digits spell.
pub open spec fn decimal_number(s: Seq<char>) -> nat
    decreases s.len(),
{
    if s.len() == 0 {
        0
    } else {
        10 * decimal_number(s.drop_last()) + (s.last() as int - 48) as nat
    }
}

/// Decimal digits spell the number that they were made from, without a leading
/// zero but for zero itself, so no two numbers look alike.
pub proof fn law_decimal_reads_back(n: nat)
    ensures
        decimal_number(decimal(n)) == n,
        decimal(n).len() > 0,
        forall|i: int| 0 <= i < decimal(n).len() ==> 48 <= (#[trigger] decimal(n)[i]) as int <= 57,
        n > 0 ==> decimal(n)[0] != '0',
    decreases n,
{
    let s = decimal(n);
    if n >= 10 {
        law_decimal_reads_back(n / 10);
        assert(s.drop_last() =~= decimal(n / 10));
        assert(s.last() == digit((n % 10) as int));
        assert(s[0] == decimal(n / 10)[0]);
    } else {
        assert(s.drop_last() =~= Seq::<char>::empty());
        assert(s.last() == digit(n as int));
        assert(decimal_number(Seq::<char>::empty()) == 0);
    }
}

/// Padded digits are as many as asked for and spell the number as far as they
/// go.
pub proof fn law_padded_reads_back(n: nat, width: nat)
    ensures
        decimal_padded(n, width).len() == width,
        n < pow(10, width) ==> decimal_number(decimal_padded(n, width)) == n,
    decreases width,
{
    reveal(pow);
    if width > 0 {
        let s = decimal_padded(n, width);
        law_padded_reads_back(n / 10, (width - 1) as nat);
        assert(s.drop_last() =~= decimal_padded(n / 10, (width - 1) as nat));
        assert(s.last() == digit((n % 10) as int));
    }
}

/// Hundredths are shown as the whole part and two digits, tenths as the whole
/// part and one.
pub proof fn law_fraction_texts(n: nat)
    ensures
        ({
            let text = hundredths_text(n);
            let k = text.len() - 3;
            &&& k >= 1
            &&& decimal_number(text.take(k)) == n / 100
            &&& text[k] == '.'
            &&& decimal_number(text.skip(k + 1)) == n % 100
        }),
        ({
            let text = tenths_text(n);
            let k = text.len() - 2;
            &&& k >= 1
            &&& decimal_number(text.take(k)) == n / 10
            &&& text[k] == '.'
            &&& decimal_number(text.skip(k + 1)) == n % 10
        }),
{
    reveal_strlit(".");
    reveal_with_fuel(pow, 3);
    law_decimal_reads_back(n / 100);
    law_decimal_reads_back(n / 10);
    law_padded_reads_back(n % 100, 2);
    law_padded_reads_back(n % 10, 1);
    let a = hundredths_text(n);
    let b = tenths_text(n);
    assert(a.take(a.len() - 3) =~= decimal(n / 100));
    assert(a.skip(a.len() - 2) =~= decimal_padded(n % 100, 2));
    assert(b.take(b.len() - 2) =~= decimal(n / 10));
    assert(b.skip(b.len() - 1) =~= decimal_padded(n % 10, 1));
}

/// Hexadecimal digits spell the number that they were made from, and a byte has
/// two of them.
pub proof fn law_hexadecimal_reads_back(n: nat, b: u8)
    ensures
        hex_number(hexadecimal(n)) == n,
        hexadecimal(n).len() > 0,
        hex_number(hex_at_least_two(n)) == n,
        hex_at_least_two(n).len() >= 2,
        hex_number(hex_byte(b)) == b,
        hex_byte(b).len() == 2,
    decreases n,
{
    let s = hexadecimal(n);
    assert(hex_number(Seq::<char>::empty()) == 0);
    if n >= 16 {
        law_hexadecimal_reads_back(n / 16, b);
        assert(s.drop_last() =~= hexadecimal(n / 16));
        assert(s.last() == digit((n % 16) as int));
    } else {
        assert(s.drop_last() =~= Seq::<char>::empty());
        assert(s.last() == digit(n as int));
        reveal_strlit("0");
        let padded = hex_at_least_two(n);
        assert(padded.drop_last() =~= seq!['0']);
        assert(seq!['0'].drop_last() =~= Seq::<char>::empty());
        assert(padded.last() == digit(n as int));
        assert(hex_number(seq!['0']) == 0);
    }
    let pair = hex_byte(b);
    let high = seq![digit(b as int / 16)];
    assert(pair.drop_last() =~= high);
    assert(high.drop_last() =~= Seq::<char>::empty());
    assert(hex_number(high) == b as int / 16);
}

/// Rounding gives the nearest whole number, and of two as near the even one.
pub proof fn law_round_half_even(n: nat, d: nat)
    requires
        d > 0,
    ensures
        ({
            let r = round_half_even(n, d);
            &&& 2 * (r * d) <= 2 * n + d
            &&& 2 * n <= 2 * (r * d) + d
            &&& 2 * (r * d) == 2 * n + d || 2 * n == 2 * (r * d) + d ==> r % 2 == 0
        }),
{
    let q = (n / d) as int;
    let m = d as int;
    vstd::arithmetic::div_mod::lemma_fundamental_div_mod(n as int, m);
    vstd::arithmetic::div_mod::lemma_mod_bound(n as int, m);
    assert(m * q == q * m && (q + 1) * m == q * m + m) by (nonlinear_arith);
}

/// Trimming takes white space off both ends, all of it and nothing else.
pub proof fn law_trim(s: Seq<char>)
    ensures
        ({
            let t = trim(s);
            &&& t.len() > 0 ==> !is_space(t[0]) && !is_space(t.last())
            &&& exists|i: int, j: int|
                0 <= i <= j <= s.len() && t == #[trigger] s.subrange(i, j) && (forall|k: int|
                    0 <= k < i || j <= k < s.len() ==> is_space(#[trigger] s[k]))
        }),
{
    let i = lemma_trim_start(s);
    let rest = trim_start(s);
    let j = lemma_trim_end(rest);
    assert(rest == s.skip(i));
    assert(trim(s) == rest.take(j));
    assert(s.subrange(i, i + j) =~= rest.take(j));
    assert forall|k: int| 0 <= k < i || i + j <= k < s.len() implies is_space(
        #[trigger] s[k],
    ) by {
        if k >= i {
            assert(rest[k - i] == s[k]);
        }
    }
    if trim(s).len() > 0 {
        assert(trim(s)[0] == rest[0]);
    }
}

proof fn lemma_trim_start(s: Seq<char>) -> (i: int)
    ensures
        0 <= i <= s.len(),
        trim_start(s) == s.skip(i),
        forall|k: int| 0 <= k < i ==> is_space(#[trigger] s[k]),
        i < s.len() ==> !is_space(s[i]),
    decreases s.len(),
{
    if s.len() > 0 && is_space(s[0]) {
        let rest = s.drop_first();
        let i = lemma_trim_start(rest);
        assert(rest.skip(i) =~= s.skip(i + 1));
        assert forall|k: int| 0 <= k < i + 1 implies is_space(#[trigger] s[k]) by {
            if k > 0 {
                assert(rest[k - 1] == s[k]);
            }
        }
        if i < rest.len() {
            assert(rest[i] == s[i + 1]);
        }
        i + 1
    } else {
        assert(s.skip(0) =~= s);
        0
    }
}

proof fn lemma_trim_end(s: Seq<char>) -> (j: int)
    ensures
        0 <= j <= s.len(),
        trim_end(s) == s.take(j),
        forall|k: int| j <= k < s.len() ==> is_space(#[trigger] s[k]),
        j > 0 ==> !is_space(s[j - 1]),
    decreases s.len(),
{
    if s.len() > 0 && is_space(s.last()) {
        let rest = s.drop_last();
        let j = lemma_trim_end(rest);
        assert(rest.take(j) =~= s.take(j));
        assert forall|k: int| j <= k < s.len() implies is_space(#[trigger] s[k]) by {
            if k < rest.len() {
                assert(rest[k] == s[k]);
            }
        }
        j
    } else {
        assert(s.take(s.len() as int) =~= s);
        s.len() as int
    }
}

} // verus!
