//! Decimal numbers and comma-separated fields, as payloads spell them.

use vstd::prelude::*;

verus! {

/// Field separator `,`.
pub const COMMA: u8 = 0x2C;

/// Sign `+`, accepted in front of any number.
pub const PLUS: u8 = 0x2B;

/// Sign `-`, accepted in front of a signed number.
pub const MINUS: u8 = 0x2D;

/// Whether `c` is one of `0` to `9`.
pub open spec fn is_digit(c: u8) -> bool {
    0x30 <= c <= 0x39
}

/// Whether every byte of `s` is a decimal digit.
pub open spec fn all_digits(s: Seq<u8>) -> bool {
    forall|i: int| 0 <= i < s.len() ==> is_digit(#[trigger] s[i])
}

/// The number that a string of decimal digits writes (zero for the empty
/// string).
pub open spec fn digits_value(s: Seq<u8>) -> nat
    decreases s.len(),
{
    if s.len() == 0 {
        0
    } else {
        digits_value(s.drop_last()) * 10 + (s.last() - 0x30) as nat
    }
}

/// The shortest decimal spelling of `n`.
pub open spec fn decimal(n: nat) -> Seq<u8>
    decreases n,
{
    if n < 10 {
        seq![(0x30 + n) as u8]
    } else {
        decimal(n / 10).push((0x30 + n % 10) as u8)
    }
}

/// The text of an unsigned number without its optional leading `+`.
pub open spec fn magnitude_digits(s: Seq<u8>) -> Seq<u8> {
    if s.len() > 0 && s[0] == PLUS {
        s.skip(1)
    } else {
        s
    }
}

/// Whether `d` is one or more decimal digits that write a number up to `max`.
pub open spec fn digits_within(d: Seq<u8>, max: nat) -> bool {
    d.len() >= 1 && all_digits(d) && digits_value(d) <= max
}

/// The unsigned number that `s` writes: an optional `+`, then one or more
/// decimal digits, nothing else, and a value of at most `max`.
pub open spec fn parsed_unsigned(s: Seq<u8>, max: nat) -> Option<nat> {
    if digits_within(magnitude_digits(s), max) {
        Some(digits_value(magnitude_digits(s)))
    } else {
        None
    }
}

/// The 64-bit unsigned number that `s` writes, if it writes one.
pub open spec fn parsed_u64(s: Seq<u8>) -> Option<u64> {
    match parsed_unsigned(s, u64::MAX as nat) {
        Some(v) => Some(v as u64),
        None => None,
    }
}

/// The 32-bit unsigned number that `s` writes, if it writes one.
pub open spec fn parsed_u32(s: Seq<u8>) -> Option<u32> {
    match parsed_unsigned(s, u32::MAX as nat) {
        Some(v) => Some(v as u32),
        None => None,
    }
}

/// The 32-bit signed number that `s` writes, if it writes one: an optional
/// `+` or `-`, then one or more decimal digits, and a value in range.
pub open spec fn parsed_i32(s: Seq<u8>) -> Option<i32> {
    if s.len() > 0 && s[0] == MINUS {
        if digits_within(s.skip(1), 0x8000_0000) {
            Some((-(digits_value(s.skip(1)) as int)) as i32)
        } else {
            None
        }
    } else {
        match parsed_unsigned(s, i32::MAX as nat) {
            Some(v) => Some(v as i32),
            None => None,
        }
    }
}

/// Where the first field of `s` ends when scanning from `i`: the index of
/// the first comma at or after `i`, or the length of `s` if there is none.
pub open spec fn comma_from(s: Seq<u8>, i: int) -> int
    decreases s.len() - i,
{
    if i < 0 || i >= s.len() || s[i] == COMMA {
        i
    } else {
        comma_from(s, i + 1)
    }
}

/// The first comma-separated field of `s`: everything before the first
/// comma, or all of `s` if it holds no comma.
pub open spec fn first_field(s: Seq<u8>) -> Seq<u8> {
    s.take(comma_from(s, 0))
}

/// What follows the first comma of `s`, if `s` holds a comma.
pub open spec fn after_first_field(s: Seq<u8>) -> Option<Seq<u8>> {
    if comma_from(s, 0) < s.len() {
        Some(s.skip(comma_from(s, 0) + 1))
    } else {
        None
    }
}

/// What follows the `n`-th comma of `s` (all of `s` for `n == 0`), if `s`
/// holds that many commas.
pub open spec fn after_fields(s: Seq<u8>, n: nat) -> Option<Seq<u8>>
    decreases n,
{
    if n == 0 {
        Some(s)
    } else {
        match after_first_field(s) {
            Some(t) => after_fields(t, (n - 1) as nat),
            None => None,
        }
    }
}

/// The `n`-th comma-separated field of `s`, counting from zero, if `s` has
/// more than `n` fields. A text without comma is one field, the empty text
/// one empty field.
pub open spec fn field(s: Seq<u8>, n: nat) -> Option<Seq<u8>> {
    match after_fields(s, n) {
        Some(t) => Some(first_field(t)),
        None => None,
    }
}

/// The scan for a comma stays inside the text.
pub proof fn lemma_comma_from_bounds(s: Seq<u8>, i: int)
    requires
        0 <= i <= s.len(),
    ensures
        i <= comma_from(s, i) <= s.len(),
        comma_from(s, i) < s.len() ==> s[comma_from(s, i)] == COMMA,
        forall|j: int| i <= j < comma_from(s, i) ==> s[j] != COMMA,
    decreases s.len() - i,
{
    if i < s.len() && s[i] != COMMA {
        lemma_comma_from_bounds(s, i + 1);
    }
}

/// A text without comma, a comma and any text: the first field is the text
/// before the comma, and what follows the comma follows the first field.
pub proof fn lemma_first_field_join(a: Seq<u8>, b: Seq<u8>)
    requires
        forall|i: int| 0 <= i < a.len() ==> a[i] != COMMA,
    ensures
        first_field(a + seq![COMMA] + b) == a,
        after_first_field(a + seq![COMMA] + b) == Some(b),
{
    let s = a + seq![COMMA] + b;
    lemma_comma_from_bounds(s, 0);
    let c = comma_from(s, 0);
    assert(s[a.len() as int] == COMMA);
    if c < a.len() {
        assert(s[c] == a[c]);
    }
    assert(c == a.len());
    assert(s.take(c) =~= a);
    assert(s.skip(c + 1) =~= b);
}

/// A text without comma is its own first field, and nothing follows it.
pub proof fn lemma_first_field_alone(a: Seq<u8>)
    requires
        forall|i: int| 0 <= i < a.len() ==> a[i] != COMMA,
    ensures
        first_field(a) == a,
        after_first_field(a) is None,
{
    lemma_comma_from_bounds(a, 0);
    assert(a.take(a.len() as int) =~= a);
}

/// A number only grows when more digits follow.
pub proof fn lemma_digits_value_prefix(s: Seq<u8>, k: int)
    requires
        0 <= k <= s.len(),
        all_digits(s),
    ensures
        digits_value(s.take(k)) <= digits_value(s),
    decreases s.len() - k,
{
    if k < s.len() {
        assert(s.drop_last().take(k) =~= s.take(k));
        lemma_digits_value_prefix(s.drop_last(), k);
    } else {
        assert(s.take(k) =~= s);
    }
}

/// The decimal spelling of a number is one or more digits that write it.
pub proof fn lemma_decimal_digits(n: nat)
    ensures
        decimal(n).len() >= 1,
        all_digits(decimal(n)),
        digits_value(decimal(n)) == n,
    decreases n,
{
    if n < 10 {
        let d = decimal(n);
        assert(d.drop_last() =~= Seq::<u8>::empty());
        assert(digits_value(d.drop_last()) == 0);
    } else {
        lemma_decimal_digits(n / 10);
        let d = decimal(n);
        assert(d.drop_last() =~= decimal(n / 10));
    }
}

/// Parsing the decimal spelling of a number gives the number back.
pub proof fn lemma_decimal_round_trip(n: nat, max: nat)
    requires
        n <= max,
    ensures
        parsed_unsigned(decimal(n), max) == Some(n),
{
    lemma_decimal_digits(n);
    assert(is_digit(decimal(n)[0]));
}

/// Whether two byte strings are equal.
pub fn eq_bytes(a: &[u8], b: &[u8]) -> (r: bool)
    ensures
        r == (a@ == b@),
{
    if a.len() != b.len() {
        return false;
    }
    let mut i: usize = 0;
    while i < a.len()
        invariant
            a.len() == b.len(),
            i <= a.len(),
            forall|j: int| 0 <= j < i ==> a@[j] == b@[j],
        decreases a.len() - i,
    {
        if a[i] != b[i] {
            return false;
        }
        i += 1;
    }
    assert(a@ =~= b@);
    true
}

/// Appends the bytes of `s` to `out`.
pub fn append(out: &mut Vec<u8>, s: &[u8])
    ensures
        final(out)@ == old(out)@ + s@,
{
    let mut i: usize = 0;
    while i < s.len()
        invariant
            i <= s.len(),
            out@ == old(out)@ + s@.take(i as int),
        decreases s.len() - i,
    {
        out.push(s[i]);
        assert(s@.take(i + 1) =~= s@.take(i as int).push(s@[i as int]));
        i += 1;
    }
    assert(s@.take(i as int) =~= s@);
}

/// Reads one or more decimal digits as a number of at most `max`.
fn parse_digits(d: &[u8], max: u64) -> (r: Option<u64>)
    ensures
        r == (if digits_within(d@, max as nat) {
            Some(digits_value(d@) as u64)
        } else {
            None
        }),
{
    if d.len() == 0 {
        return None;
    }
    let mut acc: u64 = 0;
    let mut i: usize = 0;
    while i < d.len()
        invariant
            i <= d.len(),
            all_digits(d@.take(i as int)),
            acc == digits_value(d@.take(i as int)),
            acc <= max,
        decreases d.len() - i,
    {
        let c = d[i];
        if c < 0x30 || c > 0x39 {
            assert(!is_digit(d@[i as int]));
            return None;
        }
        assert(d@.take(i + 1).drop_last() =~= d@.take(i as int));
        let next: u128 = acc as u128 * 10 + (c - 0x30) as u128;
        if next > max as u128 {
            proof {
                if all_digits(d@) {
                    lemma_digits_value_prefix(d@, i + 1);
                }
            }
            return None;
        }
        acc = next as u64;
        i += 1;
    }
    assert(d@.take(i as int) =~= d@);
    Some(acc)
}

/// The digits of an unsigned number: `s` without its leading `+`, if any.
fn strip_plus(s: &[u8]) -> (d: &[u8])
    ensures
        d@ == magnitude_digits(s@),
{
    if s.len() > 0 && s[0] == PLUS {
        let d = vstd::slice::slice_subrange(s, 1, s.len());
        assert(d@ =~= s@.skip(1));
        d
    } else {
        s
    }
}

/// Reads one or more decimal digits, without sign, as a 32-bit number.
pub fn parse_plain_u32(d: &[u8]) -> (r: Option<u32>)
    ensures
        r == (if digits_within(d@, u32::MAX as nat) {
            Some(digits_value(d@) as u32)
        } else {
            None
        }),
{
    match parse_digits(d, 0xFFFF_FFFF) {
        Some(v) => Some(v as u32),
        None => None,
    }
}

/// Parses a 64-bit unsigned decimal number.
pub fn parse_u64(s: &[u8]) -> (r: Option<u64>)
    ensures
        r == parsed_u64(s@),
{
    parse_digits(strip_plus(s), u64::MAX)
}

/// Parses a 32-bit unsigned decimal number.
pub fn parse_u32(s: &[u8]) -> (r: Option<u32>)
    ensures
        r == parsed_u32(s@),
{
    match parse_digits(strip_plus(s), 0xFFFF_FFFF) {
        Some(v) => Some(v as u32),
        None => None,
    }
}

/// Parses a 32-bit signed decimal number.
pub fn parse_i32(s: &[u8]) -> (r: Option<i32>)
    ensures
        r == parsed_i32(s@),
{
    if s.len() > 0 && s[0] == MINUS {
        let d = vstd::slice::slice_subrange(s, 1, s.len());
        assert(d@ =~= s@.skip(1));
        match parse_digits(d, 0x8000_0000) {
            Some(v) => Some((0 - v as i64) as i32),
            None => None,
        }
    } else {
        match parse_digits(strip_plus(s), 0x7FFF_FFFF) {
            Some(v) => Some(v as i32),
            None => None,
        }
    }
}

/// Whether `arg` writes a whole number from zero to the largest 32-bit
/// signed number.
pub fn is_positive_integer_i32(arg: &[u8]) -> (ok: bool)
    ensures
        ok == (parsed_i32(arg@) matches Some(v) && v >= 0),
{
    match parse_i32(arg) {
        Some(v) => v >= 0,
        None => false,
    }
}

/// Appends the shortest decimal spelling of `n` to `out`.
pub fn push_decimal(out: &mut Vec<u8>, n: u64)
    ensures
        final(out)@ == old(out)@ + decimal(n as nat),
    decreases n,
{
    if n >= 10 {
        push_decimal(out, n / 10);
    }
    out.push(0x30 + (n % 10) as u8);
    assert(out@ =~= old(out)@ + decimal(n as nat));
}

/// The shortest decimal spelling of `n`.
pub fn format_u64(n: u64) -> (out: Vec<u8>)
    ensures
        out@ == decimal(n as nat),
{
    let mut out: Vec<u8> = Vec::new();
    push_decimal(&mut out, n);
    assert(out@ =~= decimal(n as nat));
    out
}

/// Splits `s` at its first comma: the first field, and what follows the
/// comma if there is one.
pub fn split_first<'a>(s: &'a [u8]) -> (r: (&'a [u8], Option<&'a [u8]>))
    ensures
        r.0@ == first_field(s@),
        match after_first_field(s@) {
            Some(t) => r.1 matches Some(x) && x@ == t,
            None => r.1 is None,
        },
{
    let mut i: usize = 0;
    while i < s.len() && s[i] != COMMA
        invariant
            i <= s.len(),
            comma_from(s@, i as int) == comma_from(s@, 0),
        decreases s.len() - i,
    {
        i += 1;
    }
    let head = vstd::slice::slice_subrange(s, 0, i);
    assert(head@ =~= s@.take(i as int));
    if i < s.len() {
        let tail = vstd::slice::slice_subrange(s, i + 1, s.len());
        assert(tail@ =~= s@.skip(i + 1));
        (head, Some(tail))
    } else {
        (head, None)
    }
}

} // verus!
