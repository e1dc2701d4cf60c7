//! Bytes, decimal numbers and separated fields: what terminal sequences are
//! made of.

use vstd::prelude::*;
use vstd::utf8::*;

verus! {

/// The bytes that a string stands for on the wire.
pub open spec fn bytes(s: &str) -> Seq<u8> {
    encode_utf8(s@)
}

/// The decimal numeral of `n`, without leading zeros.
pub open spec fn digits(n: nat) -> Seq<u8>
    decreases n,
{
    if n < 10 {
        seq![(48 + n) as u8]
    } else {
        digits(n / 10).push((48 + n % 10) as u8)
    }
}

/// The decimal numeral of `n` as text.
pub open spec fn numeral(n: nat) -> Seq<char> {
    digits(n).map_values(|b: u8| b as char)
}

pub open spec fn is_digit(b: u8) -> bool {
    48 <= b <= 57
}

/// Every byte is a decimal digit.
pub open spec fn all_digits(s: Seq<u8>) -> bool {
    forall|i: int| 0 <= i < s.len() ==> is_digit(#[trigger] s[i])
}

/// The number that a run of decimal digits denotes.
pub open spec fn value(s: Seq<u8>) -> nat
    decreases s.len(),
{
    if s.len() == 0 {
        0
    } else {
        (value(s.drop_last()) * 10 + (s.last() - 48)) as nat
    }
}

/// The part of a numeral that holds its digits: all of it, but for one
/// leading plus sign.
pub open spec fn unsigned_part(s: Seq<u8>) -> Seq<u8> {
    if s.len() > 0 && s[0] == 0x2b {
        s.drop_first()
    } else {
        s
    }
}

/// The 16-bit number that a field denotes: an optional plus sign and at least
/// one digit, up to 65535. Any other field denotes none.
pub open spec fn number(s: Seq<u8>) -> Option<u16> {
    let d = unsigned_part(s);
    if d.len() > 0 && all_digits(d) && value(d) <= u16::MAX {
        Some(value(d) as u16)
    } else {
        None
    }
}

/// The fields of `s` between its separators: one more than there are
/// separators, empty ones among them.
pub open spec fn fields(s: Seq<u8>, sep: u8) -> Seq<Seq<u8>>
    decreases s.len(),
{
    if s.len() == 0 {
        seq![Seq::empty()]
    } else {
        let before = fields(s.drop_last(), sep);
        if s.last() == sep {
            before.push(Seq::empty())
        } else {
            before.drop_last().push(before.last().push(s.last()))
        }
    }
}

pub proof fn lemma_fields_nonempty(s: Seq<u8>, sep: u8)
    ensures
        fields(s, sep).len() >= 1,
    decreases s.len(),
{
    if s.len() > 0 {
        lemma_fields_nonempty(s.drop_last(), sep);
    }
}

/// A longer run of digits never denotes a smaller number.
pub proof fn lemma_value_grows(s: Seq<u8>, i: int)
    requires
        all_digits(s),
        0 <= i <= s.len(),
    ensures
        value(s.take(i)) <= value(s),
    decreases s.len() - i,
{
    if i < s.len() {
        lemma_value_grows(s, i + 1);
        assert(s.take(i + 1).drop_last() =~= s.take(i));
        assert(is_digit(s[i]));
    } else {
        assert(s.take(i) =~= s);
    }
}

/// Every byte is an ASCII character.
pub open spec fn is_ascii(s: Seq<u8>) -> bool {
    forall|i: int| 0 <= i < s.len() ==> #[trigger] s[i] < 0x80
}

/// ASCII bytes are valid UTF-8.
pub proof fn lemma_ascii_is_utf8(s: Seq<u8>)
    requires
        is_ascii(s),
    ensures
        valid_utf8(s),
{
    let chars = s.map_values(|b: u8| b as char);
    is_ascii_chars_encode_utf8(chars);
    assert(encode_utf8(chars) =~= s);
    encode_utf8_valid_utf8(chars);
}

/// A numeral is a run of digits that denotes its number.
pub proof fn lemma_digits(n: nat)
    ensures
        digits(n).len() > 0,
        all_digits(digits(n)),
        value(digits(n)) == n,
    decreases n,
{
    if n < 10 {
        assert(digits(n).drop_last() =~= Seq::empty());
        reveal_with_fuel(value, 2);
    } else {
        lemma_digits(n / 10);
        assert(digits(n).drop_last() =~= digits(n / 10));
    }
}

/// Reading back a number that was written gives the number.
pub proof fn law_numbers_read_back(n: u16)
    ensures
        number(digits(n as nat)) == Some(n),
{
    lemma_digits(n as nat);
    let d = digits(n as nat);
    assert(is_digit(d[0]));
}

/// A numeral has one digit for a number below ten, and for a larger one the
/// numeral of its tenth and a last digit.
pub proof fn law_numerals(n: nat, d: nat)
    requires
        d < 10,
    ensures
        digits(d) == seq![(0x30 + d) as u8],
        n > 0 ==> digits(10 * n + d) == digits(n) + seq![(0x30 + d) as u8],
        numeral(d) == seq![(0x30 + d) as u8 as char],
        n > 0 ==> numeral(10 * n + d) == numeral(n) + seq![(0x30 + d) as u8 as char],
{
    assert(digits(d) =~= seq![(0x30 + d) as u8]);
    assert(numeral(d) =~= seq![(0x30 + d) as u8 as char]);
    if n > 0 {
        assert((10 * n + d) / 10 == n);
        assert(digits(10 * n + d) =~= digits(n) + seq![(0x30 + d) as u8]);
        assert(numeral(10 * n + d) =~= numeral(n) + seq![(0x30 + d) as u8 as char]);
    }
}

/// One digit is a number, and a digit behind a number is ten times as much and
/// the digit, unless that is more than 16 bits hold.
pub proof fn law_digits_are_numbers(s: Seq<u8>, d: u8)
    requires
        0x30 <= d <= 0x39,
        s.len() > 0,
        forall|i: int| 0 <= i < s.len() ==> 0x30 <= #[trigger] s[i] <= 0x39,
    ensures
        number(seq![d]) == Some((d - 0x30) as u16),
        number(s.push(d)) == (match number(s) {
            Some(n) if 10 * n + (d - 0x30) <= 0xffff => Some((10 * n + (d - 0x30)) as u16),
            _ => None,
        }),
        number(seq![0x2bu8] + s) == number(s),
{
    reveal_with_fuel(value, 2);
    assert(seq![d].drop_last() =~= Seq::empty());
    assert(all_digits(seq![d]));
    assert forall|i: int| 0 <= i < s.len() implies is_digit(#[trigger] s[i]) by {
        assert(0x30 <= s[i] <= 0x39);
    }
    assert(all_digits(s));
    let longer = s.push(d);
    assert(all_digits(longer));
    assert(longer.drop_last() =~= s);
    assert(longer[0] == s[0]);
    assert(is_digit(s[0]));
    assert((seq![0x2bu8] + s).drop_first() =~= s);
}

/// Nothing, a lone plus sign, and whatever holds another byte than digits
/// behind one plus sign is no number.
pub proof fn law_other_bytes_are_no_numbers(s: Seq<u8>, i: int)
    requires
        0 <= i < s.len(),
        s[i] < 0x30 || s[i] > 0x39,
    ensures
        number(Seq::empty()) is None,
        number(seq![0x2bu8]) is None,
        i > 0 || s[0] != 0x2b ==> number(s) is None,
        number(seq![0x2bu8] + s) is None,
{
    assert(seq![0x2bu8].drop_first() =~= Seq::empty());
    let plus = seq![0x2bu8] + s;
    assert(plus.drop_first() =~= s);
    assert(!is_digit(s[i]));
    if s[0] == 0x2b && i > 0 {
        assert(s.drop_first()[i - 1] == s[i]);
        assert(!all_digits(s.drop_first()));
    }
    assert(!all_digits(s));
}

/// The byte string holds no separator.
pub open spec fn is_one_field(s: Seq<u8>, sep: u8) -> bool {
    forall|i: int| 0 <= i < s.len() ==> #[trigger] s[i] != sep
}

/// Without a separator there is one field, the whole.
pub proof fn lemma_one_field(s: Seq<u8>, sep: u8)
    requires
        is_one_field(s, sep),
    ensures
        fields(s, sep) == seq![s],
    decreases s.len(),
{
    if s.len() > 0 {
        lemma_one_field(s.drop_last(), sep);
        assert(s[s.len() - 1] != sep);
        assert(s.drop_last().push(s.last()) =~= s);
        assert(fields(s, sep) =~= seq![s]);
    } else {
        assert(s =~= Seq::empty());
    }
}

/// The fields of two byte strings joined by a separator are those of the one
/// and those of the other.
pub proof fn law_fields_of_joined(a: Seq<u8>, b: Seq<u8>, sep: u8)
    ensures
        fields(a.push(sep) + b, sep) == fields(a, sep) + fields(b, sep),
    decreases b.len(),
{
    let whole = a.push(sep) + b;
    if b.len() == 0 {
        assert(whole =~= a.push(sep));
        assert(whole.drop_last() =~= a);
        assert(fields(whole, sep) =~= fields(a, sep) + fields(b, sep));
    } else {
        law_fields_of_joined(a, b.drop_last(), sep);
        lemma_fields_nonempty(b.drop_last(), sep);
        assert(whole.drop_last() =~= a.push(sep) + b.drop_last());
        assert(whole.last() == b.last());
        let left = fields(a, sep);
        let right = fields(b.drop_last(), sep);
        assert((left + right).drop_last() =~= left + right.drop_last());
        assert((left + right).last() == right.last());
        assert(fields(whole, sep) =~= left + fields(b, sep));
    }
}

/// Appends the bytes of a string.
pub fn put(out: &mut Vec<u8>, s: &str)
    ensures
        final(out)@ == old(out)@ + bytes(s),
{
    put_slice(out, s.as_bytes());
}

/// Appends raw bytes.
pub fn put_slice(out: &mut Vec<u8>, s: &[u8])
    ensures
        final(out)@ == old(out)@ + s@,
{
    let ghost before = out@;
    out.extend_from_slice(s);
    assert(out@ =~= before + s@);
}

/// A fresh buffer that holds the bytes of a string.
pub fn bytes_of(s: &str) -> (out: Vec<u8>)
    ensures
        out@ == bytes(s),
{
    s.as_bytes_vec()
}

/// Appends a number in decimal.
pub fn put_number(out: &mut Vec<u8>, n: u16)
    ensures
        final(out)@ == old(out)@ + digits(n as nat),
    decreases n,
{
    let ghost before = out@;
    if n >= 10 {
        put_number(out, n / 10);
    }
    out.push(48 + (n % 10) as u8);
    assert(out@ =~= before + digits(n as nat));
}

/// Appends a number in decimal to a text.
pub fn push_number(text: &mut String, n: u16)
    ensures
        final(text)@ == old(text)@ + numeral(n as nat),
    decreases n,
{
    let ghost before = text@;
    if n >= 10 {
        push_number(text, n / 10);
    }
    text.push((48 + (n % 10) as u8) as char);
    assert(text@ =~= before + numeral(n as nat));
}

/// `String::push` appends one character to a string.
pub assume_specification[ String::push ](string: &mut String, c: char)
    ensures
        final(string)@ == old(string)@.push(c),
;

/// Tells whether two byte strings are the same.
pub fn same(a: &[u8], b: &[u8]) -> (r: bool)
    ensures
        r == (a@ == b@),
{
    if a.len() != b.len() {
        return false;
    }
    let mut i: usize = 0;
    while i < a.len()
        invariant
            a.len() == b.len(),
            i <= a.len(),
            forall|j: int| 0 <= j < i ==> a@[j] == b@[j],
        decreases a.len() - i,
    {
        if a[i] != b[i] {
            return false;
        }
        i += 1;
    }
    assert(a@ =~= b@);
    true
}

/// Reads a field as a 16-bit number.
pub fn parse_number(s: &[u8]) -> (n: Option<u16>)
    ensures
        n == number(s@),
{
    let start: usize = if s.len() > 0 && s[0] == 0x2b { 1 } else { 0 };
    let ghost d = unsigned_part(s@);
    assert(d =~= s@.skip(start as int));
    if start == s.len() {
        return None;
    }
    let mut i: usize = start;
    let mut acc: u32 = 0;
    assert(d.take(0) =~= Seq::empty());
    while i < s.len()
        invariant
            start <= i <= s.len(),
            start <= 1,
            d == unsigned_part(s@),
            d == s@.skip(start as int),
            acc <= u16::MAX,
            acc == value(d.take(i - start)),
            forall|j: int| 0 <= j < i - start ==> is_digit(#[trigger] d[j]),
        decreases s.len() - i,
    {
        let b: u8 = s[i];
        assert(d[i - start] == b);
        if b < 48 || b > 57 {
            assert(!all_digits(d));
            return None;
        }
        assert(d.take(i - start + 1).drop_last() =~= d.take(i - start));
        acc = acc * 10 + (b - 48) as u32;
        i += 1;
        if acc > 0xffff {
            proof {
                if all_digits(d) {
                    lemma_value_grows(d, i - start);
                }
            }
            return None;
        }
    }
    assert(d.take(i - start) =~= d);
    Some(acc as u16)
}

/// The fields of a list of byte strings, seen as sequences.
pub open spec fn parts(v: Seq<Vec<u8>>) -> Seq<Seq<u8>> {
    v.map_values(|p: Vec<u8>| p@)
}

/// Cuts a byte string at every separator.
pub fn split_fields(s: &[u8], sep: u8) -> (out: Vec<Vec<u8>>)
    ensures
        parts(out@) == fields(s@, sep),
        out.len() >= 1,
{
    let mut out: Vec<Vec<u8>> = Vec::new();
    let mut cur: Vec<u8> = Vec::new();
    let mut i: usize = 0;
    assert(s@.take(0) =~= Seq::empty());
    assert(parts(out@).push(cur@) =~= fields(s@.take(0), sep));
    while i < s.len()
        invariant
            i <= s.len(),
            parts(out@).push(cur@) == fields(s@.take(i as int), sep),
        decreases s.len() - i,
    {
        let b: u8 = s[i];
        let ghost before = parts(out@);
        let ghost field = cur@;
        assert(s@.take(i + 1).drop_last() =~= s@.take(i as int));
        assert(before.push(field).drop_last() =~= before);
        if b == sep {
            out.push(cur);
            cur = Vec::new();
            assert(parts(out@) =~= before.push(field));
        } else {
            cur.push(b);
        }
        i += 1;
        assert(parts(out@).push(cur@) =~= fields(s@.take(i as int), sep));
    }
    assert(s@.take(i as int) =~= s@);
    let ghost before = parts(out@);
    let ghost field = cur@;
    out.push(cur);
    assert(parts(out@) =~= before.push(field));
    out
}

} // verus!
