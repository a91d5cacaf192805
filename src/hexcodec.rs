//! Hexadecimal text as used by Ethereum JSON-RPC: `0x`-prefixed quantities
//! and `0x`-prefixed byte strings.
use vstd::prelude::*;
use vstd::string::StringSliceAdditionalSpecFns;
use vstd::utf8::encode_utf8;

verus! {

/// Why a piece of JSON-RPC text was rejected.
#[derive(Debug, Clone, Copy, PartialEq, Eq, Structural)]
pub enum ParseError {
    /// The text does not start with `0x`.
    MissingPrefix,
    /// Nothing follows the `0x` prefix of a quantity.
    Empty,
    /// A character is not a hexadecimal digit.
    BadDigit,
    /// A byte string has an odd number of digits.
    OddLength,
    /// A quantity does not fit in 64 bits.
    Overflow,
}

pub open spec fn is_hex_digit(c: u8) -> bool {
    (0x30 <= c <= 0x39) || (0x41 <= c <= 0x46) || (0x61 <= c <= 0x66)
}

/// The value of a hexadecimal digit, of either case.
pub open spec fn digit_value(c: u8) -> nat {
    if 0x30 <= c <= 0x39 {
        (c - 0x30) as nat
    } else if 0x41 <= c <= 0x46 {
        (c - 0x41 + 10) as nat
    } else {
        (c - 0x61 + 10) as nat
    }
}

pub open spec fn all_hex_digits(s: Seq<u8>) -> bool {
    forall|i: int| 0 <= i < s.len() ==> is_hex_digit(#[trigger] s[i])
}

/// Big-endian value of a run of hexadecimal digits.
pub open spec fn digits_value(s: Seq<u8>) -> nat
    decreases s.len(),
{
    if s.len() == 0 {
        0
    } else {
        digits_value(s.drop_last()) * 16 + digit_value(s.last())
    }
}

pub open spec fn has_hex_prefix(s: Seq<u8>) -> bool {
    s.len() >= 2 && s[0] == 0x30u8 && (s[1] == 0x78u8)
}

/// What parsing a `0x`-prefixed quantity gives.
pub open spec fn quantity_result(s: Seq<u8>) -> Result<u64, ParseError> {
    if !has_hex_prefix(s) {
        Err(ParseError::MissingPrefix)
    } else if s.len() == 2 {
        Err(ParseError::Empty)
    } else if !all_hex_digits(s.skip(2)) {
        Err(ParseError::BadDigit)
    } else if digits_value(s.skip(2)) > u64::MAX {
        Err(ParseError::Overflow)
    } else {
        Ok(digits_value(s.skip(2)) as u64)
    }
}

fn hex_digit(c: u8) -> (r: Option<u8>)
    ensures
        r.is_some() == is_hex_digit(c),
        r.is_some() ==> r.unwrap() as nat == digit_value(c),
{
    if 0x30 <= c && c <= 0x39 {
        Some(c - 0x30)
    } else if 0x41 <= c && c <= 0x46 {
        Some(c - 0x41 + 10)
    } else if 0x61 <= c && c <= 0x66 {
        Some(c - 0x61 + 10)
    } else {
        None
    }
}

/// Parses a `0x`-prefixed hexadecimal quantity, such as a block number.
pub fn parse_quantity(text: &str) -> (r: Result<u64, ParseError>)
    ensures
        r == quantity_result(text.spec_bytes()),
{
    let s = text.as_bytes();
    let ghost g = s@;
    if s.len() < 2 || s[0] != 0x30u8 || s[1] != 0x78u8 {
        return Err(ParseError::MissingPrefix);
    }
    if s.len() == 2 {
        return Err(ParseError::Empty);
    }
    let ghost d = g.skip(2);
    assert(has_hex_prefix(g));
    assert(g == text.spec_bytes());
    let mut i: usize = 2;
    while i < s.len()
        invariant
            s@ == g,
            g == text.spec_bytes(),
            has_hex_prefix(g),
            s.len() > 2,
            d == g.skip(2),
            2 <= i <= s.len(),
            all_hex_digits(g.subrange(2, i as int)),
        decreases s.len() - i,
    {
        if hex_digit(s[i]).is_none() {
            assert(!all_hex_digits(d)) by {
                assert(d[i as int - 2] == s[i as int]);
            }
            return Err(ParseError::BadDigit);
        }
        assert(all_hex_digits(g.subrange(2, i + 1))) by {
            assert forall|k: int| 0 <= k < i + 1 - 2 implies is_hex_digit(
                #[trigger] g.subrange(2, i + 1)[k],
            ) by {
                if k < i - 2 {
                    assert(g.subrange(2, i + 1)[k] == g.subrange(2, i as int)[k]);
                }
            }
        }
        i = i + 1;
    }
    assert(g.subrange(2, s.len() as int) == d);
    let mut value: u64 = 0;
    let mut j: usize = 2;
    while j < s.len()
        invariant
            s@ == g,
            g == text.spec_bytes(),
            has_hex_prefix(g),
            s.len() > 2,
            2 <= j <= s.len(),
            all_hex_digits(d),
            d == g.skip(2),
            value as nat == digits_value(g.subrange(2, j as int)),
        decreases s.len() - j,
    {
        let c = s[j];
        assert(is_hex_digit(c)) by {
            assert(d[j as int - 2] == c);
        }
        let v = hex_digit(c).unwrap();
        let ghost next = g.subrange(2, j + 1);
        assert(next.drop_last() == g.subrange(2, j as int));
        assert(next.last() == c);
        if value > (u64::MAX - v as u64) / 16 {
            assert(digits_value(next) == value as nat * 16 + v as nat);
            assert(value as nat * 16 + v as nat > u64::MAX) by (nonlinear_arith)
                requires
                    value > (u64::MAX - v as u64) / 16,
                    v < 16,
            ;
            assert(digits_value(d) > u64::MAX) by {
                lemma_prefix_value_bound(d, (j + 1 - 2) as nat);
                assert(d.take(j + 1 - 2) == next);
            }
            return Err(ParseError::Overflow);
        }
        value = value * 16 + v as u64;
        j = j + 1;
    }
    assert(g.subrange(2, s.len() as int) == d);
    Ok(value)
}

/// A quantity is at least the value of any of its leading digit runs.
proof fn lemma_prefix_value_bound(s: Seq<u8>, n: nat)
    requires
        n <= s.len(),
    ensures
        digits_value(s) >= digits_value(s.take(n as int)),
    decreases s.len(),
{
    if n < s.len() {
        lemma_prefix_value_bound(s.drop_last(), n);
        assert(s.drop_last().take(n as int) == s.take(n as int));
    } else {
        assert(s.take(n as int) == s);
    }
}

/// The bytes that a run of hexadecimal digits spells, two digits per byte.
pub open spec fn bytes_of_digits(s: Seq<u8>) -> Seq<u8> {
    Seq::new(
        s.len() / 2,
        |i: int| (digit_value(s[2 * i]) * 16 + digit_value(s[2 * i + 1])) as u8,
    )
}

/// What decoding a `0x`-prefixed byte string gives.
pub open spec fn data_result(s: Seq<u8>) -> Result<Seq<u8>, ParseError> {
    if !has_hex_prefix(s) {
        Err(ParseError::MissingPrefix)
    } else if s.skip(2).len() % 2 != 0 {
        Err(ParseError::OddLength)
    } else if !all_hex_digits(s.skip(2)) {
        Err(ParseError::BadDigit)
    } else {
        Ok(bytes_of_digits(s.skip(2)))
    }
}

/// Decodes a run of hexadecimal digits of even length, two per byte.
fn decode_digits(d: &[u8]) -> (r: Option<Vec<u8>>)
    requires
        d@.len() % 2 == 0,
    ensures
        r is Some <==> all_hex_digits(d@),
        r matches Some(v) ==> v@ == bytes_of_digits(d@),
{
    let mut out: Vec<u8> = Vec::new();
    let mut i: usize = 0;
    while i < d.len() / 2
        invariant
            d@.len() % 2 == 0,
            i <= d@.len() / 2,
            out@.len() == i,
            forall|k: int| 0 <= k < 2 * i ==> is_hex_digit(#[trigger] d@[k]),
            forall|k: int|
                0 <= k < i ==> #[trigger] out@[k] == (digit_value(d@[2 * k]) * 16 + digit_value(
                    d@[2 * k + 1],
                )) as u8,
        decreases d@.len() / 2 - i,
    {
        let hi = match hex_digit(d[2 * i]) {
            Some(h) => h,
            None => {
                return None;
            },
        };
        let lo = match hex_digit(d[2 * i + 1]) {
            Some(l) => l,
            None => {
                return None;
            },
        };
        out.push(hi * 16 + lo);
        i = i + 1;
    }
    assert(out@ =~= bytes_of_digits(d@));
    Some(out)
}

/// Decodes a `0x`-prefixed hexadecimal byte string (JSON-RPC `DATA`).
pub fn decode_data(text: &str) -> (r: Result<Vec<u8>, ParseError>)
    ensures
        r matches Ok(v) ==> data_result(text.spec_bytes()) == Ok::<Seq<u8>, ParseError>(v@),
        r matches Err(e) ==> data_result(text.spec_bytes()) == Err::<Seq<u8>, ParseError>(e),
{
    let s = text.as_bytes();
    if s.len() < 2 || s[0] != 0x30u8 || s[1] != 0x78u8 {
        return Err(ParseError::MissingPrefix);
    }
    let digits = &s[2..s.len()];
    assert(digits@ == s@.skip(2));
    if digits.len() % 2 != 0 {
        return Err(ParseError::OddLength);
    }
    match decode_digits(digits) {
        Some(v) => Ok(v),
        None => Err(ParseError::BadDigit),
    }
}

/// Decodes every entry of a list of `0x`-prefixed byte strings; the first
/// entry that does not decode is reported with its position.
pub fn decode_data_list(items: &Vec<String>) -> (r: Result<Vec<Vec<u8>>, (usize, ParseError)>)
    ensures
        r matches Ok(v) ==> v@.len() == items@.len() && forall|i: int|
            0 <= i < items@.len() ==> data_result(#[trigger] encode_utf8(items@[i]@))
                == Ok::<Seq<u8>, ParseError>(v@[i]@),
        r matches Err((k, e)) ==> k < items@.len() && data_result(
            encode_utf8(items@[k as int]@),
        ) == Err::<Seq<u8>, ParseError>(e) && forall|i: int|
            0 <= i < k ==> (#[trigger] data_result(encode_utf8(items@[i]@))).is_ok(),
{
    let mut out: Vec<Vec<u8>> = Vec::new();
    let mut i: usize = 0;
    while i < items.len()
        invariant
            i <= items@.len(),
            out@.len() == i,
            forall|j: int|
                0 <= j < i ==> data_result(#[trigger] encode_utf8(items@[j]@))
                    == Ok::<Seq<u8>, ParseError>(out@[j]@),
        decreases items@.len() - i,
    {
        match decode_data(items[i].as_str()) {
            Ok(v) => out.push(v),
            Err(e) => {
                return Err((i, e));
            },
        }
        i = i + 1;
    }
    Ok(out)
}

} // verus!
