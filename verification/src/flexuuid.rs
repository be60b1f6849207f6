//! Record identifiers: 128-bit UUIDs, shown in the lowercase hyphenated form.
use vstd::prelude::*;
use vstd::arithmetic::power::{lemma_pow_positive, pow};
use vstd::arithmetic::div_mod::{lemma_basic_div, lemma_div_denominator, lemma_fundamental_div_mod};

verus! {

/// The hexadecimal digit for a value in 0..16 (lowercase).
pub open spec fn hex_digit(n: int) -> char {
    if n < 10 {
        (48 + n) as char
    } else {
        (87 + n) as char
    }
}

/// The `k`-th hexadecimal digit (0 = most significant) of a 128-bit value.
pub open spec fn uuid_nibble(bits: u128, k: int) -> int {
    (bits as int / pow(16, (31 - k) as nat)) % 16
}

/// Positions of the hyphens in the 36-character form.
pub open spec fn is_hyphen_position(i: int) -> bool {
    i == 8 || i == 13 || i == 18 || i == 23
}

/// Which hexadecimal digit stands at position `i` of the 36-character form.
pub open spec fn digit_index(i: int) -> int {
    if i < 8 {
        i
    } else if i < 13 {
        i - 1
    } else if i < 18 {
        i - 2
    } else if i < 23 {
        i - 3
    } else {
        i - 4
    }
}

/// The hyphenated lowercase form `xxxxxxxx-xxxx-xxxx-xxxx-xxxxxxxxxxxx`.
pub open spec fn hyphenated_chars(bits: u128) -> Seq<char> {
    Seq::new(
        36,
        |i: int|
            if is_hyphen_position(i) {
                '-'
            } else {
                hex_digit(uuid_nibble(bits, digit_index(i)))
            },
    )
}

/// The value of an ASCII hexadecimal digit of either case.
pub open spec fn hex_digit_value(c: char) -> Option<int> {
    let n = c as u32;
    if 48 <= n <= 57 {
        Some(n - 48)
    } else if 97 <= n <= 102 {
        Some(n - 87)
    } else if 65 <= n <= 70 {
        Some(n - 55)
    } else {
        None
    }
}

/// The value of a run of hexadecimal digits, most significant first.
pub open spec fn hex_digits_value(s: Seq<char>) -> Option<int>
    decreases s.len(),
{
    if s.len() == 0 {
        Some(0)
    } else {
        match (hex_digits_value(s.drop_last()), hex_digit_value(s.last())) {
            (Some(v), Some(d)) => Some(v * 16 + d),
            _ => None,
        }
    }
}

/// The 32 digits of the hyphenated form, without its four hyphens.
pub open spec fn hyphenated_digits(s: Seq<char>) -> Seq<char> {
    s.subrange(0, 8) + s.subrange(9, 13) + s.subrange(14, 18) + s.subrange(19, 23) + s.subrange(24, 36)
}

/// The value of 32 hexadecimal digits.
pub open spec fn simple_value(s: Seq<char>) -> Option<u128> {
    match hex_digits_value(s) {
        Some(v) => Some(v as u128),
        None => None,
    }
}

/// The value of the form `xxxxxxxx-xxxx-xxxx-xxxx-xxxxxxxxxxxx`.
pub open spec fn hyphenated_value(s: Seq<char>) -> Option<u128> {
    if s.len() == 36 && s[8] == '-' && s[13] == '-' && s[18] == '-' && s[23] == '-' {
        simple_value(hyphenated_digits(s))
    } else {
        None
    }
}

/// An ASCII letter in lower case; other characters unchanged.
pub open spec fn ascii_lower(c: char) -> char {
    if 65 <= c as u32 <= 90 {
        ((c as u32) + 32) as char
    } else {
        c
    }
}

/// The nine characters `urn:uuid:`, in any case.
pub open spec fn is_urn_prefix(p: Seq<char>) -> bool {
    p.len() == 9 && forall|i: int| 0 <= i < 9 ==> ascii_lower(#[trigger] p[i]) == "urn:uuid:"@[i]
}

/// The identifier that a text names in one of the forms that
/// `uuid::Uuid::parse_str` reads: 32 hexadecimal digits; the hyphenated form;
/// the hyphenated form in braces; or the hyphenated form after `urn:uuid:`.
/// Digits may be of either case. Any other text names none.
pub open spec fn uuid_text_value(s: Seq<char>) -> Option<u128> {
    if s.len() == 32 {
        simple_value(s)
    } else if s.len() == 36 {
        hyphenated_value(s)
    } else if s.len() == 38 && s[0] == '{' && s[37] == '}' {
        hyphenated_value(s.subrange(1, 37))
    } else if s.len() == 45 && is_urn_prefix(s.subrange(0, 9)) {
        hyphenated_value(s.subrange(9, 45))
    } else {
        None
    }
}

/// The digits of a value, most significant first.
spec fn nibble_digits(bits: u128) -> Seq<char> {
    Seq::new(32, |k: int| hex_digit(uuid_nibble(bits, k)))
}

proof fn lemma_hex_digit_value(n: int)
    requires
        0 <= n < 16,
    ensures
        hex_digit_value(hex_digit(n)) == Some(n),
{
}

proof fn lemma_nibble_digits_value(bits: u128, m: int)
    requires
        0 <= m <= 32,
    ensures
        hex_digits_value(nibble_digits(bits).take(m)) == Some(bits as int / pow(16, (32 - m) as nat)),
    decreases m,
{
    let d = nibble_digits(bits);
    if m == 0 {
        assert(d.take(0) =~= Seq::<char>::empty());
        assert(pow(16, 32) == 0x1_0000_0000_0000_0000_0000_0000_0000_0000) by {
            reveal_with_fuel(pow, 33);
        }
        lemma_basic_div(bits as int, pow(16, 32));
    } else {
        lemma_nibble_digits_value(bits, m - 1);
        let t = d.take(m);
        assert(t.drop_last() =~= d.take(m - 1));
        let b = pow(16, (32 - m) as nat);
        lemma_pow_positive(16, (32 - m) as nat);
        assert(pow(16, (33 - m) as nat) == 16 * b) by {
            reveal(pow);
        }
        let x = bits as int;
        let y = x / b;
        lemma_div_denominator(x, b, 16);
        assert(x / (b * 16) == x / (16 * b)) by (nonlinear_arith);
        lemma_fundamental_div_mod(y, 16);
        let n = uuid_nibble(bits, m - 1);
        assert(n == y % 16);
        lemma_hex_digit_value(n);
        assert(t.last() == hex_digit(n));
    }
}

/// The hyphenated form of a value reads back as that value.
proof fn lemma_hyphenated_reads_back(bits: u128)
    ensures
        uuid_text_value(hyphenated_chars(bits)) == Some(bits),
{
    let h = hyphenated_chars(bits);
    let d = nibble_digits(bits);
    assert(hyphenated_digits(h) =~= d);
    lemma_nibble_digits_value(bits, 32);
    assert(d.take(32) =~= d);
    assert(pow(16, 0) == 1) by {
        reveal(pow);
    }
}

/// The version digit (the 13th hexadecimal digit) of a random UUID is 4, and
/// its variant digit (the 17th) is one of 8, 9, a, b (RFC 4122 layout).
pub open spec fn random_v4_layout(bits: u128) -> bool {
    uuid_nibble(bits, 12) == 4 && 8 <= uuid_nibble(bits, 16) < 12
}

/// Calls `uuid::Uuid::new_v4`: a fresh random identifier. Claims only the RFC 4122
/// version-4 layout, which the crate sets by masking random bits; the other
/// bits are random and nothing is claimed of them.
#[verifier::external_body]
fn uuid_new_v4() -> (bits: u128)
    ensures
        random_v4_layout(bits),
{
    uuid::Uuid::new_v4().as_u128()
}

/// Calls `Display` of `uuid::Uuid` (through `to_string`). Claims that the text is
/// the lowercase hyphenated form of the value.
#[verifier::external_body]
fn uuid_to_hyphenated(bits: u128) -> (s: String)
    ensures
        s@ == hyphenated_chars(bits),
{
    uuid::Uuid::from_u128(bits).to_string()
}

/// Calls `uuid::Uuid::parse_str`. Claims that it accepts exactly the forms that
/// `uuid_text_value` describes, with their value.
#[verifier::external_body]
fn uuid_parse(s: &str) -> (r: Option<u128>)
    ensures
        r == uuid_text_value(s@),
{
    match uuid::Uuid::parse_str(s) {
        Ok(u) => Some(u.as_u128()),
        Err(_) => None,
    }
}

/// A record identifier.
#[derive(Clone, Copy, PartialEq, Eq, Structural, Debug, Hash)]
pub struct FlexUuid {
    pub bits: u128,
}

impl FlexUuid {
    /// The text form of this identifier.
    pub open spec fn hyphenated(self) -> Seq<char> {
        hyphenated_chars(self.bits)
    }

    /// What parsing a text gives.
    pub open spec fn parse_spec(s: Seq<char>) -> Option<FlexUuid> {
        match uuid_text_value(s) {
            Some(b) => Some(FlexUuid { bits: b }),
            None => None,
        }
    }

    /// The identifier with the given 128-bit value.
    pub fn from_bits(bits: u128) -> (u: FlexUuid)
        ensures
            u.bits == bits,
    {
        FlexUuid { bits }
    }

    /// A fresh random (version 4) identifier.
    pub fn new_random() -> (u: FlexUuid)
        ensures
            random_v4_layout(u.bits),
    {
        FlexUuid { bits: uuid_new_v4() }
    }

    /// The hyphenated lowercase text of the identifier; parsing it gives the
    /// identifier back.
    pub fn to_string(&self) -> (s: String)
        ensures
            s@ == self.hyphenated(),
            FlexUuid::parse_spec(s@) == Some(*self),
    {
        let s = uuid_to_hyphenated(self.bits);
        proof {
            lemma_hyphenated_reads_back(self.bits);
        }
        s
    }

    /// Parses an identifier in any of the forms that `uuid` accepts.
    pub fn from_str(s: &str) -> (r: Option<FlexUuid>)
        ensures
            r == FlexUuid::parse_spec(s@),
    {
        match uuid_parse(s) {
            Some(b) => Some(FlexUuid { bits: b }),
            None => None,
        }
    }
}

impl Default for FlexUuid {
    /// A fresh random identifier, as a new record gets.
    fn default() -> (u: FlexUuid)
        ensures
            random_v4_layout(u.bits),
    {
        FlexUuid::new_random()
    }
}

} // verus!
