use vstd::prelude::*;
use crate::error::SnipError;
use vstd::string::*;

verus! {

broadcast use vstd::string::group_string_axioms;

/// Positions of the group separators in the 36-character canonical form.
pub open spec fn is_separator_pos(j: int) -> bool {
    j == 8 || j == 13 || j == 18 || j == 23
}

/// Index of the hex digit (0..32) that stands at a non-separator position `j`.
pub open spec fn digit_of_pos(j: int) -> int {
    if j < 8 {
        j
    } else if j < 13 {
        j - 1
    } else if j < 18 {
        j - 2
    } else if j < 23 {
        j - 3
    } else {
        j - 4
    }
}

/// Position in the canonical form of hex digit `k` (0..32).
pub open spec fn pos_of_digit(k: int) -> int {
    if k < 8 {
        k
    } else if k < 12 {
        k + 1
    } else if k < 16 {
        k + 2
    } else if k < 20 {
        k + 3
    } else {
        k + 4
    }
}

pub open spec fn is_lower_hex(c: char) -> bool {
    ('0' <= c && c <= '9') || ('a' <= c && c <= 'f')
}

pub open spec fn hex_value(c: char) -> int {
    if c <= '9' {
        c as int - 48
    } else {
        c as int - 87
    }
}

/// The lower-case hex digit of a value below 16.
pub open spec fn hex_digit(n: int) -> char {
    if n < 10 {
        (n + 48) as char
    } else {
        (n + 87) as char
    }
}

/// Hex digit `k` of 16 bytes: the high half of byte `k / 2` for even `k`,
/// the low half for odd `k`.
pub open spec fn nibble(b: Seq<u8>, k: int) -> int {
    if k % 2 == 0 {
        b[k / 2] as int / 16
    } else {
        b[k / 2] as int % 16
    }
}

/// The canonical form of 16 bytes: 32 lower-case hex digits grouped 8-4-4-4-12.
pub open spec fn canonical_text(b: Seq<u8>) -> Seq<char> {
    Seq::new(
        36,
        |j: int|
            if is_separator_pos(j) {
                '-'
            } else {
                hex_digit(nibble(b, digit_of_pos(j)))
            },
    )
}

/// `s` is an identifier written in canonical form.
pub open spec fn is_canonical(s: Seq<char>) -> bool {
    &&& s.len() == 36
    &&& forall|j: int|
        0 <= j < 36 ==> if is_separator_pos(j) {
            s[j] == '-'
        } else {
            is_lower_hex(s[j])
        }
}

/// The 16 bytes that a canonical form spells.
pub open spec fn value_of(s: Seq<char>) -> Seq<u8> {
    Seq::new(
        16,
        |i: int|
            (hex_value(s[pos_of_digit(2 * i)]) * 16 + hex_value(s[pos_of_digit(2 * i + 1)])) as u8,
    )
}

/// Reading a canonical form and writing the bytes back gives the same text.
pub proof fn lemma_canonical_round_trip(s: Seq<char>)
    requires
        is_canonical(s),
    ensures
        canonical_text(value_of(s)) == s,
{
    let b = value_of(s);
    assert forall|j: int| 0 <= j < 36 implies #[trigger] canonical_text(b)[j] == s[j] by {
        if !is_separator_pos(j) {
            let k = digit_of_pos(j);
            let i = k / 2;
            let hi = hex_value(s[pos_of_digit(2 * i)]);
            let lo = hex_value(s[pos_of_digit(2 * i + 1)]);
            assert(is_lower_hex(s[pos_of_digit(2 * i)]));
            assert(is_lower_hex(s[pos_of_digit(2 * i + 1)]));
            assert(0 <= hi < 16 && 0 <= lo < 16);
            assert((hi * 16 + lo) / 16 == hi && (hi * 16 + lo) % 16 == lo) by (nonlinear_arith)
                requires
                    0 <= hi < 16,
                    0 <= lo < 16,
            ;
            assert(b[i] as int == hi * 16 + lo);
            if k % 2 == 0 {
                assert(pos_of_digit(2 * i) == j);
            } else {
                assert(pos_of_digit(2 * i + 1) == j);
            }
        }
    }
    assert(canonical_text(b) =~= s);
}

/// Writing 16 bytes in canonical form and reading them back gives the same bytes.
pub proof fn lemma_bytes_round_trip(b: Seq<u8>)
    requires
        b.len() == 16,
    ensures
        is_canonical(canonical_text(b)),
        value_of(canonical_text(b)) == b,
{
    let s = canonical_text(b);
    assert forall|j: int| 0 <= j < 36 && !is_separator_pos(j) implies is_lower_hex(#[trigger] s[j])
        && hex_value(s[j]) == nibble(b, digit_of_pos(j)) by {
        let k = digit_of_pos(j);
        assert(0 <= k < 32);
        assert(0 <= nibble(b, k) < 16);
    }
    assert forall|i: int| 0 <= i < 16 implies #[trigger] value_of(s)[i] == b[i] by {
        let x = b[i] as int;
        assert(x == (x / 16) * 16 + x % 16) by (nonlinear_arith);
        assert(pos_of_digit(2 * i) < 36 && !is_separator_pos(pos_of_digit(2 * i)));
        assert(pos_of_digit(2 * i + 1) < 36 && !is_separator_pos(pos_of_digit(2 * i + 1)));
        assert(digit_of_pos(pos_of_digit(2 * i)) == 2 * i);
        assert(digit_of_pos(pos_of_digit(2 * i + 1)) == 2 * i + 1);
    }
    assert(value_of(s) =~= b);
}

/// A 128-bit identifier, held as its 16 bytes in order.
#[derive(Debug, Clone, Copy, PartialEq, Eq, Hash)]
pub struct Identifier {
    pub bytes: [u8; 16],
}

impl Identifier {
    /// The canonical form of this identifier.
    pub open spec fn text(self) -> Seq<char> {
        canonical_text(self.bytes@)
    }

    /// A fresh random identifier (version 4, RFC 4122 variant).
    pub fn new() -> (r: Identifier)
        ensures
            r.bytes@[6] / 16 == 4,
            r.bytes@[8] / 64 == 2,
    {
        Identifier { bytes: random_v4_bytes() }
    }

    pub fn from_bytes(bytes: [u8; 16]) -> (r: Identifier)
        ensures
            r.bytes == bytes,
    {
        Identifier { bytes }
    }

    /// Reads an identifier in canonical form: 32 lower-case hex digits grouped
    /// 8-4-4-4-12 by hyphens. Any other text is malformed.
    pub fn parse(s: &str) -> (r: Result<Identifier, SnipError>)
        ensures
            r is Ok <==> is_canonical(s@),
            r matches Ok(id) ==> id.bytes@ == value_of(s@) && id.text() == s@,
            r matches Err(e) ==> e matches SnipError::MalformedIdentifier(t) && t@ == s@,
    {
        if !is_canonical_str(s) {
            return Err(SnipError::MalformedIdentifier(s.to_string()));
        }
        match uuid_bytes_of(s) {
            Some(bytes) => {
                proof {
                    lemma_canonical_round_trip(s@);
                }
                Ok(Identifier { bytes })
            },
            None => Err(SnipError::MalformedIdentifier(s.to_string())),
        }
    }

    /// The canonical form: 36 characters, lower-case hex grouped 8-4-4-4-12.
    pub fn format(&self) -> (r: String)
        ensures
            r@ == self.text(),
    {
        uuid_text(&self.bytes)
    }

    /// The five groups of the canonical form, in order, without separators.
    pub fn segments(&self) -> (r: Vec<String>)
        ensures
            r@.len() == 5,
            r@[0]@ == self.text().subrange(0, 8),
            r@[1]@ == self.text().subrange(9, 13),
            r@[2]@ == self.text().subrange(14, 18),
            r@[3]@ == self.text().subrange(19, 23),
            r@[4]@ == self.text().subrange(24, 36),
    {
        let t = self.format();
        let s = t.as_str();
        let mut r: Vec<String> = Vec::new();
        r.push(s.substring_char(0, 8).to_string());
        r.push(s.substring_char(9, 13).to_string());
        r.push(s.substring_char(14, 18).to_string());
        r.push(s.substring_char(19, 23).to_string());
        r.push(s.substring_char(24, 36).to_string());
        r
    }
}

/// Tests whether `s` is an identifier in canonical form.
pub fn is_canonical_str(s: &str) -> (r: bool)
    ensures
        r == is_canonical(s@),
{
    if s.unicode_len() != 36 {
        return false;
    }
    let mut j: usize = 0;
    while j < 36
        invariant
            s@.len() == 36,
            j <= 36,
            forall|k: int|
                0 <= k < j ==> if is_separator_pos(k) {
                    s@[k] == '-'
                } else {
                    is_lower_hex(s@[k])
                },
        decreases 36 - j,
    {
        let c = s.get_char(j);
        if j == 8 || j == 13 || j == 18 || j == 23 {
            if c != '-' {
                return false;
            }
        } else if !(('0' <= c && c <= '9') || ('a' <= c && c <= 'f')) {
            return false;
        }
        j = j + 1;
    }
    true
}

/// Relies on uuid::Uuid::new_v4: 16 random bytes with the version set to 4 and
/// the variant set to RFC 4122.
#[verifier::external_body]
fn random_v4_bytes() -> (r: [u8; 16])
    ensures
        r@[6] / 16 == 4,
        r@[8] / 64 == 2,
{
    *uuid::Uuid::new_v4().as_bytes()
}

/// Relies on uuid::Uuid::try_parse: a hyphenated form of 36 hex digits and
/// separators is read into the bytes that the digits spell, in order.
#[verifier::external_body]
fn uuid_bytes_of(s: &str) -> (r: Option<[u8; 16]>)
    ensures
        is_canonical(s@) ==> r is Some && r->0@ == value_of(s@),
{
    match uuid::Uuid::try_parse(s) {
        Ok(u) => Some(*u.as_bytes()),
        Err(_) => None,
    }
}

/// Relies on uuid::Uuid's Display: the hyphenated form, lower-case hex digits
/// of the bytes in order.
#[verifier::external_body]
fn uuid_text(b: &[u8; 16]) -> (r: String)
    ensures
        r@ == canonical_text(b@),
{
    uuid::Uuid::from_bytes(*b).to_string()
}

} // verus!
