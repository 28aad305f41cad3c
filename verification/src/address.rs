//! The target account address: a 20-byte identifier supplied once at
//! startup, parsed from hex text and compared against each transaction's
//! recipient field.

use vstd::prelude::*;

verus! {

/// An immutable 20-byte account identifier.
pub struct Address {
    bytes: Vec<u8>,
}

/// Why an address string was rejected at startup.
#[derive(Clone, Copy, Debug, PartialEq, Eq, Structural)]
pub enum ParseError {
    /// The input (after an optional `0x` prefix) is not exactly 40 characters.
    WrongLength,
    /// The input has the right length but holds a non-hex character.
    InvalidDigit,
}

/// An ASCII byte that is a hexadecimal digit, either case.
pub open spec fn is_hex_digit(c: u8) -> bool {
    (48 <= c <= 57) || (97 <= c <= 102) || (65 <= c <= 70)
}

/// The numeric value of a hexadecimal digit.
pub open spec fn hex_val(c: u8) -> u8 {
    if 48 <= c <= 57 {
        (c - 48) as u8
    } else if 97 <= c <= 102 {
        (c - 87) as u8
    } else {
        (c - 55) as u8
    }
}

/// Whether the input starts with `0x` or `0X`.
pub open spec fn has_hex_prefix(s: Seq<u8>) -> bool {
    s.len() >= 2 && s[0] == 48 && (s[1] == 120 || s[1] == 88)
}

/// The input with any `0x`/`0X` prefix removed.
pub open spec fn hex_body(s: Seq<u8>) -> Seq<u8> {
    if has_hex_prefix(s) {
        s.skip(2)
    } else {
        s
    }
}

/// A well-formed address input: an optional `0x` prefix followed by
/// exactly 40 hexadecimal digits, either case.
pub open spec fn valid_address_input(s: Seq<u8>) -> bool {
    &&& hex_body(s).len() == 40
    &&& forall|i: int| 0 <= i < 40 ==> is_hex_digit(#[trigger] hex_body(s)[i])
}

/// The 20 bytes that a well-formed address input denotes.
pub open spec fn decoded_address(s: Seq<u8>) -> Seq<u8> {
    Seq::new(20, |i: int| (hex_val(hex_body(s)[2 * i]) * 16 + hex_val(hex_body(s)[2 * i + 1])) as u8)
}

/// The ASCII byte of a nibble, lower case.
pub open spec fn hex_digit_lower(v: u8) -> u8 {
    if v < 10 {
        (48 + v) as u8
    } else {
        (87 + v) as u8
    }
}

/// The lower-case hex text of a byte string, with a `0x` prefix: two
/// digits per byte, high nibble first.
pub open spec fn hex_encoding(bs: Seq<u8>) -> Seq<u8> {
    seq![48u8, 120u8] + Seq::new(
        2 * bs.len(),
        |i: int| if i % 2 == 0 {
            hex_digit_lower(bs[i / 2] / 16)
        } else {
            hex_digit_lower(bs[i / 2] % 16)
        },
    )
}

impl View for Address {
    type V = Seq<u8>;

    closed spec fn view(&self) -> Seq<u8> {
        self.bytes@
    }
}

impl Address {
    /// Every address holds exactly 20 bytes.
    pub open spec fn wf(&self) -> bool {
        self@.len() == 20
    }

    /// Builds an address from raw bytes, rejecting any length but 20.
    pub fn from_bytes(bytes: Vec<u8>) -> (r: Result<Address, ParseError>)
        ensures
            r is Ok <==> bytes@.len() == 20,
            r is Ok ==> r->Ok_0.wf() && r->Ok_0@ == bytes@,
            r is Err ==> r->Err_0 == ParseError::WrongLength,
    {
        if bytes.len() == 20 {
            Ok(Address { bytes })
        } else {
            Err(ParseError::WrongLength)
        }
    }

    /// Byte-for-byte equality of two addresses.
    pub fn eq_addr(&self, other: &Address) -> (r: bool)
        ensures
            r <==> self@ == other@,
    {
        if self.bytes.len() != other.bytes.len() {
            return false;
        }
        let n = self.bytes.len();
        let mut i: usize = 0;
        while i < n
            invariant
                n == self.bytes.len() == other.bytes.len(),
                0 <= i <= n,
                forall|j: int| 0 <= j < i ==> self@[j] == other@[j],
            decreases n - i,
        {
            if self.bytes[i] != other.bytes[i] {
                return false;
            }
            i += 1;
        }
        proof {
            assert(self@ =~= other@);
        }
        true
    }

    /// The raw bytes of the address.
    pub fn as_bytes(&self) -> (r: &Vec<u8>)
        ensures
            r@ == self@,
    {
        &self.bytes
    }

    /// The address as `0x`-prefixed lower-case hex text.
    pub fn to_hex(&self) -> (r: Vec<u8>)
        ensures
            r@ == hex_encoding(self@),
    {
        encode_hex(self.bytes.as_slice())
    }
}

/// Encodes bytes as `0x`-prefixed lower-case hex text.
pub fn encode_hex(bytes: &[u8]) -> (r: Vec<u8>)
    ensures
        r@ == hex_encoding(bytes@),
{
    let mut r: Vec<u8> = Vec::new();
    r.push(48);
    r.push(120);
    let n = bytes.len();
    let mut i: usize = 0;
    while i < n
        invariant
            n == bytes@.len(),
            0 <= i <= n,
            r@.len() == 2 + 2 * i,
            r@ =~= hex_encoding(bytes@).take(2 + 2 * i),
        decreases n - i,
    {
        let b = bytes[i];
        let hi = b / 16;
        let lo = b % 16;
        r.push(if hi < 10 { 48 + hi } else { 87 + hi });
        r.push(if lo < 10 { 48 + lo } else { 87 + lo });
        i += 1;
        proof {
            assert(r@ =~= hex_encoding(bytes@).take(2 + 2 * i));
        }
    }
    proof {
        assert(r@ =~= hex_encoding(bytes@));
    }
    r
}

/// Encoding inverts to parsing: the hex text of any 20 bytes is a
/// well-formed address input, and it decodes to those same bytes. So
/// every address has a text form on which startup succeeds and yields it.
pub proof fn lemma_hex_round_trip(bytes: Seq<u8>)
    requires
        bytes.len() == 20,
    ensures
        valid_address_input(hex_encoding(bytes)),
        decoded_address(hex_encoding(bytes)) == bytes,
{
    let e = hex_encoding(bytes);
    let digits = Seq::new(
        2 * bytes.len(),
        |i: int| if i % 2 == 0 {
            hex_digit_lower(bytes[i / 2] / 16)
        } else {
            hex_digit_lower(bytes[i / 2] % 16)
        },
    );
    assert(has_hex_prefix(e));
    assert(hex_body(e) =~= digits);
    assert forall|i: int| 0 <= i < 40 implies is_hex_digit(#[trigger] hex_body(e)[i]) by {
        let b = bytes[i / 2];
        assert(b / 16 < 16 && b % 16 < 16);
    }
    assert forall|i: int| 0 <= i < 20 implies decoded_address(e)[i] == bytes[i] by {
        let b = bytes[i];
        assert(digits[2 * i] == hex_digit_lower(b / 16));
        assert(digits[2 * i + 1] == hex_digit_lower(b % 16));
        assert(b / 16 < 16 && b % 16 < 16);
        assert(hex_val(hex_digit_lower((b / 16) as u8)) == b / 16);
        assert(hex_val(hex_digit_lower((b % 16) as u8)) == b % 16);
        assert(b / 16 * 16 + b % 16 == b) by (nonlinear_arith);
    }
    assert(decoded_address(e) =~= bytes);
}

impl Clone for Address {
    fn clone(&self) -> (r: Self)
        ensures
            r@ == self@,
    {
        let mut bytes: Vec<u8> = Vec::new();
        let n = self.bytes.len();
        let mut i: usize = 0;
        while i < n
            invariant
                n == self.bytes.len(),
                0 <= i <= n,
                bytes@ =~= self@.take(i as int),
            decreases n - i,
        {
            bytes.push(self.bytes[i]);
            i += 1;
        }
        proof {
            assert(bytes@ =~= self@);
        }
        Address { bytes }
    }
}

/// Tells a hexadecimal digit from any other byte and gives its value.
fn hex_digit_value(c: u8) -> (r: Option<u8>)
    ensures
        r is Some <==> is_hex_digit(c),
        r is Some ==> r->0 == hex_val(c) && r->0 <= 15,
{
    if 48 <= c && c <= 57 {
        Some(c - 48)
    } else if 97 <= c && c <= 102 {
        Some(c - 87)
    } else if 65 <= c && c <= 70 {
        Some(c - 55)
    } else {
        None
    }
}

/// Parses a hex-encoded 20-byte address, with an optional `0x`/`0X`
/// prefix and either letter case. Succeeds exactly on well-formed input;
/// each error variant names what was wrong.
pub fn parse_address(input: &[u8]) -> (r: Result<Address, ParseError>)
    ensures
        r is Ok <==> valid_address_input(input@),
        r is Ok ==> r->Ok_0.wf() && r->Ok_0@ == decoded_address(input@),
        r == Err::<Address, ParseError>(ParseError::WrongLength) <==> hex_body(input@).len() != 40,
        r == Err::<Address, ParseError>(ParseError::InvalidDigit) <==> (hex_body(input@).len() == 40
            && exists|i: int| 0 <= i < 40 && !is_hex_digit(#[trigger] hex_body(input@)[i])),
{
    let has_prefix = input.len() >= 2 && input[0] == 48 && (input[1] == 120 || input[1] == 88);
    let start: usize = if has_prefix { 2 } else { 0 };
    proof {
        assert(hex_body(input@) =~= input@.skip(start as int));
    }
    if input.len() - start != 40 {
        return Err(ParseError::WrongLength);
    }
    let mut bytes: Vec<u8> = Vec::new();
    let mut i: usize = 0;
    while i < 20
        invariant
            0 <= i <= 20,
            start + 40 == input@.len(),
            start == 0 || start == 2,
            hex_body(input@) =~= input@.skip(start as int),
            forall|j: int| 0 <= j < 2 * i ==> is_hex_digit(#[trigger] hex_body(input@)[j]),
            bytes@.len() == i,
            forall|j: int| 0 <= j < i ==> bytes@[j] == decoded_address(input@)[j],
        decreases 20 - i,
    {
        let hi = input[start + 2 * i];
        let lo = input[start + 2 * i + 1];
        let hi_val = match hex_digit_value(hi) {
            Some(v) => v,
            None => {
                proof {
                    assert(hex_body(input@)[2 * i] == hi);
                }
                return Err(ParseError::InvalidDigit);
            },
        };
        let lo_val = match hex_digit_value(lo) {
            Some(v) => v,
            None => {
                proof {
                    assert(hex_body(input@)[2 * i + 1] == lo);
                }
                return Err(ParseError::InvalidDigit);
            },
        };
        bytes.push(hi_val * 16 + lo_val);
        i += 1;
    }
    proof {
        assert(bytes@ =~= decoded_address(input@));
    }
    Ok(Address { bytes })
}

} // verus!
