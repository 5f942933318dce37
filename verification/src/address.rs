use vstd::prelude::*;

verus! {

/// Why a textual Ethereum address was rejected.
#[derive(Clone, Copy, PartialEq, Eq, Structural, Debug)]
pub enum AddressError {
    /// After stripping an optional `0x` prefix, the text is not exactly 40 characters long.
    InvalidAddressLength,
    /// A character of the 40-character body is not a hexadecimal digit.
    InvalidHexDigit,
}

/// A 20-byte Ethereum address. Immutable once constructed; equal iff all bytes match.
#[derive(Clone, Copy, Debug)]
pub struct EthereumAddress([u8; 20]);

impl View for EthereumAddress {
    type V = Seq<u8>;

    closed spec fn view(&self) -> Seq<u8> {
        self.0@
    }
}

impl EthereumAddress {
    /// Wraps 20 raw bytes as an address.
    pub fn new(bytes: [u8; 20]) -> (r: EthereumAddress)
        ensures
            r@ == bytes@,
    {
        EthereumAddress(bytes)
    }

    /// The raw 20 bytes of the address.
    pub fn bytes(&self) -> (r: &[u8; 20])
        ensures
            r@ == self@,
    {
        &self.0
    }
}

impl Default for EthereumAddress {
    /// The all-zero address.
    fn default() -> (r: EthereumAddress)
        ensures
            r@ == Seq::new(20, |i: int| 0u8),
    {
        let r = EthereumAddress([0u8; 20]);
        proof {
            assert(r@ =~= Seq::new(20, |i: int| 0u8));
        }
        r
    }
}

impl PartialEq for EthereumAddress {
    fn eq(&self, other: &Self) -> (r: bool) {
        let mut i: usize = 0;
        while i < 20
            invariant
                0 <= i <= 20,
                forall|j: int| 0 <= j < i ==> self.0@[j] == other.0@[j],
            decreases 20 - i,
        {
            if self.0[i] != other.0[i] {
                return false;
            }
            i += 1;
        }
        proof {
            assert(self@ =~= other@);
        }
        true
    }
}

impl Eq for EthereumAddress {}

impl vstd::std_specs::cmp::PartialEqSpecImpl for EthereumAddress {
    open spec fn obeys_eq_spec() -> bool {
        true
    }

    open spec fn eq_spec(&self, other: &Self) -> bool {
        self@ == other@
    }
}

/// Whether `c` is a hexadecimal digit (either case).
pub open spec fn is_hex_digit(c: char) -> bool {
    48 <= c as u32 <= 57 || 97 <= c as u32 <= 102 || 65 <= c as u32 <= 70
}

/// The numeric value of a hexadecimal digit.
pub open spec fn hex_digit_value(c: char) -> u8
    recommends
        is_hex_digit(c),
{
    if 48 <= c as u32 <= 57 {
        (c as u32 - 48) as u8
    } else if 97 <= c as u32 <= 102 {
        (c as u32 - 87) as u8
    } else {
        (c as u32 - 55) as u8
    }
}

/// The lowercase hexadecimal digit for a value below 16.
pub open spec fn hex_char(n: u8) -> char
    recommends
        n < 16,
{
    if n < 10 {
        ((n + 48) as u8) as char
    } else {
        ((n + 87) as u8) as char
    }
}

/// The text with one leading `0x`, if any, removed.
pub open spec fn strip_hex_prefix(t: Seq<char>) -> Seq<char> {
    if t.len() >= 2 && t[0] == '0' && t[1] == 'x' {
        t.subrange(2, t.len() as int)
    } else {
        t
    }
}

/// The lowercase hexadecimal rendering of a byte sequence, two digits per byte.
pub open spec fn hex_chars_of(a: Seq<u8>) -> Seq<char> {
    Seq::new(
        2 * a.len(),
        |i: int|
            if i % 2 == 0 {
                hex_char(a[i / 2] / 16)
            } else {
                hex_char(a[i / 2] % 16)
            },
    )
}

/// The full textual form of an address: `0x` followed by 40 lowercase hexadecimal digits.
pub open spec fn format_spec(a: Seq<u8>) -> Seq<char> {
    seq!['0', 'x'] + hex_chars_of(a)
}

/// The bytes denoted by a sequence of hexadecimal digits, two digits per byte.
pub open spec fn decode_hex(s: Seq<char>) -> Seq<u8> {
    Seq::new(
        s.len() / 2,
        |i: int| (hex_digit_value(s[2 * i]) * 16 + hex_digit_value(s[2 * i + 1])) as u8,
    )
}

/// What parsing a textual address yields: the 20 decoded bytes, or the first
/// applicable rejection (a wrong length before any digit check).
pub open spec fn parse_spec(t: Seq<char>) -> Result<Seq<u8>, AddressError> {
    let s = strip_hex_prefix(t);
    if s.len() != 40 {
        Err(AddressError::InvalidAddressLength)
    } else if exists|i: int| 0 <= i < 40 && !is_hex_digit(s[i]) {
        Err(AddressError::InvalidHexDigit)
    } else {
        Ok(decode_hex(s))
    }
}

/// The value of one hexadecimal digit, or `None` for any other character.
fn hex_val(c: char) -> (r: Option<u8>)
    ensures
        match r {
            Some(v) => is_hex_digit(c) && v == hex_digit_value(c) && v < 16,
            None => !is_hex_digit(c),
        },
{
    let u = c as u32;
    if 48 <= u && u <= 57 {
        Some((u - 48) as u8)
    } else if 97 <= u && u <= 102 {
        Some((u - 87) as u8)
    } else if 65 <= u && u <= 70 {
        Some((u - 55) as u8)
    } else {
        None
    }
}

impl EthereumAddress {
    /// Parses the textual form of an address: an optional `0x` prefix followed by
    /// exactly 40 hexadecimal digits of either case.
    pub fn parse(text: &str) -> (r: Result<EthereumAddress, AddressError>)
        ensures
            match r {
                Ok(a) => parse_spec(text@) == Ok::<Seq<u8>, AddressError>(a@),
                Err(e) => parse_spec(text@) == Err::<Seq<u8>, AddressError>(e),
            },
    {
        let n = text.unicode_len();
        let has_prefix = n >= 2 && text.get_char(0) == '0' && text.get_char(1) == 'x';
        let start: usize = if has_prefix {
            2
        } else {
            0
        };
        let ghost s = strip_hex_prefix(text@);
        proof {
            assert(s =~= text@.subrange(start as int, n as int));
        }
        if n - start != 40 {
            return Err(AddressError::InvalidAddressLength);
        }
        let mut out: [u8; 20] = [0u8; 20];
        let mut i: usize = 0;
        while i < 20
            invariant
                0 <= i <= 20,
                n == text@.len(),
                start + 40 == n,
                s == strip_hex_prefix(text@),
                s =~= text@.subrange(start as int, n as int),
                forall|k: int| 0 <= k < 2 * i ==> is_hex_digit(s[k]),
                forall|j: int|
                    0 <= j < i ==> out@[j] == hex_digit_value(s[2 * j]) * 16 + hex_digit_value(
                        s[2 * j + 1],
                    ),
            decreases 20 - i,
        {
            let c_hi = text.get_char(start + 2 * i);
            let c_lo = text.get_char(start + 2 * i + 1);
            proof {
                assert(s[2 * (i as int)] == c_hi);
                assert(s[2 * (i as int) + 1] == c_lo);
            }
            let hi = match hex_val(c_hi) {
                Some(v) => v,
                None => {
                    proof {
                        assert(0 <= 2 * (i as int) < 40 && !is_hex_digit(s[2 * (i as int)]));
                    }
                    return Err(AddressError::InvalidHexDigit);
                },
            };
            let lo = match hex_val(c_lo) {
                Some(v) => v,
                None => {
                    proof {
                        assert(0 <= 2 * (i as int) + 1 < 40 && !is_hex_digit(
                            s[2 * (i as int) + 1],
                        ));
                    }
                    return Err(AddressError::InvalidHexDigit);
                },
            };
            out[i] = hi * 16 + lo;
            i += 1;
        }
        proof {
            assert(out@ =~= decode_hex(s));
        }
        Ok(EthereumAddress(out))
    }

    /// Renders the address as `0x` followed by 40 lowercase hexadecimal digits.
    pub fn format(&self) -> (r: String)
        ensures
            r@ == format_spec(self@),
    {
        let mut s = String::new();
        proof {
            reveal_strlit("0x");
        }
        s.append("0x");
        let mut i: usize = 0;
        while i < 20
            invariant
                0 <= i <= 20,
                s@ =~= (seq!['0', 'x'] + hex_chars_of(self@).subrange(0, 2 * i)),
            decreases 20 - i,
        {
            let b = self.0[i];
            s.append(hex_digit_str(b / 16));
            s.append(hex_digit_str(b % 16));
            proof {
                assert(hex_chars_of(self@)[2 * (i as int)] == hex_char(self@[i as int] / 16));
                assert(hex_chars_of(self@)[2 * (i as int) + 1] == hex_char(self@[i as int] % 16));
                assert(s@ =~= (seq!['0', 'x'] + hex_chars_of(self@).subrange(0, 2 * (i + 1))));
            }
            i += 1;
        }
        proof {
            assert(hex_chars_of(self@).subrange(0, 40) =~= hex_chars_of(self@));
            assert(s@ =~= format_spec(self@));
        }
        s
    }
}

/// A one-character string holding the lowercase hexadecimal digit for a value below 16.
fn hex_digit_str(n: u8) -> (r: &'static str)
    requires
        n < 16,
    ensures
        r@ == seq![hex_char(n)],
{
    proof {
        reveal_strlit("0");
        reveal_strlit("1");
        reveal_strlit("2");
        reveal_strlit("3");
        reveal_strlit("4");
        reveal_strlit("5");
        reveal_strlit("6");
        reveal_strlit("7");
        reveal_strlit("8");
        reveal_strlit("9");
        reveal_strlit("a");
        reveal_strlit("b");
        reveal_strlit("c");
        reveal_strlit("d");
        reveal_strlit("e");
        reveal_strlit("f");
    }
    if n == 0 {
        "0"
    } else if n == 1 {
        "1"
    } else if n == 2 {
        "2"
    } else if n == 3 {
        "3"
    } else if n == 4 {
        "4"
    } else if n == 5 {
        "5"
    } else if n == 6 {
        "6"
    } else if n == 7 {
        "7"
    } else if n == 8 {
        "8"
    } else if n == 9 {
        "9"
    } else if n == 10 {
        "a"
    } else if n == 11 {
        "b"
    } else if n == 12 {
        "c"
    } else if n == 13 {
        "d"
    } else if n == 14 {
        "e"
    } else {
        "f"
    }
}

/// Two addresses with the same bytes are the same address.
pub proof fn lemma_address_eq_from_view(a: EthereumAddress, b: EthereumAddress)
    requires
        a@ == b@,
    ensures
        a == b,
{
    broadcast use vstd::array::group_array_axioms;

    assert(a.0 =~= b.0);
}

/// A hexadecimal digit of a value below 16 is itself a hexadecimal digit with that value.
proof fn lemma_hex_char_value(n: u8)
    requires
        n < 16,
    ensures
        is_hex_digit(hex_char(n)),
        hex_digit_value(hex_char(n)) == n,
{
}

/// Round trip: parsing the textual form of any 20-byte address yields the address back.
pub proof fn lemma_parse_format_roundtrip(a: Seq<u8>)
    requires
        a.len() == 20,
    ensures
        parse_spec(format_spec(a)) == Ok::<Seq<u8>, AddressError>(a),
{
    let t = format_spec(a);
    let s = strip_hex_prefix(t);
    assert(t[0] == '0' && t[1] == 'x');
    assert(s =~= hex_chars_of(a));
    assert forall|i: int| 0 <= i < 40 implies is_hex_digit(s[i]) by {
        if i % 2 == 0 {
            lemma_hex_char_value(a[i / 2] / 16);
        } else {
            lemma_hex_char_value(a[i / 2] % 16);
        }
    }
    assert(decode_hex(s) =~= a) by {
        assert forall|i: int| 0 <= i < 20 implies decode_hex(s)[i] == a[i] by {
            lemma_hex_char_value(a[i] / 16);
            lemma_hex_char_value(a[i] % 16);
            assert(s[2 * i] == hex_char(a[i] / 16));
            assert(s[2 * i + 1] == hex_char(a[i] % 16));
            assert(a[i] / 16 * 16 + a[i] % 16 == a[i]);
        }
    }
}

} // verus!
