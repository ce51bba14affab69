//! Parsing of 20-byte addresses written in hex.
use vstd::prelude::*;
use crate::error::MineError;

verus! {

#[verifier::external_type_specification]
#[verifier::external_body]
pub struct ExFromHexError(hex::FromHexError);

/// `c` is a hex digit of either case.
pub open spec fn is_hex_char(c: char) -> bool {
    ('0' <= c && c <= '9') || ('a' <= c && c <= 'f') || ('A' <= c && c <= 'F')
}

/// The value of hex digit `c`.
pub open spec fn hex_val(c: char) -> int {
    if '0' <= c && c <= '9' {
        c as int - '0' as int
    } else if 'a' <= c && c <= 'f' {
        c as int - 'a' as int + 10
    } else {
        c as int - 'A' as int + 10
    }
}

/// Every character of `s` is a hex digit.
pub open spec fn all_hex(s: Seq<char>) -> bool {
    forall|i: int| 0 <= i < s.len() ==> is_hex_char(#[trigger] s[i])
}

/// The bytes that the hex digits `s` spell, two digits a byte, high digit first.
pub open spec fn hex_decode(s: Seq<char>) -> Seq<u8> {
    Seq::new(s.len() / 2, |i: int| (hex_val(s[2 * i]) * 16 + hex_val(s[2 * i + 1])) as u8)
}

/// `s` without one leading `0x`.
pub open spec fn strip_0x(s: Seq<char>) -> Seq<char> {
    if s.len() >= 2 && s[0] == '0' && s[1] == 'x' {
        s.subrange(2, s.len() as int)
    } else {
        s
    }
}

/// Relies on hex::decode: it fails on an odd number of bytes or on a byte that
/// is no hex digit (every byte of a non-ASCII character is one), and otherwise
/// returns the bytes spelled by the pairs of digits.
#[verifier::external_body]
fn decode_hex(s: &str) -> (r: Result<Vec<u8>, hex::FromHexError>)
    ensures
        r.is_ok() <==> (s@.len() % 2 == 0 && all_hex(s@)),
        r matches Ok(v) ==> v@ == hex_decode(s@),
{
    hex::decode(s)
}

/// Parses a deployer address: 40 hex digits, optionally after `0x`.
pub fn parse_address(hex_str: &str) -> (r: Result<[u8; 20], MineError>)
    ensures
        strip_0x(hex_str@).len() != 40 <==> r == Err::<[u8; 20], MineError>(
            MineError::AddressLength { len: strip_0x(hex_str@).len() as usize },
        ),
        (strip_0x(hex_str@).len() == 40 && !all_hex(strip_0x(hex_str@))) <==> r == Err::<
            [u8; 20],
            MineError,
        >(MineError::AddressNotHex),
        (strip_0x(hex_str@).len() == 40 && all_hex(strip_0x(hex_str@))) ==> r.is_ok(),
        r matches Ok(a) ==> a@ == hex_decode(strip_0x(hex_str@)),
{
    let n = hex_str.unicode_len();
    let body: &str = if n >= 2 && hex_str.get_char(0) == '0' && hex_str.get_char(1) == 'x' {
        hex_str.substring_char(2, n)
    } else {
        hex_str
    };
    let len = body.unicode_len();
    if len != 40 {
        return Err(MineError::AddressLength { len });
    }
    match decode_hex(body) {
        Ok(bytes) => {
            let mut a = [0u8; 20];
            let mut i: usize = 0;
            while i < 20
                invariant
                    i <= 20,
                    a@.len() == 20,
                    bytes@ == hex_decode(body@),
                    body@.len() == 40,
                    forall|j: int| 0 <= j < i ==> #[trigger] a@[j] == bytes@[j],
                decreases 20 - i,
            {
                a[i] = bytes[i];
                i = i + 1;
            }
            assert(a@ =~= bytes@);
            Ok(a)
        },
        Err(_) => Err(MineError::AddressNotHex),
    }
}

} // verus!
