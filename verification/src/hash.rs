//! Block and transaction identifiers: 32 bytes, written as 64 hexadecimal digits.

use vstd::prelude::*;

verus! {

/// The identifier of a block or of a transaction.
#[derive(Clone, Copy, Debug, PartialEq, Eq)]
pub struct Hash32 {
    pub bytes: [u8; 32],
}

/// The lower-case hexadecimal digit that stands for `n`.
pub open spec fn hex_digit(n: int) -> char {
    if n < 10 {
        ('0' as int + n) as char
    } else {
        ('a' as int + n - 10) as char
    }
}

/// What a hexadecimal digit stands for, in either case.
pub open spec fn hex_value(c: char) -> Option<int> {
    if '0' <= c && c <= '9' {
        Some(c as int - '0' as int)
    } else if 'a' <= c && c <= 'f' {
        Some(c as int - 'a' as int + 10)
    } else if 'A' <= c && c <= 'F' {
        Some(c as int - 'A' as int + 10)
    } else {
        None
    }
}

/// Two lower-case hexadecimal digits per byte, the high half first.
pub open spec fn hex(bytes: Seq<u8>) -> Seq<char> {
    Seq::new(
        2 * bytes.len(),
        |i: int|
            if i % 2 == 0 {
                hex_digit(bytes[i / 2] as int / 16)
            } else {
                hex_digit(bytes[i / 2] as int % 16)
            },
    )
}

/// The texts that are read as an identifier: hexadecimal digits only, an even number of them,
/// and at least 64. Digits after the first 64 are not looked at.
pub open spec fn is_hash_text(text: Seq<char>) -> bool {
    &&& text.len() >= 64
    &&& text.len() % 2 == 0
    &&& forall|i: int| 0 <= i < text.len() ==> hex_value(#[trigger] text[i]) is Some
}

/// The 32 bytes that the first 64 digits of a text stand for.
pub open spec fn hash_bytes(text: Seq<char>) -> Seq<u8> {
    Seq::new(
        32,
        |i: int| (hex_value(text[2 * i])->0 * 16 + hex_value(text[2 * i + 1])->0) as u8,
    )
}

/// `kaspa_hashes::Hash` prints its bytes as lower-case hexadecimal digits.
#[verifier::external_body]
fn display_hash(bytes: [u8; 32]) -> (r: String)
    ensures
        r@ == hex(bytes@),
{
    kaspa_hashes::Hash::from_bytes(bytes).to_string()
}

/// `kaspa_hashes::Hash` is parsed from hexadecimal digits of either case: an even number of
/// digits, at least 64 of them, of which the first 64 count. Any other text is an error.
#[verifier::external_body]
fn parse_hash(text: &str) -> (r: Option<[u8; 32]>)
    ensures
        r is Some <==> is_hash_text(text@),
        r matches Some(bytes) ==> bytes@ == hash_bytes(text@),
{
    text.parse::<kaspa_hashes::Hash>().ok().map(|h| h.as_bytes())
}

impl View for Hash32 {
    type V = Seq<u8>;

    open spec fn view(&self) -> Seq<u8> {
        self.bytes@
    }
}

impl Hash32 {
    /// The identifier as 64 hexadecimal digits.
    pub fn text(&self) -> (r: String)
        ensures
            r@ == hex(self@),
    {
        display_hash(self.bytes)
    }

    /// Reads an identifier from its hexadecimal digits.
    pub fn parse(text: &str) -> (r: Option<Hash32>)
        ensures
            r is Some <==> is_hash_text(text@),
            r matches Some(h) ==> h@ == hash_bytes(text@),
    {
        match parse_hash(text) {
            Some(bytes) => Some(Hash32 { bytes }),
            None => None,
        }
    }
}

/// Reading the text of an identifier gives the identifier back.
pub proof fn hash_text_round_trip(bytes: Seq<u8>)
    requires
        bytes.len() == 32,
    ensures
        is_hash_text(hex(bytes)),
        hash_bytes(hex(bytes)) == bytes,
{
    let text = hex(bytes);
    assert forall|i: int| 0 <= i < text.len() implies hex_value(#[trigger] text[i]) is Some by {
        let b = bytes[i / 2] as int;
        assert(0 <= b / 16 < 16 && 0 <= b % 16 < 16);
    }
    assert forall|i: int| 0 <= i < 32 implies #[trigger] hash_bytes(text)[i] == bytes[i] by {
        let b = bytes[i] as int;
        assert((2 * i) / 2 == i && (2 * i + 1) / 2 == i);
        assert((2 * i) % 2 == 0 && (2 * i + 1) % 2 == 1);
        assert(hex_value(text[2 * i]) == Some(b / 16));
        assert(hex_value(text[2 * i + 1]) == Some(b % 16));
    }
    assert(hash_bytes(text) =~= bytes);
}

/// Two identifiers with the same text are the same identifier.
pub proof fn hash_text_tells_apart(a: Seq<u8>, b: Seq<u8>)
    requires
        a.len() == 32,
        b.len() == 32,
        hex(a) == hex(b),
    ensures
        a == b,
{
    hash_text_round_trip(a);
    hash_text_round_trip(b);
}

} // verus!
