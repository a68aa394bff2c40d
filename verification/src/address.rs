//! Wallet addresses as users type them.

use crate::text::{characters, has_prefix, starts_with};
use vstd::prelude::*;

verus! {

/// Whether `kaspa_addresses` decodes the text into an address: a known network prefix, a colon,
/// and a payload whose checksum, version and length are right.
pub uninterp spec fn address_decodes(text: Seq<char>) -> bool;

/// Whether `c` is one of the four characters that leave the low three bits of a version byte
/// clear.
pub open spec fn plain_version_char(c: char) -> bool {
    c == 'q' || c == 'p' || c == 'z' || c == 'r'
}

/// Whether `c` is one of the four characters that set, of the low three bits of a version byte,
/// the lowest one only.
pub open spec fn ecdsa_version_char(c: char) -> bool {
    c == 'y' || c == '9' || c == 'x' || c == '8'
}

/// Whether the length of a payload fits the version that its first two characters encode: 61 or
/// 62 characters for a public key or a script hash, 63 for an ECDSA public key.
pub open spec fn payload_fits_version(payload: Seq<char>) -> bool {
    ||| {
        &&& payload.len() == 61 || payload.len() == 62
        &&& payload[0] == 'q' || payload[0] == 'p'
        &&& plain_version_char(payload[1])
    }
    ||| {
        &&& payload.len() == 63
        &&& payload[0] == 'q'
        &&& ecdsa_version_char(payload[1])
    }
}

/// The shape that every address has: behind the first colon stands a payload whose length fits
/// its version. A text of another shape is no address, whatever its checksum.
pub open spec fn address_shape(text: Seq<char>) -> bool {
    text.index_of_first(':') matches Some(i) && payload_fits_version(text.skip(i + 1))
}

/// The texts that are accepted as a wallet address.
pub open spec fn is_address(text: Seq<char>) -> bool {
    address_shape(text) && address_decodes(text)
}

/// `kaspa_addresses::Address::try_from` on a text. It panics on a payload that carries a right
/// checksum and a length that its version does not have; the shape leaves such texts out.
#[verifier::external_body]
fn decode_address(text: &str) -> (r: bool)
    requires
        address_shape(text@),
    ensures
        r == address_decodes(text@),
{
    kaspa_addresses::Address::try_from(text).is_ok()
}

fn has_address_shape(text: &str) -> (r: bool)
    ensures
        r == address_shape(text@),
{
    let chars = characters(text);
    let mut i: usize = 0;
    while i < chars.len() && chars[i] != ':'
        invariant
            chars@ == text@,
            i <= chars.len(),
            forall|j: int| 0 <= j < i ==> chars@[j] != ':',
        decreases chars.len() - i,
    {
        i += 1;
    }
    if i == chars.len() {
        assert(!text@.contains(':'));
        proof {
            text@.index_of_first_ensures(':');
        }
        return false;
    }
    proof {
        assert(text@[i as int] == ':');
        assert(text@.contains(':'));
        text@.index_of_first_ensures(':');
        assert(text@.index_of_first(':') == Some(i as int));
    }
    let ghost payload = text@.skip(i + 1);
    let n: usize = chars.len() - i - 1;
    assert(payload.len() == n);
    if n != 61 && n != 62 && n != 63 {
        return false;
    }
    let a = chars[i + 1];
    let b = chars[i + 2];
    assert(payload[0] == a && payload[1] == b);
    if n == 63 {
        a == 'q' && (b == 'y' || b == '9' || b == 'x' || b == '8')
    } else {
        (a == 'q' || a == 'p') && (b == 'q' || b == 'p' || b == 'z' || b == 'r')
    }
}

/// Whether a text is accepted as a wallet address.
pub fn accepts_address(text: &str) -> (r: bool)
    ensures
        r == is_address(text@),
{
    has_address_shape(text) && decode_address(text)
}

/// What a user typed, with the network prefix in front if it was left out.
pub open spec fn full_address(typed: Seq<char>) -> Seq<char> {
    if has_prefix(typed, "kaspa:"@) {
        typed
    } else {
        "kaspa:"@ + typed
    }
}

/// Puts the network prefix in front of what a user typed, unless it is there.
pub fn complete_address(typed: &str) -> (r: String)
    ensures
        r@ == full_address(typed@),
{
    if starts_with(typed, "kaspa:") {
        typed.to_owned()
    } else {
        "kaspa:".to_owned().concat(typed)
    }
}

/// A completed address has the prefix, and completing it again changes nothing: the same wallet
/// is meant with the prefix and without it.
pub proof fn full_address_is_stable(typed: Seq<char>)
    ensures
        has_prefix(full_address(typed), "kaspa:"@),
        full_address(full_address(typed)) == full_address(typed),
        !has_prefix(typed, "kaspa:"@) ==> full_address("kaspa:"@ + typed) == full_address(typed),
{
    assert(("kaspa:"@ + typed).take("kaspa:"@.len() as int) =~= "kaspa:"@);
}

/// What a user typed is completed with the prefix exactly if it is not there.
pub proof fn typed_addresses_are_completed(typed: Seq<char>, rest: Seq<char>)
    ensures
        typed == "kaspa:"@ + rest ==> full_address(typed) == typed,
        full_address(typed) == typed || full_address(typed) == "kaspa:"@ + typed,
        full_address(typed) == typed ==> has_prefix(typed, "kaspa:"@),
{
    assert(("kaspa:"@ + rest).take("kaspa:"@.len() as int) =~= "kaspa:"@);
    if full_address(typed) == typed && !has_prefix(typed, "kaspa:"@) {
        reveal_strlit("kaspa:");
        assert(("kaspa:"@ + typed).len() == typed.len() + 6);
    }
}

/// The shape of an address says nothing of its network: it is that of the payload behind the first
/// colon. Of the texts with that shape, those that can be decoded are accepted.
pub proof fn the_payload_has_the_shape(network: Seq<char>, payload: Seq<char>)
    requires
        !network.contains(':'),
    ensures
        address_shape(network + seq![':'] + payload) <==> {
            ||| (payload.len() == 61 || payload.len() == 62) && (payload[0] == 'q' || payload[0] == 'p')
                && (payload[1] == 'q' || payload[1] == 'p' || payload[1] == 'z' || payload[1] == 'r')
            ||| payload.len() == 63 && payload[0] == 'q' && (payload[1] == 'y' || payload[1] == '9'
                || payload[1] == 'x' || payload[1] == '8')
        },
        address_shape(network + seq![':'] + payload) ==> is_address(network + seq![':'] + payload)
            == address_decodes(network + seq![':'] + payload),
{
    let text = network + seq![':'] + payload;
    let n = network.len() as int;
    assert(text[n] == ':');
    assert(text.contains(':'));
    text.index_of_first_ensures(':');
    let i = text.index_of_first(':')->0;
    if i < n {
        assert(network[i] == ':');
    }
    assert(i == n);
    assert(text.skip(n + 1) =~= payload);
}

/// Without a colon a text is no address.
pub proof fn addresses_have_a_colon(text: Seq<char>)
    requires
        !text.contains(':'),
    ensures
        !is_address(text),
{
    text.index_of_first_ensures(':');
}

} // verus!
