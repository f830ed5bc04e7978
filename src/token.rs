//! Unsubscribe tokens: an HMAC-SHA256 tag of the subscriber id, keyed by a
//! shared secret and written as lowercase hexadecimal.

use hmac::{Hmac, Mac};
use sha2::Sha256;
use vstd::prelude::*;
use vstd::utf8::*;

verus! {

/// The HMAC-SHA256 tag of `message` under `key`.
pub uninterp spec fn hmac_sha256(key: Seq<u8>, message: Seq<u8>) -> Seq<u8>;

/// The lowercase hexadecimal digit for a value below sixteen.
pub open spec fn hex_digit(n: int) -> char {
    seq!['0', '1', '2', '3', '4', '5', '6', '7', '8', '9', 'a', 'b', 'c', 'd', 'e', 'f'][n]
}

/// Two lowercase hexadecimal digits per byte, high half first.
pub open spec fn hex_of(bytes: Seq<u8>) -> Seq<char>
    decreases bytes.len(),
{
    if bytes.len() == 0 {
        Seq::empty()
    } else {
        let b = bytes.last() as int;
        hex_of(bytes.drop_last()) + seq![hex_digit(b / 16), hex_digit(b % 16)]
    }
}

/// Hexadecimal text is two characters per byte.
pub proof fn lemma_hex_of_len(bytes: Seq<u8>)
    ensures
        hex_of(bytes).len() == 2 * bytes.len(),
    decreases bytes.len(),
{
    if bytes.len() > 0 {
        lemma_hex_of_len(bytes.drop_last());
    }
}

proof fn lemma_hex_digit_injective(m: int, k: int)
    requires
        0 <= m < 16,
        0 <= k < 16,
        hex_digit(m) == hex_digit(k),
    ensures
        m == k,
{
    let d = seq!['0', '1', '2', '3', '4', '5', '6', '7', '8', '9', 'a', 'b', 'c', 'd', 'e', 'f'];
    assert(d[0] == '0' && d[1] == '1' && d[2] == '2' && d[3] == '3' && d[4] == '4' && d[5] == '5'
        && d[6] == '6' && d[7] == '7' && d[8] == '8' && d[9] == '9' && d[10] == 'a' && d[11] == 'b'
        && d[12] == 'c' && d[13] == 'd' && d[14] == 'e' && d[15] == 'f');
}

/// Different bytes give different hexadecimal text.
pub proof fn lemma_hex_of_injective(a: Seq<u8>, b: Seq<u8>)
    requires
        hex_of(a) == hex_of(b),
    ensures
        a == b,
    decreases a.len(),
{
    lemma_hex_of_len(a);
    lemma_hex_of_len(b);
    if a.len() > 0 {
        let (a0, b0) = (a.drop_last(), b.drop_last());
        let (x, y) = (a.last() as int, b.last() as int);
        lemma_hex_of_len(a0);
        lemma_hex_of_len(b0);
        let n: int = 2 * a0.len() as int;
        assert(hex_of(a0) =~= hex_of(a).subrange(0, n));
        assert(hex_of(b0) =~= hex_of(b).subrange(0, n));
        lemma_hex_of_injective(a0, b0);
        assert(hex_of(a)[n] == hex_digit(x / 16) && hex_of(b)[n] == hex_digit(y / 16));
        assert(hex_of(a)[n + 1] == hex_digit(x % 16) && hex_of(b)[n + 1] == hex_digit(y % 16));
        lemma_hex_digit_injective(x / 16, y / 16);
        lemma_hex_digit_injective(x % 16, y % 16);
        assert(x == y);
        assert(a =~= a0.push(a.last()));
        assert(b =~= b0.push(b.last()));
    }
}

/// The token that belongs to a subscriber id under a secret.
pub open spec fn unsubscribe_token_of(id: Seq<char>, secret: Seq<char>) -> Seq<char> {
    hex_of(hmac_sha256(encode_utf8(secret), encode_utf8(id)))
}

/// Relies on `hmac::Mac` over `sha2::Sha256`: `new_from_slice` accepts a key
/// of any length, and the finalized tag is 32 bytes.
#[verifier::external_body]
fn hmac_sha256_tag(key: &[u8], message: &[u8]) -> (r: Vec<u8>)
    ensures
        r@ == hmac_sha256(key@, message@),
        r@.len() == 32,
{
    match Hmac::<Sha256>::new_from_slice(key) {
        Ok(mut mac) => {
            mac.update(message);
            mac.finalize().into_bytes().to_vec()
        },
        Err(_) => Vec::new(),
    }
}

/// Relies on `hex::encode`: two lowercase digits per byte, high half first.
#[verifier::external_body]
fn hex_encode(bytes: &[u8]) -> (r: String)
    ensures
        r@ == hex_of(bytes@),
{
    hex::encode(bytes)
}

/// Compares two byte strings in time that depends on their lengths only.
fn bytes_equal_in_constant_time(a: &[u8], b: &[u8]) -> (r: bool)
    ensures
        r == (a@ == b@),
{
    if a.len() != b.len() {
        return false;
    }
    let mut diff: u8 = 0;
    let mut i: usize = 0;
    while i < a.len()
        invariant
            a@.len() == b@.len(),
            i <= a@.len(),
            (diff == 0) <==> (forall|j: int| 0 <= j < i ==> a@[j] == b@[j]),
        decreases a@.len() - i,
    {
        let x = a[i];
        let y = b[i];
        let next = diff | (x ^ y);
        assert((next == 0) <==> (diff == 0 && x == y)) by (bit_vector)
            requires
                next == diff | (x ^ y),
        ;
        diff = next;
        i = i + 1;
    }
    if diff == 0 {
        assert(a@ =~= b@);
    }
    diff == 0
}

/// The unsubscribe token of subscriber `id` under `secret`: 64 lowercase
/// hexadecimal characters.
pub fn issue(id: &str, secret: &str) -> (r: String)
    ensures
        r@ == unsubscribe_token_of(id@, secret@),
        r@.len() == 64,
{
    let tag = hmac_sha256_tag(secret.as_bytes(), id.as_bytes());
    proof {
        lemma_hex_of_len(tag@);
    }
    hex_encode(tag.as_slice())
}

/// Whether a presented token is accepted for a subscriber id under a secret.
pub open spec fn token_accepted(id: Seq<char>, token: Seq<char>, secret: Seq<char>) -> bool {
    token == unsubscribe_token_of(id, secret)
}

/// Whether `token` is the unsubscribe token of subscriber `id` under
/// `secret`. Malformed tokens are simply not equal to it.
pub fn verify(id: &str, token: &str, secret: &str) -> (r: bool)
    ensures
        r == token_accepted(id@, token@, secret@),
        r ==> token@.len() == 64,
{
    let expected = issue(id, secret);
    constant_time_eq(token, expected.as_str())
}

/// Whether two strings are equal, compared in time that depends on their
/// byte lengths only.
pub fn constant_time_eq(a: &str, b: &str) -> (r: bool)
    ensures
        r == (a@ == b@),
{
    let equal = bytes_equal_in_constant_time(a.as_bytes(), b.as_bytes());
    proof {
        encode_utf8_decode_utf8(a@);
        encode_utf8_decode_utf8(b@);
    }
    equal
}

/// A token issued for one id under one secret is accepted for an id under
/// a secret only when the two HMAC tags are equal: rotating the secret, or
/// presenting another subscriber's token, is refused whenever the tags
/// differ.
pub proof fn lemma_token_accepted_only_for_equal_tags(id1: Seq<char>, s1: Seq<char>, id2: Seq<char>, s2: Seq<char>)
    requires
        hmac_sha256(encode_utf8(s1), encode_utf8(id1)) != hmac_sha256(encode_utf8(s2), encode_utf8(id2)),
    ensures
        !token_accepted(id2, unsubscribe_token_of(id1, s1), s2),
{
    if token_accepted(id2, unsubscribe_token_of(id1, s1), s2) {
        lemma_hex_of_injective(
            hmac_sha256(encode_utf8(s1), encode_utf8(id1)),
            hmac_sha256(encode_utf8(s2), encode_utf8(id2)),
        );
    }
}

/// A token issued under a secret is accepted under that same secret.
pub proof fn lemma_issued_token_verifies(id: Seq<char>, secret: Seq<char>)
    ensures
        token_accepted(id, unsubscribe_token_of(id, secret), secret),
{
}

} // verus!
