//! Content hashing: the SHA-256 digest of a byte string, as lower-case hex.

use vstd::prelude::*;

verus! {

/// The SHA-256 digest of a byte string.
pub uninterp spec fn sha256_digest(data: Seq<u8>) -> Seq<u8>;

/// `sha2::Sha256::digest`: the digest is a function of the bytes alone, and
/// is 32 bytes long.
#[verifier::external_body]
pub(crate) fn sha256(data: &[u8]) -> (digest: Vec<u8>)
    ensures
        digest@ == sha256_digest(data@),
        digest@.len() == 32,
{
    <sha2::Sha256 as sha2::Digest>::digest(data).to_vec()
}

/// The lower-case hexadecimal digit of a value below sixteen.
pub open spec fn hex_digit(value: int) -> char {
    seq!['0', '1', '2', '3', '4', '5', '6', '7', '8', '9', 'a', 'b', 'c', 'd', 'e', 'f'][value]
}

/// The digit at a position of the text of a byte string: byte `at / 2`
/// gives its high half at the even position and its low half at the odd one.
pub open spec fn hex_char(bytes: Seq<u8>, at: int) -> char {
    if at % 2 == 0 {
        hex_digit(bytes[at / 2] as int / 16)
    } else {
        hex_digit(bytes[at / 2] as int % 16)
    }
}

/// The lower-case hexadecimal text of a byte string: two digits per byte,
/// the high half first.
pub open spec fn hex_text(bytes: Seq<u8>) -> Seq<char> {
    Seq::new(2 * bytes.len(), |at: int| hex_char(bytes, at))
}

/// `hex::encode`: each byte becomes two lower-case hexadecimal digits, the
/// high half first.
#[verifier::external_body]
pub(crate) fn hex_encode(data: &[u8]) -> (text: String)
    ensures
        text@ == hex_text(data@),
{
    hex::encode(data)
}

/// The hexadecimal text of the SHA-256 digest of a byte string.
pub open spec fn hash_text(data: Seq<u8>) -> Seq<char> {
    hex_text(sha256_digest(data))
}

/// Hashes a file's contents: the SHA-256 digest as 64 lower-case hexadecimal
/// digits. The text depends on the bytes alone.
pub fn hash_bytes(data: &[u8]) -> (text: String)
    ensures
        text@ == hash_text(data@),
        text@.len() == 64,
{
    let digest = sha256(data);
    hex_encode(digest.as_slice())
}

/// Two byte strings have the same hexadecimal text only if they are equal.
pub proof fn hex_text_injective(a: Seq<u8>, b: Seq<u8>)
    requires
        hex_text(a) == hex_text(b),
    ensures
        a == b,
{
    assert(hex_text(a).len() == 2 * a.len());
    assert(hex_text(b).len() == 2 * b.len());
    assert forall|i: int| 0 <= i < a.len() implies a[i] == b[i] by {
        assert(hex_text(a)[2 * i] == hex_char(a, 2 * i));
        assert(hex_text(b)[2 * i] == hex_char(b, 2 * i));
        assert(hex_text(a)[2 * i + 1] == hex_char(a, 2 * i + 1));
        assert(hex_text(b)[2 * i + 1] == hex_char(b, 2 * i + 1));
        let ah = a[i] as int / 16;
        let bh = b[i] as int / 16;
        let al = a[i] as int % 16;
        let bl = b[i] as int % 16;
        assert(hex_digit(ah) == hex_digit(bh));
        assert(hex_digit(al) == hex_digit(bl));
        digit_injective(ah, bh);
        digit_injective(al, bl);
    }
    assert(a =~= b);
}

/// Two values below sixteen have the same digit only if they are equal.
proof fn digit_injective(x: int, y: int)
    requires
        0 <= x < 16,
        0 <= y < 16,
        hex_digit(x) == hex_digit(y),
    ensures
        x == y,
{
}

/// Hashing is a function of the contents: equal contents give equal texts,
/// and two contents give the same text exactly when their digests agree.
pub proof fn hash_text_determined(a: Seq<u8>, b: Seq<u8>)
    ensures
        a == b ==> hash_text(a) == hash_text(b),
        hash_text(a) == hash_text(b) <==> sha256_digest(a) == sha256_digest(b),
{
    if hash_text(a) == hash_text(b) {
        hex_text_injective(sha256_digest(a), sha256_digest(b));
    }
}

} // verus!
