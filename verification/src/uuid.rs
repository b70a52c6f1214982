//! Deterministic, name-based UUIDs derived from SHA-256.

use vstd::prelude::*;
use vstd::utf8::encode_utf8;
use sha2::Digest;
use crate::text::string_from_chars;

verus! {

/// The SHA-256 digest of `data` (sha2's `Sha256`).
pub uninterp spec fn sha256_spec(data: Seq<u8>) -> Seq<u8>;

/// sha2's `Sha256::digest`; its result is named by `sha256_spec` and, as
/// the output size of SHA-256 fixes, is 32 bytes long.
#[verifier::external_body]
pub(crate) fn sha256(data: &[u8]) -> (r: Vec<u8>)
    ensures
        r@ == sha256_spec(data@),
        r@.len() == 32,
{
    sha2::Sha256::digest(data).to_vec()
}

/// The lowercase hexadecimal digit of `n < 16`.
pub open spec fn hex_digit(n: u8) -> char {
    if n < 10 {
        ((n + 48) as u8) as char
    } else {
        ((n + 87) as u8) as char
    }
}

/// The two lowercase hexadecimal digits of a byte.
pub open spec fn hex_byte(b: u8) -> Seq<char> {
    seq![hex_digit(b >> 4), hex_digit(b & 0x0f)]
}

/// The lowercase hexadecimal notation of a byte sequence.
pub open spec fn hex_of(b: Seq<u8>) -> Seq<char>
    decreases b.len(),
{
    if b.len() == 0 {
        seq![]
    } else {
        hex_of(b.drop_last()) + hex_byte(b.last())
    }
}

/// The first 16 bytes of a digest with the version-5 nibble and the RFC 4122
/// variant bits set.
pub open spec fn uuid_bytes(h: Seq<u8>) -> Seq<u8> {
    h.take(16).update(6, (h[6] & 0x0f) | 0x50).update(8, (h[8] & 0x3f) | 0x80)
}

/// The 8-4-4-4-12 hyphenated notation of 16 bytes.
pub open spec fn uuid_text(b: Seq<u8>) -> Seq<char> {
    hex_of(b.subrange(0, 4)) + "-"@ + hex_of(b.subrange(4, 6)) + "-"@ + hex_of(b.subrange(6, 8)) + "-"@
        + hex_of(b.subrange(8, 10)) + "-"@ + hex_of(b.subrange(10, 16))
}

/// The UUID that `deterministic_uuid` derives from `input`.
pub open spec fn deterministic_uuid_spec(input: Seq<char>) -> Seq<char> {
    uuid_text(uuid_bytes(sha256_spec(encode_utf8(input))))
}

fn hex_digit_exec(n: u8) -> (c: char)
    requires
        n < 16,
    ensures
        c == hex_digit(n),
{
    if n < 10 {
        (n + 48) as char
    } else {
        (n + 87) as char
    }
}

/// Appends the hexadecimal notation of `bytes[from..to]`.
fn push_hex(out: &mut Vec<char>, bytes: &Vec<u8>, from: usize, to: usize)
    requires
        from <= to <= bytes@.len(),
    ensures
        final(out)@ == old(out)@ + hex_of(bytes@.subrange(from as int, to as int)),
{
    let mut i = from;
    assert(bytes@.subrange(from as int, from as int) =~= Seq::<u8>::empty());
    assert(old(out)@ + hex_of(Seq::<u8>::empty()) =~= old(out)@);
    while i < to
        invariant
            from <= i <= to <= bytes@.len(),
            out@ == old(out)@ + hex_of(bytes@.subrange(from as int, i as int)),
        decreases to - i,
    {
        let b = bytes[i];
        assert(b >> 4 < 16 && b & 0x0f < 16) by (bit_vector);
        out.push(hex_digit_exec(b >> 4));
        out.push(hex_digit_exec(b & 0x0f));
        proof {
            let s = bytes@.subrange(from as int, i + 1);
            assert(s.drop_last() =~= bytes@.subrange(from as int, i as int));
            assert(s.last() == b);
        }
        i = i + 1;
    }
}

/// A version-5-style UUID derived from the SHA-256 digest of `input`: stable
/// across calls and processes.
pub fn deterministic_uuid(input: &str) -> (r: String)
    ensures
        r@ == deterministic_uuid_spec(input@),
{
    let digest = sha256(input.as_bytes());
    let mut b = vstd::slice::slice_to_vec(vstd::slice::slice_subrange(digest.as_slice(), 0, 16));
    let b6 = (digest[6] & 0x0f) | 0x50;
    let b8 = (digest[8] & 0x3f) | 0x80;
    b.set(6, b6);
    b.set(8, b8);
    assert(b@ =~= uuid_bytes(digest@));
    let mut out: Vec<char> = Vec::new();
    push_hex(&mut out, &b, 0, 4);
    out.push('-');
    push_hex(&mut out, &b, 4, 6);
    out.push('-');
    push_hex(&mut out, &b, 6, 8);
    out.push('-');
    push_hex(&mut out, &b, 8, 10);
    out.push('-');
    push_hex(&mut out, &b, 10, 16);
    proof {
        reveal_strlit("-");
    }
    assert(out@ =~= uuid_text(b@));
    string_from_chars(&out)
}

/// A derived UUID carries the version-5 nibble and the RFC 4122 variant.
pub proof fn uuid_version_and_variant(h: Seq<u8>)
    requires
        h.len() >= 16,
    ensures
        uuid_bytes(h).len() == 16,
        uuid_bytes(h)[6] >> 4 == 5,
        uuid_bytes(h)[8] >> 6 == 2,
{
    let a = h[6];
    let b = h[8];
    assert(((a & 0x0f) | 0x50) >> 4 == 5u8) by (bit_vector);
    assert(((b & 0x3f) | 0x80) >> 6 == 2u8) by (bit_vector);
}

} // verus!
