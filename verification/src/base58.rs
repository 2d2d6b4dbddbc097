use vstd::prelude::*;

use crate::hashes::bytes_eq;
use crate::hashes::sha256;
use crate::hashes::sha256_of;
use vstd::slice::slice_subrange;
use vstd::slice::slice_to_vec;

verus! {

/// The Base58 rendering (Bitcoin alphabet) of a byte sequence. Abstract: the
/// result depends on the bytes alone.
pub uninterp spec fn b58_encode_of(b: Seq<u8>) -> Seq<char>;

/// What bs58::decode returns for a character sequence: the decoded bytes, or
/// nothing when some character is outside the alphabet. Abstract: the result
/// depends on the characters alone.
pub uninterp spec fn b58_decode_of(s: Seq<char>) -> Option<Seq<u8>>;

/// Relies on bs58::encode (Bitcoin alphabet): the rendering depends on the
/// bytes alone, and bs58::decode maps it back to exactly those bytes.
#[verifier::external_body]
fn b58_encode(b: &[u8]) -> (r: String)
    ensures
        r@ == b58_encode_of(b@),
        b58_decode_of(r@) == Some(b@),
{
    bs58::encode(b).into_string()
}

/// Relies on bs58::decode (Bitcoin alphabet): the result depends on the
/// characters alone; any character outside the alphabet fails the decode.
#[verifier::external_body]
fn b58_decode(s: &str) -> (r: Option<Vec<u8>>)
    ensures
        match r {
            Some(v) => b58_decode_of(s@) == Some(v@),
            None => b58_decode_of(s@) is None,
        },
{
    bs58::decode(s).into_vec().ok()
}

/// The raw bytes behind a Base58Check encoding: version byte, payload, then
/// the first four bytes of the double-SHA256 of version and payload.
pub open spec fn b58check_bytes_spec(version: u8, payload: Seq<u8>) -> Seq<u8> {
    (seq![version] + payload) + sha256_of(sha256_of(seq![version] + payload)).take(4)
}

/// The Base58Check text encoding of a version byte and payload.
pub open spec fn b58check_encode_spec(version: u8, payload: Seq<u8>) -> Seq<char> {
    b58_encode_of(b58check_bytes_spec(version, payload))
}

/// A byte string passes the Base58Check checksum: it is at least five bytes
/// long and its trailing four bytes equal the first four bytes of the
/// double-SHA256 of the rest.
pub open spec fn b58check_ok(b: Seq<u8>) -> bool {
    &&& b.len() >= 5
    &&& b.skip(b.len() - 4) == sha256_of(sha256_of(b.take(b.len() - 4))).take(4)
}

/// Splitting checksum-valid bytes into version and payload; absence on any
/// checksum failure.
pub open spec fn b58check_split_spec(b: Seq<u8>) -> Option<(u8, Seq<u8>)> {
    if b58check_ok(b) {
        Some((b[0], b.subrange(1, b.len() - 4)))
    } else {
        None
    }
}

/// Full Base58Check decoding of a character sequence.
pub open spec fn b58check_decode_spec(s: Seq<char>) -> Option<(u8, Seq<u8>)> {
    match b58_decode_of(s) {
        Some(b) => b58check_split_spec(b),
        None => None,
    }
}

/// Verify the 4-byte double-SHA256 checksum of a decoded Base58 byte string
/// and split it into version byte and payload.
pub fn base58check_split(decoded: &[u8]) -> (r: Option<(u8, Vec<u8>)>)
    ensures
        match r {
            Some(t) => b58check_split_spec(decoded@) == Some((t.0, t.1@)),
            None => b58check_split_spec(decoded@) is None,
        },
{
    if decoded.len() < 5 {
        return None;
    }
    let n = decoded.len();
    let body = slice_subrange(decoded, 0, n - 4);
    let chk = slice_subrange(decoded, n - 4, n);
    let first = sha256(body);
    let second = sha256(first.as_slice());
    let second4 = slice_subrange(second.as_slice(), 0, 4);
    proof {
        assert(body@ =~= decoded@.take(n - 4));
        assert(chk@ =~= decoded@.skip(n - 4));
        assert(second4@ =~= sha256_of(sha256_of(decoded@.take(n - 4))).take(4));
    }
    if !bytes_eq(second4, chk) {
        proof {
            assert(!b58check_ok(decoded@));
        }
        return None;
    }
    let ver = decoded[0];
    let payload = slice_to_vec(slice_subrange(decoded, 1, n - 4));
    proof {
        assert(b58check_ok(decoded@));
        assert(payload@ =~= decoded@.subrange(1, n - 4));
    }
    Some((ver, payload))
}

/// Strict Base58Check decode of address text: base58-decode, verify the
/// checksum, and hand back the version byte and the payload. Any malformed
/// character or checksum mismatch yields absence.
pub fn b58_payload(addr: &str) -> (r: Option<(u8, Vec<u8>)>)
    ensures
        match r {
            Some(t) => b58check_decode_spec(addr@) == Some((t.0, t.1@)),
            None => b58check_decode_spec(addr@) is None,
        },
{
    match b58_decode(addr) {
        None => None,
        Some(decoded) => base58check_split(decoded.as_slice()),
    }
}

/// Base58Check-encode a version byte and payload. The second clause states
/// the round-trip law: decoding the encoded text returns exactly the version
/// and payload that went in.
pub fn encode_base58check(version: u8, payload: &[u8]) -> (r: String)
    ensures
        r@ == b58check_encode_spec(version, payload@),
        b58check_decode_spec(r@) == Some((version, payload@)),
{
    let mut bytes: Vec<u8> = Vec::new();
    bytes.push(version);
    let mut i: usize = 0;
    while i < payload.len()
        invariant
            i <= payload@.len(),
            bytes@ == seq![version] + payload@.take(i as int),
        decreases payload@.len() - i,
    {
        bytes.push(payload[i]);
        i = i + 1;
        proof {
            assert(payload@.take(i as int) =~= payload@.take(i - 1) + seq![payload@[i - 1]]);
        }
    }
    proof {
        assert(payload@.take(payload@.len() as int) =~= payload@);
    }
    let first = sha256(bytes.as_slice());
    let second = sha256(first.as_slice());
    let ghost body: Seq<u8> = seq![version] + payload@;
    bytes.push(second[0]);
    bytes.push(second[1]);
    bytes.push(second[2]);
    bytes.push(second[3]);
    proof {
        assert(bytes@ =~= b58check_bytes_spec(version, payload@)) by {
            assert(sha256_of(sha256_of(body)).take(4) =~= seq![
                sha256_of(sha256_of(body))[0],
                sha256_of(sha256_of(body))[1],
                sha256_of(sha256_of(body))[2],
                sha256_of(sha256_of(body))[3],
            ]);
        }
        let b = b58check_bytes_spec(version, payload@);
        assert(b.take(b.len() - 4) =~= body);
        assert(b.skip(b.len() - 4) =~= sha256_of(sha256_of(body)).take(4));
        assert(b58check_ok(b));
        assert(b.subrange(1, b.len() - 4) =~= payload@);
    }
    b58_encode(bytes.as_slice())
}

/// Law: flipping any single byte among the trailing four checksum bytes of a
/// byte string that passes the Base58Check checksum makes the check fail, so
/// the split yields absence.
pub proof fn lemma_b58check_flip_rejected(b: Seq<u8>, i: int, x: u8)
    requires
        b58check_ok(b),
        b.len() - 4 <= i < b.len(),
        x != b[i],
    ensures
        !b58check_ok(b.update(i, x)),
        b58check_split_spec(b.update(i, x)) is None,
{
    let c = b.update(i, x);
    assert(c.take(c.len() - 4) =~= b.take(b.len() - 4));
    if b58check_ok(c) {
        assert(c.skip(c.len() - 4) == sha256_of(sha256_of(b.take(b.len() - 4))).take(4));
        assert(c.skip(c.len() - 4) == b.skip(b.len() - 4));
        assert(c.skip(c.len() - 4)[i - (b.len() - 4)] == x);
        assert(b.skip(b.len() - 4)[i - (b.len() - 4)] == b[i]);
        assert(false);
    }
}

} // verus!
