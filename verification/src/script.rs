use vstd::prelude::*;

use crate::base58::b58check_decode_spec;
use crate::base58::b58_payload;
use crate::hashes::hex_encode;
use crate::hashes::hex_of;
use crate::hashes::sha256;
use crate::hashes::sha256_of;
use crate::hashes::str_eq;
use crate::segwit::bech32_witness_program_permissive;
use crate::segwit::bech32_witness_program_strict;
use crate::segwit::permissive_segwit_spec;
use crate::segwit::strict_segwit_spec;

verus! {

/// Which Bech32 decode policy the resolver applies: Strict is the default;
/// Permissive adds the checksum-forgoing fallback and is meant only for an
/// explicitly opted-in development configuration.
#[derive(Clone, Copy)]
pub enum DecodeMode {
    Strict,
    Permissive,
}

/// The 25-byte pay-to-public-key-hash output script for a 20-byte key hash:
/// OP_DUP OP_HASH160 push(20) <hash160> OP_EQUALVERIFY OP_CHECKSIG.
pub open spec fn p2pkh_script_spec(hash160: Seq<u8>) -> Seq<u8> {
    seq![0x76u8, 0xa9u8, 0x14u8] + hash160 + seq![0x88u8, 0xacu8]
}

/// Build the P2PKH script for a 20-byte public-key hash. Callers enforce the
/// length; it is not re-validated here.
pub fn p2pkh_script(hash160: &[u8]) -> (s: Vec<u8>)
    requires
        hash160@.len() == 20,
    ensures
        s@ == p2pkh_script_spec(hash160@),
        s@.len() == 25,
{
    let mut s: Vec<u8> = Vec::with_capacity(25);
    s.push(0x76);
    s.push(0xa9);
    s.push(0x14);
    let mut i: usize = 0;
    while i < hash160.len()
        invariant
            i <= hash160@.len(),
            hash160@.len() == 20,
            s@ == seq![0x76u8, 0xa9u8, 0x14u8] + hash160@.take(i as int),
        decreases hash160@.len() - i,
    {
        s.push(hash160[i]);
        i = i + 1;
        proof {
            assert(hash160@.take(i as int) =~= hash160@.take(i - 1) + seq![hash160@[i - 1]]);
        }
    }
    s.push(0x88);
    s.push(0xac);
    proof {
        assert(hash160@.take(20) =~= hash160@);
        assert(s@ =~= p2pkh_script_spec(hash160@));
    }
    s
}

/// The version-0 segwit output script: OP_0, a push of the program length,
/// then the program.
pub open spec fn segwit_v0_script_spec(program: Seq<u8>) -> Seq<u8> {
    seq![0u8, program.len() as u8] + program
}

/// A version-0 segwit script exists exactly for 20- and 32-byte programs.
pub open spec fn segwit_script_v0_spec(program: Seq<u8>) -> Option<Seq<u8>> {
    if program.len() == 20 || program.len() == 32 {
        Some(segwit_v0_script_spec(program))
    } else {
        None
    }
}

/// Build the version-0 segwit script for a witness program of 20 or 32
/// bytes; absence for any other length.
pub fn segwit_script_v0(program: &[u8]) -> (r: Option<Vec<u8>>)
    ensures
        match r {
            Some(s) => segwit_script_v0_spec(program@) == Some(s@),
            None => segwit_script_v0_spec(program@) is None,
        },
{
    if program.len() == 20 || program.len() == 32 {
        let mut s: Vec<u8> = Vec::new();
        s.push(0x00);
        s.push(program.len() as u8);
        let mut i: usize = 0;
        while i < program.len()
            invariant
                i <= program@.len(),
                program@.len() == 20 || program@.len() == 32,
                s@ == seq![0u8, program@.len() as u8] + program@.take(i as int),
            decreases program@.len() - i,
        {
            s.push(program[i]);
            i = i + 1;
            proof {
                assert(program@.take(i as int) =~= program@.take(i - 1) + seq![program@[i - 1]]);
            }
        }
        proof {
            assert(program@.take(program@.len() as int) =~= program@);
        }
        Some(s)
    } else {
        None
    }
}

/// Resolution of BTC address text to a script: a version-0 witness program of
/// 20 or 32 bytes becomes the segwit script; otherwise a Base58Check payload
/// of 20 bytes under version 0x00 becomes the P2PKH script.
pub open spec fn btc_script_spec(s: Seq<char>, permissive: bool) -> Option<Seq<u8>> {
    let witness = if permissive {
        match strict_segwit_spec(s) {
            Some(w) => Some(w),
            None => permissive_segwit_spec(s),
        }
    } else {
        strict_segwit_spec(s)
    };
    let legacy = match b58check_decode_spec(s) {
        Some((v, p)) => if v == 0x00 && p.len() == 20 {
            Some(p2pkh_script_spec(p))
        } else {
            None
        },
        None => None,
    };
    match witness {
        Some((ver, program)) => if ver == 0 && (program.len() == 20 || program.len() == 32) {
            Some(segwit_v0_script_spec(program))
        } else {
            legacy
        },
        None => legacy,
    }
}

/// The legacy Base58Check leg of the BTC resolver.
fn btc_legacy_script(addr: &str) -> (r: Option<Vec<u8>>)
    ensures
        match r {
            Some(s) => (match b58check_decode_spec(addr@) {
                Some((v, p)) => v == 0x00 && p.len() == 20 && s@ == p2pkh_script_spec(p),
                None => false,
            }),
            None => (match b58check_decode_spec(addr@) {
                Some((v, p)) => !(v == 0x00 && p.len() == 20),
                None => true,
            }),
        },
{
    match b58_payload(addr) {
        Some((ver, payload)) => {
            if ver == 0x00 && payload.len() == 20 {
                Some(p2pkh_script(payload.as_slice()))
            } else {
                None
            }
        },
        None => None,
    }
}

/// Resolve a BTC address under the given decode mode: Bech32 segwit v0
/// first, then legacy Base58Check P2PKH under version 0x00.
pub fn btc_address_to_script_mode(addr: &str, mode: DecodeMode) -> (r: Option<Vec<u8>>)
    ensures
        match r {
            Some(s) => btc_script_spec(addr@, mode is Permissive) == Some(s@),
            None => btc_script_spec(addr@, mode is Permissive) is None,
        },
{
    let witness = match mode {
        DecodeMode::Strict => bech32_witness_program_strict(addr),
        DecodeMode::Permissive => {
            match bech32_witness_program_strict(addr) {
                Some(w) => Some(w),
                None => bech32_witness_program_permissive(addr),
            }
        },
    };
    match witness {
        Some((ver, program)) => {
            if ver == 0 {
                match segwit_script_v0(program.as_slice()) {
                    Some(s) => {
                        return Some(s);
                    },
                    None => {},
                }
            }
            btc_legacy_script(addr)
        },
        None => btc_legacy_script(addr),
    }
}

/// Resolve a BTC address under the default, strict decode policy: Bech32
/// segwit v0 (P2WPKH/P2WSH) first, then legacy Base58Check P2PKH.
pub fn btc_address_to_script(addr: &str) -> (r: Option<Vec<u8>>)
    ensures
        match r {
            Some(s) => btc_script_spec(addr@, false) == Some(s@),
            None => btc_script_spec(addr@, false) is None,
        },
{
    btc_address_to_script_mode(addr, DecodeMode::Strict)
}

/// Resolution of a legacy Base58Check address for a named chain: BCH and BTC
/// take version 0x00, DOGE takes version 0x1e, the payload must be 20 bytes,
/// and any other chain resolves to absence.
pub open spec fn p2pkh_resolve_spec(chain: Seq<char>, s: Seq<char>) -> Option<Seq<u8>> {
    match b58check_decode_spec(s) {
        None => None,
        Some((v, p)) => if (chain == "BCH"@ || chain == "BTC"@) && v == 0x00 && p.len() == 20 {
            Some(p2pkh_script_spec(p))
        } else if chain == "DOGE"@ && v == 0x1e && p.len() == 20 {
            Some(p2pkh_script_spec(p))
        } else {
            None
        },
    }
}

/// Resolve a legacy Base58Check address to its P2PKH script for the given
/// chain (BCH and BTC: version 0x00; DOGE: version 0x1e; payload 20 bytes).
pub fn address_to_p2pkh_script(chain: &str, addr: &str) -> (r: Option<Vec<u8>>)
    ensures
        match r {
            Some(s) => p2pkh_resolve_spec(chain@, addr@) == Some(s@),
            None => p2pkh_resolve_spec(chain@, addr@) is None,
        },
{
    proof {
        reveal_strlit("BCH");
        reveal_strlit("BTC");
        reveal_strlit("DOGE");
        assert("BCH"@.len() == 3 && "BTC"@.len() == 3 && "DOGE"@.len() == 4);
        assert("BCH"@[1] == 'C' && "BTC"@[1] == 'T');
    }
    match b58_payload(addr) {
        None => None,
        Some((ver, payload)) => {
            if str_eq(chain, "BCH") || str_eq(chain, "BTC") {
                if ver == 0x00 && payload.len() == 20 {
                    return Some(p2pkh_script(payload.as_slice()));
                }
                None
            } else if str_eq(chain, "DOGE") {
                if ver == 0x1e && payload.len() == 20 {
                    return Some(p2pkh_script(payload.as_slice()));
                }
                None
            } else {
                None
            }
        },
    }
}

/// Resolution of address text for any supported chain: BTC tries segwit
/// before legacy; BCH and DOGE are legacy Base58Check only; any other chain
/// resolves to absence.
pub open spec fn address_to_script_spec(chain: Seq<char>, s: Seq<char>) -> Option<Seq<u8>> {
    if chain == "BTC"@ {
        btc_script_spec(s, false)
    } else if chain == "BCH"@ {
        p2pkh_resolve_spec("BCH"@, s)
    } else if chain == "DOGE"@ {
        p2pkh_resolve_spec("DOGE"@, s)
    } else {
        None
    }
}

/// Resolve an address to its output script for the given chain, under the
/// default strict decode policy. Absence uniformly means "reject this
/// address".
pub fn address_to_script_any(chain: &str, addr: &str) -> (r: Option<Vec<u8>>)
    ensures
        match r {
            Some(s) => address_to_script_spec(chain@, addr@) == Some(s@),
            None => address_to_script_spec(chain@, addr@) is None,
        },
{
    proof {
        reveal_strlit("BCH");
        reveal_strlit("BTC");
        reveal_strlit("DOGE");
        assert("BCH"@.len() == 3 && "BTC"@.len() == 3 && "DOGE"@.len() == 4);
        assert("BCH"@[1] == 'C' && "BTC"@[1] == 'T');
    }
    if str_eq(chain, "BTC") {
        btc_address_to_script(addr)
    } else if str_eq(chain, "BCH") {
        address_to_p2pkh_script("BCH", addr)
    } else if str_eq(chain, "DOGE") {
        address_to_p2pkh_script("DOGE", addr)
    } else {
        None
    }
}

/// Law: an address whose Base58Check decoding carries a 20-byte payload under
/// version 0x1e resolves for DOGE to the P2PKH script of that payload, and
/// the same payload under version 0x00 resolves for DOGE to absence.
pub proof fn lemma_doge_resolution(s: Seq<char>, ver: u8, payload: Seq<u8>)
    requires
        b58check_decode_spec(s) == Some((ver, payload)),
        payload.len() == 20,
    ensures
        ver == 0x1e ==> p2pkh_resolve_spec("DOGE"@, s) == Some(p2pkh_script_spec(payload)),
        ver == 0x00 ==> p2pkh_resolve_spec("DOGE"@, s) is None,
{
    reveal_strlit("BCH");
    reveal_strlit("BTC");
    reveal_strlit("DOGE");
    assert("BCH"@.len() == 3 && "BTC"@.len() == 3 && "DOGE"@.len() == 4);
}

/// Reverse a byte slice.
fn reverse_bytes(v: &[u8]) -> (r: Vec<u8>)
    ensures
        r@ == v@.reverse(),
{
    let n = v.len();
    let mut out: Vec<u8> = Vec::new();
    let mut i: usize = 0;
    while i < n
        invariant
            i <= n,
            n == v@.len(),
            out@.len() == i,
            forall|k: int| 0 <= k < i ==> out@[k] == v@[n - 1 - k],
        decreases n - i,
    {
        out.push(v[n - 1 - i]);
        i = i + 1;
    }
    proof {
        assert(out@ =~= v@.reverse());
    }
    out
}

/// The indexer lookup key for an output script: the SHA-256 digest of the
/// script, byte-reversed, in lowercase hexadecimal — always 64 characters,
/// and the same for identical scripts.
pub fn scripthash_hex(script_pubkey: &[u8]) -> (r: String)
    ensures
        r@ == hex_of(sha256_of(script_pubkey@).reverse()),
        r@.len() == 64,
{
    let digest = sha256(script_pubkey);
    let rev = reverse_bytes(digest.as_slice());
    hex_encode(rev.as_slice())
}

} // verus!
