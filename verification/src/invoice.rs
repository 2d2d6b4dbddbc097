use vstd::prelude::*;

use crate::hashes::hex_of;
use crate::hashes::lower_of;
use crate::hashes::sha256;
use crate::hashes::sha256_of;
use crate::hashes::to_lowercase;
use vstd::slice::slice_subrange;
use vstd::string::StrSliceExecFns;
use vstd::string::StringExecFns;
use vstd::string::StringSliceAdditionalSpecFns;

verus! {

/// The bytes hashed for a deposit tag: the UTF-8 bytes of chain, order id and
/// seed, joined by ':' (byte 58).
pub open spec fn invoice_preimage_spec(chain: &str, listing_id: &str, seed: &str) -> Seq<u8> {
    chain.spec_bytes() + seq![58u8] + listing_id.spec_bytes() + seq![58u8] + seed.spec_bytes()
}

/// The deterministic deposit tag for an order on a chain: the lowercased
/// chain name, an underscore, and the first 16 hexadecimal characters of
/// SHA256("{chain}:{listing_id}:{seed}"). This is an identifier, not a
/// spendable chain address.
pub fn generate_invoice_address(chain: &str, listing_id: &str, seed: &str) -> (r: String)
    ensures
        r@ == lower_of(chain@) + seq!['_'] + hex_of(
            sha256_of(invoice_preimage_spec(chain, listing_id, seed)).take(8),
        ),
{
    let mut preimage: Vec<u8> = chain.as_bytes_vec();
    preimage.push(58);
    let mut id_bytes: Vec<u8> = listing_id.as_bytes_vec();
    preimage.append(&mut id_bytes);
    preimage.push(58);
    let mut seed_bytes: Vec<u8> = seed.as_bytes_vec();
    preimage.append(&mut seed_bytes);
    proof {
        assert(preimage@ =~= invoice_preimage_spec(chain, listing_id, seed));
    }
    let digest = sha256(preimage.as_slice());
    let head = slice_subrange(digest.as_slice(), 0, 8);
    proof {
        assert(head@ =~= sha256_of(invoice_preimage_spec(chain, listing_id, seed)).take(8));
    }
    let tag = crate::hashes::hex_encode(head);
    let mut out = to_lowercase(chain);
    out.append("_");
    out.append(tag.as_str());
    proof {
        reveal_strlit("_");
        assert(out@ =~= lower_of(chain@) + seq!['_'] + hex_of(
            sha256_of(invoice_preimage_spec(chain, listing_id, seed)).take(8),
        ));
    }
    out
}

} // verus!
