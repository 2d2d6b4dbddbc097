use vstd::prelude::*;

use crate::hashes::str_eq;
use vstd::slice::slice_subrange;
use vstd::slice::slice_to_vec;

verus! {

/// The Bech32 (or Bech32m) rendering of a human-readable part and a sequence
/// of 5-bit data values: HRP, the separator '1', the data characters, and six
/// checksum characters. Abstract: the result depends on the arguments alone.
pub uninterp spec fn bech32_str_of(hrp: Seq<char>, data: Seq<u8>, bech32m: bool) -> Seq<char>;

/// What bech32::decode returns for a character sequence: the lowercased HRP,
/// the 5-bit data values with the checksum removed, and whether the Bech32m
/// checksum matched. Abstract: the result depends on the characters alone.
pub uninterp spec fn bech32_decode_of(s: Seq<char>) -> Option<(Seq<char>, Seq<u8>, bool)>;

/// What bech32::convert_bits returns: the input values regrouped from `from`
/// bits each to `to` bits each, or absence when a value is out of range or,
/// without padding, the leftover bits are invalid. Abstract.
pub uninterp spec fn convert_bits_of(data: Seq<u8>, from: u32, to: u32, pad: bool) -> Option<
    Seq<u8>,
>;

/// Every value is a valid 5-bit group.
pub open spec fn is_u5_seq(d: Seq<u8>) -> bool {
    forall|i: int| 0 <= i < d.len() ==> d[i] < 32
}

/// A human-readable part that bech32 encodes verbatim: 1 to 83 characters,
/// each in the ASCII range 33..=126, none of them an uppercase letter.
pub open spec fn valid_hrp(h: Seq<char>) -> bool {
    &&& 1 <= h.len() <= 83
    &&& forall|i: int|
        0 <= i < h.len() ==> 33 <= (#[trigger] h[i]) as u32 <= 126 && !('A' <= h[i] && h[i] <= 'Z')
}

/// The BTC-family prefixes accepted by the strict decoder.
pub open spec fn btc_hrp(h: Seq<char>) -> bool {
    h == "bc"@ || h == "tb"@ || h == "bcrt"@
}

/// Relies on bech32::decode: the result depends on the characters alone; on
/// success the data values are 5-bit groups with the checksum stripped and
/// the flag says whether the Bech32m checksum matched.
#[verifier::external_body]
fn bech32_decode_raw(s: &str) -> (r: Option<(String, Vec<u8>, bool)>)
    ensures
        match r {
            Some(t) => bech32_decode_of(s@) == Some((t.0@, t.1@, t.2)) && is_u5_seq(t.1@),
            None => bech32_decode_of(s@) is None,
        },
{
    match bech32::decode(s) {
        Err(_) => None,
        Ok((hrp, data, variant)) => Some((
            hrp,
            data.iter().map(|u| u.to_u8()).collect(),
            matches!(variant, bech32::Variant::Bech32m),
        )),
    }
}

/// Relies on bech32::encode: for a valid lowercase HRP and 5-bit data it
/// succeeds, the rendering depends on the arguments alone, and bech32::decode
/// maps the rendering back to exactly those parts (the checksum written by
/// the chosen variant is the one that verifies).
#[verifier::external_body]
fn bech32_encode_raw(hrp: &str, data: &[u8], bech32m: bool) -> (r: Option<String>)
    ensures
        match r {
            Some(s) => valid_hrp(hrp@) && is_u5_seq(data@) ==> s@ == bech32_str_of(
                hrp@,
                data@,
                bech32m,
            ) && bech32_decode_of(s@) == Some((hrp@, data@, bech32m)),
            None => !(valid_hrp(hrp@) && is_u5_seq(data@)),
        },
{
    let mut u5s: Vec<bech32::u5> = Vec::with_capacity(data.len());
    for b in data {
        u5s.push(bech32::u5::try_from_u8(*b).ok()?);
    }
    let variant = if bech32m {
        bech32::Variant::Bech32m
    } else {
        bech32::Variant::Bech32
    };
    bech32::encode(hrp, &u5s, variant).ok()
}

/// Relies on bech32::convert_bits: the regrouping depends on the arguments
/// alone; regrouping bytes into padded 5-bit groups always succeeds, and
/// regrouping those groups back strictly returns the input bytes. With
/// padding the only failure is an input value outside its bit width, so
/// regrouping 5-bit values into bytes with padding always succeeds.
#[verifier::external_body]
fn convert_bits_exec(data: &[u8], from: u32, to: u32, pad: bool) -> (r: Option<Vec<u8>>)
    requires
        1 <= from <= 8,
        1 <= to <= 8,
    ensures
        match r {
            Some(v) => convert_bits_of(data@, from, to, pad) == Some(v@),
            None => convert_bits_of(data@, from, to, pad) is None,
        },
        match r {
            Some(g) => from == 8 && to == 5 && pad ==> is_u5_seq(g@) && convert_bits_of(
                g@,
                5,
                8,
                false,
            ) == Some(data@),
            None => !(from == 8 && to == 5 && pad),
        },
        match r {
            Some(v) => true,
            None => !(from == 5 && pad && is_u5_seq(data@)),
        },
{
    bech32::convert_bits(data, from, to, pad).ok()
}

/// What str::trim returns. Abstract: it depends on the characters alone.
pub uninterp spec fn trim_of(s: Seq<char>) -> Seq<char>;

/// Relies on str::trim: the result depends on the characters alone.
#[verifier::external_body]
fn str_trim(s: &str) -> (r: String)
    ensures
        r@ == trim_of(s@),
{
    s.trim().to_owned()
}

/// Relies on str::chars: the characters of a string, in order; this is the
/// string's view itself.
#[verifier::external_body]
fn chars_vec(s: &str) -> (r: Vec<char>)
    ensures
        r@ == s@,
{
    s.chars().collect()
}

/// The strict segwit decode: BTC-family HRP only, witness version 0 only,
/// plain Bech32 checksum only, a bit regrouping that tolerates no leftover
/// padding, and a program of exactly 20 or 32 bytes.
pub open spec fn strict_segwit_spec(s: Seq<char>) -> Option<(u8, Seq<u8>)> {
    match bech32_decode_of(s) {
        None => None,
        Some((hrp, data, m)) => if !btc_hrp(hrp) {
            None
        } else if data.len() == 0 {
            None
        } else if data[0] != 0 || m {
            None
        } else {
            match convert_bits_of(data.skip(1), 5, 8, false) {
                None => None,
                Some(p) => if p.len() == 20 || p.len() == 32 {
                    Some((0u8, p))
                } else {
                    None
                },
            }
        },
    }
}

/// Decode a Bech32 segwit address under the strict policy: accept only the
/// HRPs "bc", "tb" and "bcrt", witness version 0, the plain Bech32 checksum
/// variant, zero leftover padding bits, and a program of 20 or 32 bytes.
pub fn bech32_witness_program_strict(addr: &str) -> (r: Option<(u8, Vec<u8>)>)
    ensures
        match r {
            Some(t) => strict_segwit_spec(addr@) == Some((t.0, t.1@)) && t.0 == 0 && (t.1@.len()
                == 20 || t.1@.len() == 32),
            None => strict_segwit_spec(addr@) is None,
        },
{
    match bech32_decode_raw(addr) {
        None => None,
        Some((hrp, data, bech32m)) => {
            let is_btc = str_eq(hrp.as_str(), "bc") || str_eq(hrp.as_str(), "tb") || str_eq(
                hrp.as_str(),
                "bcrt",
            );
            if !is_btc {
                return None;
            }
            if data.len() == 0 {
                return None;
            }
            let ver = data[0];
            if ver != 0 || bech32m {
                return None;
            }
            let rest = slice_subrange(data.as_slice(), 1, data.len());
            proof {
                assert(rest@ =~= data@.skip(1));
            }
            match convert_bits_exec(rest, 5, 8, false) {
                None => None,
                Some(program) => {
                    if program.len() == 20 || program.len() == 32 {
                        Some((ver, program))
                    } else {
                        None
                    }
                },
            }
        },
    }
}

/// The value of a character in the Bech32 data charset
/// "qpzry9x8gf2tvdw0s3jn54khce6mua7l"; absence for any other character.
pub open spec fn bech32_char_val(c: char) -> Option<u8> {
    if c == 'q' {
        Some(0u8)
    } else if c == 'p' {
        Some(1u8)
    } else if c == 'z' {
        Some(2u8)
    } else if c == 'r' {
        Some(3u8)
    } else if c == 'y' {
        Some(4u8)
    } else if c == '9' {
        Some(5u8)
    } else if c == 'x' {
        Some(6u8)
    } else if c == '8' {
        Some(7u8)
    } else if c == 'g' {
        Some(8u8)
    } else if c == 'f' {
        Some(9u8)
    } else if c == '2' {
        Some(10u8)
    } else if c == 't' {
        Some(11u8)
    } else if c == 'v' {
        Some(12u8)
    } else if c == 'd' {
        Some(13u8)
    } else if c == 'w' {
        Some(14u8)
    } else if c == '0' {
        Some(15u8)
    } else if c == 's' {
        Some(16u8)
    } else if c == '3' {
        Some(17u8)
    } else if c == 'j' {
        Some(18u8)
    } else if c == 'n' {
        Some(19u8)
    } else if c == '5' {
        Some(20u8)
    } else if c == '4' {
        Some(21u8)
    } else if c == 'k' {
        Some(22u8)
    } else if c == 'h' {
        Some(23u8)
    } else if c == 'c' {
        Some(24u8)
    } else if c == 'e' {
        Some(25u8)
    } else if c == '6' {
        Some(26u8)
    } else if c == 'm' {
        Some(27u8)
    } else if c == 'u' {
        Some(28u8)
    } else if c == 'a' {
        Some(29u8)
    } else if c == '7' {
        Some(30u8)
    } else if c == 'l' {
        Some(31u8)
    } else {
        None
    }
}

/// Every character lies in the Bech32 data charset.
pub open spec fn charset_ok(s: Seq<char>) -> bool {
    forall|i: int| 0 <= i < s.len() ==> (#[trigger] bech32_char_val(s[i])) is Some
}

/// The charset values of a character sequence, assuming all lie in the charset.
pub open spec fn charset_vals(s: Seq<char>) -> Seq<u8> {
    Seq::new(
        s.len(),
        |i: int|
            match bech32_char_val(s[i]) {
                Some(v) => v,
                None => 0u8,
            },
    )
}

/// The charset value of one character.
fn bech32_char_value(c: char) -> (r: Option<u8>)
    ensures
        r == bech32_char_val(c),
{
    match c {
        'q' => Some(0u8),
        'p' => Some(1u8),
        'z' => Some(2u8),
        'r' => Some(3u8),
        'y' => Some(4u8),
        '9' => Some(5u8),
        'x' => Some(6u8),
        '8' => Some(7u8),
        'g' => Some(8u8),
        'f' => Some(9u8),
        '2' => Some(10u8),
        't' => Some(11u8),
        'v' => Some(12u8),
        'd' => Some(13u8),
        'w' => Some(14u8),
        '0' => Some(15u8),
        's' => Some(16u8),
        '3' => Some(17u8),
        'j' => Some(18u8),
        'n' => Some(19u8),
        '5' => Some(20u8),
        '4' => Some(21u8),
        'k' => Some(22u8),
        'h' => Some(23u8),
        'c' => Some(24u8),
        'e' => Some(25u8),
        '6' => Some(26u8),
        'm' => Some(27u8),
        'u' => Some(28u8),
        'a' => Some(29u8),
        '7' => Some(30u8),
        'l' => Some(31u8),
        _ => None,
    }
}

/// The position of the last separator character '1', if any.
pub open spec fn rfind_sep(s: Seq<char>) -> Option<int>
    decreases s.len(),
{
    if s.len() == 0 {
        None
    } else if s[s.len() - 1] == '1' {
        Some(s.len() - 1)
    } else {
        rfind_sep(s.take(s.len() - 1))
    }
}

/// Find the last '1' in a character sequence.
fn rfind_one(chars: &Vec<char>) -> (r: Option<usize>)
    ensures
        match r {
            Some(p) => rfind_sep(chars@) == Some(p as int) && p < chars@.len(),
            None => rfind_sep(chars@) is None,
        },
{
    let mut j: usize = chars.len();
    proof {
        assert(chars@.take(chars@.len() as int) =~= chars@);
    }
    while j > 0
        invariant
            j <= chars@.len(),
            rfind_sep(chars@) == rfind_sep(chars@.take(j as int)),
        decreases j,
    {
        if chars[j - 1] == '1' {
            proof {
                let t = chars@.take(j as int);
                assert(t[t.len() - 1] == chars@[j - 1]);
                assert(rfind_sep(t) == Some(j - 1));
            }
            return Some(j - 1);
        }
        j = j - 1;
        proof {
            let t = chars@.take(j + 1);
            assert(t[t.len() - 1] == chars@[j as int]);
            assert(t.take(t.len() - 1) =~= chars@.take(j as int));
        }
    }
    proof {
        assert(chars@.take(0) =~= Seq::<char>::empty());
    }
    None
}

/// The heuristic trim of a 33-byte program down to 32 bytes: drop a leading
/// zero byte, else a trailing zero byte, else the leading byte. Programs of
/// any other length pass through unchanged.
pub open spec fn trim33_spec(p: Seq<u8>) -> Seq<u8> {
    if p.len() == 33 {
        if p[0] == 0 {
            p.skip(1)
        } else if p[32] == 0 {
            p.take(32)
        } else {
            p.skip(1)
        }
    } else {
        p
    }
}

/// The manual relaxed parse of trimmed address text: split at the last '1',
/// map the remainder through the Bech32 charset, strip six presumed checksum
/// characters unchecked, regroup with padding tolerance, and apply the
/// 33-byte trim heuristic. No checksum is verified on this path.
pub open spec fn manual_fallback_spec(t: Seq<char>) -> Option<(u8, Seq<u8>)> {
    match rfind_sep(t) {
        None => None,
        Some(pos) => {
            let data_part = t.skip(pos + 1);
            if data_part.len() < 7 {
                None
            } else if !charset_ok(data_part) {
                None
            } else {
                let u5s = charset_vals(data_part);
                let nocheck = u5s.take(u5s.len() - 6);
                match convert_bits_of(nocheck.skip(1), 5, 8, true) {
                    None => None,
                    Some(p) => Some((nocheck[0], trim33_spec(p))),
                }
            }
        },
    }
}

/// The permissive segwit decode: a canonical decode with padding-tolerant
/// regrouping, falling back to the manual parse that skips checksum
/// verification. Any HRP and either checksum variant is accepted.
pub open spec fn permissive_segwit_spec(s: Seq<char>) -> Option<(u8, Seq<u8>)> {
    match bech32_decode_of(s) {
        Some((hrp, data, m)) => if data.len() == 0 {
            None
        } else {
            match convert_bits_of(data.skip(1), 5, 8, true) {
                Some(p) => Some((data[0], p)),
                None => manual_fallback_spec(trim_of(s)),
            }
        },
        None => manual_fallback_spec(trim_of(s)),
    }
}

/// The manual relaxed parse; see manual_fallback_spec.
fn manual_fallback(addr: &str) -> (r: Option<(u8, Vec<u8>)>)
    ensures
        match r {
            Some(t) => manual_fallback_spec(trim_of(addr@)) == Some((t.0, t.1@)),
            None => manual_fallback_spec(trim_of(addr@)) is None,
        },
{
    let trimmed = str_trim(addr);
    let chars = chars_vec(trimmed.as_str());
    let n = chars.len();
    match rfind_one(&chars) {
        None => None,
        Some(pos) => {
            let ghost data_part = chars@.skip(pos + 1);
            if n - pos - 1 < 7 {
                return None;
            }
            let mut u5s: Vec<u8> = Vec::new();
            let mut i: usize = pos + 1;
            while i < n
                invariant
                    pos + 1 <= i <= n,
                    n == chars@.len(),
                    chars@ == trim_of(addr@),
                    rfind_sep(chars@) == Some(pos as int),
                    n - pos - 1 >= 7,
                    data_part == chars@.skip(pos + 1),
                    charset_ok(data_part.take(i - pos - 1)),
                    u5s@ == charset_vals(data_part.take(i - pos - 1)),
                decreases n - i,
            {
                match bech32_char_value(chars[i]) {
                    None => {
                        proof {
                            assert(data_part[i - pos - 1] == chars@[i as int]);
                            assert(bech32_char_val(data_part[i - pos - 1]) is None);
                            assert(!charset_ok(data_part));
                        }
                        return None;
                    },
                    Some(v) => {
                        u5s.push(v);
                    },
                }
                i = i + 1;
                proof {
                    let k = i - pos - 2;
                    assert(data_part.take(k + 1) =~= data_part.take(k) + seq![data_part[k]]);
                    assert(data_part[k] == chars@[i - 1]);
                    assert(u5s@ =~= charset_vals(data_part.take(k + 1)));
                }
            }
            proof {
                assert(data_part.take(data_part.len() as int) =~= data_part);
                assert(charset_ok(data_part));
                assert(u5s@ == charset_vals(data_part));
                assert(u5s@.len() >= 7);
            }
            let m = u5s.len() - 6;
            let ver = u5s[0];
            let prog5 = slice_subrange(u5s.as_slice(), 1, m);
            proof {
                let nocheck = charset_vals(data_part).take(m as int);
                assert(prog5@ =~= nocheck.skip(1));
                assert(ver == nocheck[0]);
            }
            match convert_bits_exec(prog5, 5, 8, true) {
                None => None,
                Some(program) => Some((ver, trim_33(program))),
            }
        },
    }
}

/// Apply the 33-byte trim heuristic; see trim33_spec.
fn trim_33(program: Vec<u8>) -> (r: Vec<u8>)
    ensures
        r@ == trim33_spec(program@),
{
    if program.len() == 33 {
        if program[0] == 0 {
            let r = slice_to_vec(slice_subrange(program.as_slice(), 1, 33));
            proof {
                assert(r@ =~= program@.skip(1));
            }
            r
        } else if program[32] == 0 {
            let ghost orig = program@;
            let mut p = program;
            p.truncate(32);
            proof {
                assert(p@ == orig.take(32));
            }
            p
        } else {
            let r = slice_to_vec(slice_subrange(program.as_slice(), 1, 33));
            proof {
                assert(r@ =~= program@.skip(1));
            }
            r
        }
    } else {
        program
    }
}

/// Decode a Bech32 segwit address permissively: canonical decode with
/// padding tolerance first, then the manual parse that forgoes checksum
/// verification. Meant only for an explicitly opted-in development
/// configuration; the strict decoder is the default.
pub fn bech32_witness_program_permissive(addr: &str) -> (r: Option<(u8, Vec<u8>)>)
    ensures
        match r {
            Some(t) => permissive_segwit_spec(addr@) == Some((t.0, t.1@)),
            None => permissive_segwit_spec(addr@) is None,
        },
{
    match bech32_decode_raw(addr) {
        Some((hrp, data, bech32m)) => {
            if data.len() == 0 {
                return None;
            }
            let rest = slice_subrange(data.as_slice(), 1, data.len());
            proof {
                assert(rest@ =~= data@.skip(1));
            }
            let ver = data[0];
            match convert_bits_exec(rest, 5, 8, true) {
                Some(program) => Some((ver, program)),
                None => manual_fallback(addr),
            }
        },
        None => manual_fallback(addr),
    }
}

/// Encode a witness program as a version-0 segwit address, with either
/// checksum variant. For a valid lowercase HRP the contract states the
/// decode laws: with the plain Bech32 checksum, a BTC-family HRP and a 20-
/// or 32-byte program, the strict decode returns version 0 and the same
/// program (round trip); any other program length, or the Bech32m checksum,
/// makes the strict decode reject the address.
pub fn encode_segwit_v0(hrp: &str, program: &[u8], bech32m: bool) -> (r: Option<String>)
    ensures
        valid_hrp(hrp@) ==> (r matches Some(s) && (match convert_bits_of(program@, 8, 5, true) {
            Some(g) => {
                &&& s@ == bech32_str_of(hrp@, seq![0u8] + g, bech32m)
                &&& ((!bech32m && btc_hrp(hrp@) && (program@.len() == 20 || program@.len() == 32))
                    ==> strict_segwit_spec(s@) == Some((0u8, program@)))
                &&& ((!bech32m && btc_hrp(hrp@) && !(program@.len() == 20 || program@.len() == 32))
                    ==> strict_segwit_spec(s@) is None)
                &&& (bech32m ==> strict_segwit_spec(s@) is None)
            },
            None => false,
        })),
{
    let groups = convert_bits_exec(program, 8, 5, true);
    match groups {
        None => None,
        Some(g) => {
            let mut data: Vec<u8> = Vec::new();
            data.push(0u8);
            let mut i: usize = 0;
            while i < g.len()
                invariant
                    i <= g@.len(),
                    data@ == seq![0u8] + g@.take(i as int),
                decreases g@.len() - i,
            {
                data.push(g[i]);
                i = i + 1;
                proof {
                    assert(g@.take(i as int) =~= g@.take(i - 1) + seq![g@[i - 1]]);
                }
            }
            proof {
                assert(g@.take(g@.len() as int) =~= g@);
                assert(data@ =~= seq![0u8] + g@);
            }
            let r = bech32_encode_raw(hrp, data.as_slice(), bech32m);
            proof {
                if valid_hrp(hrp@) {
                    assert(is_u5_seq(data@));
                    let s = r->Some_0@;
                    assert(bech32_decode_of(s) == Some((hrp@, data@, bech32m)));
                    assert((seq![0u8] + g@).skip(1) =~= g@);
                }
            }
            r
        },
    }
}

} // verus!
