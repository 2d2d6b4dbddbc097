use sha2::Digest;
use vision_market::base58::b58_payload;
use vision_market::base58::encode_base58check;
use vision_market::script::address_to_p2pkh_script;
use vision_market::script::address_to_script_any;
use vision_market::script::btc_address_to_script;
use vision_market::script::btc_address_to_script_mode;
use vision_market::script::p2pkh_script;
use vision_market::script::scripthash_hex;
use vision_market::script::segwit_script_v0;
use vision_market::script::DecodeMode;
use vision_market::segwit::bech32_witness_program_permissive;
use vision_market::segwit::bech32_witness_program_strict;
use vision_market::segwit::encode_segwit_v0;

#[test]
fn base58check_round_trip() {
    let payload: Vec<u8> = (1u8..=20u8).collect();
    for version in [0x00u8, 0x1eu8, 0x6fu8] {
        let s = encode_base58check(version, &payload);
        let decoded = b58_payload(&s).expect("valid encoding must decode");
        assert_eq!(decoded.0, version);
        assert_eq!(decoded.1, payload);
    }
}

#[test]
fn base58check_round_trip_short_payload() {
    let payload: Vec<u8> = vec![0xab];
    let s = encode_base58check(0x05, &payload);
    let decoded = b58_payload(&s).expect("valid encoding must decode");
    assert_eq!(decoded.0, 0x05);
    assert_eq!(decoded.1, payload);
}

#[test]
fn base58check_checksum_byte_flip_rejected() {
    let payload: Vec<u8> = (100u8..120u8).collect();
    let s = encode_base58check(0x00, &payload);
    let bytes = bs58::decode(&s).into_vec().expect("alphabet is valid");
    let n = bytes.len();
    for i in (n - 4)..n {
        let mut flipped = bytes.clone();
        flipped[i] = flipped[i].wrapping_add(1);
        let corrupted = bs58::encode(&flipped).into_string();
        assert!(
            b58_payload(&corrupted).is_none(),
            "flipping checksum byte {} must be rejected",
            i
        );
    }
}

#[test]
fn base58check_invalid_character_rejected() {
    // '0' and 'I' are outside the Base58 alphabet.
    assert!(b58_payload("0OIl").is_none());
    assert!(b58_payload("1Blt0").is_none());
}

#[test]
fn base58check_too_short_rejected() {
    // "2g" decodes to a single byte; anything under 5 bytes must be rejected.
    assert!(b58_payload("2g").is_none());
    assert!(b58_payload("").is_none());
}

#[test]
fn bech32_strict_round_trip_all_hrps() {
    let prog20: Vec<u8> = (10u8..30u8).collect();
    let mut prog32: Vec<u8> = (50u8..82u8).collect();
    prog32[0] = 0x99;
    for hrp in ["bc", "tb", "bcrt"] {
        for prog in [&prog20, &prog32] {
            let addr = encode_segwit_v0(hrp, prog, false).expect("encoding must succeed");
            let (ver, decoded) =
                bech32_witness_program_strict(&addr).expect("strict decode must succeed");
            assert_eq!(ver, 0);
            assert_eq!(&decoded, prog);
        }
    }
}

#[test]
fn bech32m_version0_rejected_by_strict_decode() {
    let prog20: Vec<u8> = (10u8..30u8).collect();
    let addr = encode_segwit_v0("bc", &prog20, true).expect("encoding must succeed");
    assert!(bech32_witness_program_strict(&addr).is_none());
}

#[test]
fn bech32_bad_program_length_rejected_by_strict_decode() {
    for len in [1usize, 19, 21, 31, 33, 40] {
        let prog: Vec<u8> = (0..len).map(|i| i as u8).collect();
        let addr = encode_segwit_v0("bc", &prog, false).expect("encoding must succeed");
        assert!(
            bech32_witness_program_strict(&addr).is_none(),
            "{}-byte program must be rejected",
            len
        );
    }
}

#[test]
fn bech32_foreign_hrp_rejected_by_strict_decode() {
    let prog20: Vec<u8> = (10u8..30u8).collect();
    let addr = encode_segwit_v0("ltc", &prog20, false).expect("encoding must succeed");
    assert!(bech32_witness_program_strict(&addr).is_none());
}

#[test]
fn bech32_known_vector_p2wpkh() {
    // BIP-173 test vector: P2WPKH on mainnet.
    let addr = "bc1qw508d6qejxtdg4y5r3zarvary0c5xw7kv8f3t4";
    let (ver, prog) = bech32_witness_program_strict(addr).expect("vector must decode");
    assert_eq!(ver, 0);
    let mut expected = Vec::new();
    expected.extend_from_slice(&[
        0x75, 0x1e, 0x76, 0xe8, 0x19, 0x91, 0x96, 0xd4, 0x54, 0x94, 0x1c, 0x45, 0xd1, 0xb3,
        0xa3, 0x23, 0xf1, 0x43, 0x3b, 0xd6,
    ]);
    assert_eq!(prog, expected);

    let script = btc_address_to_script(addr).expect("vector must resolve");
    let mut want = vec![0x00u8, 0x14u8];
    want.extend_from_slice(&expected);
    assert_eq!(script, want);

    // The uppercase form is equally valid Bech32.
    let upper = addr.to_uppercase();
    let (ver2, prog2) = bech32_witness_program_strict(&upper).expect("uppercase must decode");
    assert_eq!(ver2, 0);
    assert_eq!(prog2, expected);
}

#[test]
fn bech32_corrupted_checksum_rejected_strict_accepted_permissive() {
    let mut prog32: Vec<u8> = (1u8..33u8).collect();
    prog32[31] = 0x55;
    let addr = encode_segwit_v0("bc", &prog32, false).expect("encoding must succeed");
    // Replace the final checksum character with a different charset character.
    let last = addr.chars().last().unwrap();
    let replacement = if last == 'q' { 'p' } else { 'q' };
    let mut corrupted: String = addr[..addr.len() - 1].to_string();
    corrupted.push(replacement);

    assert!(bech32_witness_program_strict(&corrupted).is_none());
    let (ver, prog) =
        bech32_witness_program_permissive(&corrupted).expect("manual parse must succeed");
    assert_eq!(ver, 0);
    assert_eq!(prog, prog32);
}

#[test]
fn permissive_mode_resolves_corrupted_address_strict_does_not() {
    let prog20: Vec<u8> = (40u8..60u8).collect();
    let addr = encode_segwit_v0("bc", &prog20, false).expect("encoding must succeed");
    let last = addr.chars().last().unwrap();
    let replacement = if last == 'q' { 'p' } else { 'q' };
    let mut corrupted: String = addr[..addr.len() - 1].to_string();
    corrupted.push(replacement);

    assert!(btc_address_to_script_mode(&corrupted, DecodeMode::Strict).is_none());
    let script = btc_address_to_script_mode(&corrupted, DecodeMode::Permissive)
        .expect("permissive mode must resolve");
    let mut want = vec![0x00u8, 0x14u8];
    want.extend_from_slice(&prog20);
    assert_eq!(script, want);
}

#[test]
fn segwit_script_rejects_bad_program_lengths() {
    assert!(segwit_script_v0(&[0u8; 19]).is_none());
    assert!(segwit_script_v0(&[0u8; 21]).is_none());
    assert!(segwit_script_v0(&[0u8; 33]).is_none());
    assert!(segwit_script_v0(&[]).is_none());
    let s = segwit_script_v0(&[7u8; 32]).expect("32-byte program is valid");
    assert_eq!(s.len(), 34);
    assert_eq!(s[0], 0x00);
    assert_eq!(s[1], 32);
}

#[test]
fn btc_zero_payload_yields_exact_p2pkh_script() {
    let payload = [0u8; 20];
    let addr = encode_base58check(0x00, &payload);
    let script = btc_address_to_script(&addr).expect("legacy address must resolve");
    let mut want = vec![0x76u8, 0xa9u8, 0x14u8];
    want.extend_from_slice(&payload);
    want.push(0x88);
    want.push(0xac);
    assert_eq!(script, want);
    assert_eq!(script.len(), 25);
}

#[test]
fn p2pkh_script_template() {
    let hash160: Vec<u8> = (1u8..=20u8).collect();
    let s = p2pkh_script(&hash160);
    assert_eq!(s.len(), 25);
    assert_eq!(&s[0..3], &[0x76, 0xa9, 0x14]);
    assert_eq!(&s[3..23], hash160.as_slice());
    assert_eq!(&s[23..25], &[0x88, 0xac]);
}

#[test]
fn doge_version_accepted_wrong_version_rejected() {
    let payload: Vec<u8> = (200u8..220u8).collect();
    let doge_addr = encode_base58check(0x1e, &payload);
    let script = address_to_p2pkh_script("DOGE", &doge_addr).expect("DOGE address must resolve");
    let mut want = vec![0x76u8, 0xa9u8, 0x14u8];
    want.extend_from_slice(&payload);
    want.push(0x88);
    want.push(0xac);
    assert_eq!(script, want);

    let zero_addr = encode_base58check(0x00, &payload);
    assert!(address_to_p2pkh_script("DOGE", &zero_addr).is_none());
    // And the DOGE version is not accepted for the other chains.
    assert!(address_to_p2pkh_script("BTC", &doge_addr).is_none());
    assert!(address_to_p2pkh_script("BCH", &doge_addr).is_none());
}

#[test]
fn address_to_script_any_dispatch() {
    let payload = [3u8; 20];
    let btc_addr = encode_base58check(0x00, &payload);
    let doge_addr = encode_base58check(0x1e, &payload);
    assert!(address_to_script_any("BTC", &btc_addr).is_some());
    assert!(address_to_script_any("BCH", &btc_addr).is_some());
    assert!(address_to_script_any("DOGE", &doge_addr).is_some());
    assert!(address_to_script_any("DOGE", &btc_addr).is_none());
    assert!(address_to_script_any("LTC", &btc_addr).is_none());
    assert!(address_to_script_any("", &btc_addr).is_none());
}

#[test]
fn scripthash_is_reversed_sha256_hex() {
    let script = vec![0x76u8, 0xa9u8, 0x14u8, 0x88u8, 0xacu8];
    let got = scripthash_hex(&script);
    let digest = sha2::Sha256::digest(&script);
    let mut rev = digest.to_vec();
    rev.reverse();
    assert_eq!(got, hex::encode(rev));
    assert_eq!(got.len(), 64);
}

#[test]
fn scripthash_deterministic_and_64_chars() {
    let script = vec![0x00u8, 0x14u8, 0x11u8, 0x22u8];
    let a = scripthash_hex(&script);
    let b = scripthash_hex(&script);
    assert_eq!(a, b);
    assert_eq!(a.len(), 64);
    assert!(a.chars().all(|c| c.is_ascii_hexdigit()));
    let empty = scripthash_hex(&[]);
    assert_eq!(empty.len(), 64);
    assert_ne!(a, empty);
}
