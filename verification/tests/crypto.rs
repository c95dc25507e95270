use tinybrowser::crypto::{
    random_bytes, report_cbc, report_gcm, report_random, subtle_aes_cbc, subtle_aes_ctr,
    subtle_aes_gcm, subtle_digest, subtle_hkdf, subtle_hmac, subtle_pbkdf2,
};

fn hex(bytes: &[u8]) -> String {
    bytes.iter().map(|b| format!("{b:02x}")).collect()
}

#[test]
fn digests_match_their_standards() {
    assert_eq!(hex(&subtle_digest("SHA-1", b"abc")), "a9993e364706816aba3e25717850c26c9cd0d89d");
    assert_eq!(
        hex(&subtle_digest("sha-256", b"abc")),
        "ba7816bf8f01cfea414140de5dae2223b00361a396177a9cb410ff61f20015ad"
    );
    assert_eq!(
        hex(&subtle_digest("SHA-384", b"abc")),
        "cb00753f45a35e8bb5a03d699ac65007272c32ab0eded1631a8b605a43ff5bed8086072ba1e7cc2358baeca134c825a7"
    );
    assert_eq!(
        hex(&subtle_digest("SHA-512", b"abc")),
        "ddaf35a193617abacc417349ae20413112e6fa4e89a97ea20a9eeee64b55d39a2192992a274fc1a836ba3c23a3feebbd454d4423643ce80e2a9ac94fa54ca49f"
    );
    assert_eq!(
        hex(&subtle_digest("SHA-512/224", b"abc")),
        "4634270f707b6a54daae7530460842e20e37ed265ceee9a43e8924aa"
    );
    assert_eq!(
        hex(&subtle_digest("SHA-512/256", b"abc")),
        "53048e2681941ef99b2e29b76b4c7dabe4c2d0c634fc6d46e0e2f13107e7af23"
    );
    assert!(subtle_digest("MD5", b"abc").is_empty());
}

#[test]
fn macs_match_their_standards() {
    let key = b"key";
    let data = b"The quick brown fox jumps over the lazy dog";
    assert_eq!(
        hex(&subtle_hmac("SHA-1", key, data).unwrap()),
        "de7c9b85b8b78aa6bc8a7a36f70a90701c9db4d9"
    );
    assert_eq!(
        hex(&subtle_hmac("SHA-256", key, data).unwrap()),
        "f7bc83f430538424b13298e6aa6fb143ef4d59a14946175997479dbc2d1a3cd8"
    );
    assert_eq!(
        hex(&subtle_hmac("SHA-384", key, data).unwrap()),
        "d7f4727e2c0b39ae0f1e40cc96f60242d5b7801841cea6fc592c5d3e1ae50700582a96cf35e1e554995fe4e03381c237"
    );
    assert_eq!(
        hex(&subtle_hmac("SHA-512", key, data).unwrap()),
        "b42af09057bac1e2d41708e48a902e09b5ff7f12ab428a4fe86653c73dd248fb82f948a549f7b791a5b41915ee4d1ec3935357e4e2317250d0372afa2ebeeb3a"
    );
    assert_eq!(subtle_hmac("MD5", key, data).unwrap_err(), "unsupported HMAC hash");
}

#[test]
fn gcm_seals_opens_and_refuses() {
    let iv = [7u8; 12];
    for length in [16usize, 24, 32] {
        let key = vec![3u8; length];
        let sealed = subtle_aes_gcm(true, &key, &iv, b"aad", b"secret").unwrap();
        assert_eq!(sealed.len(), 22);
        assert_ne!(&sealed[..6], b"secret");
        assert_eq!(subtle_aes_gcm(false, &key, &iv, b"aad", &sealed).unwrap(), b"secret");
        assert_eq!(
            subtle_aes_gcm(false, &key, &iv, b"other", &sealed).unwrap_err(),
            "AES-GCM decryption failed: authentication tag mismatch"
        );
    }
    assert_eq!(
        hex(&subtle_aes_gcm(true, &[0u8; 16], &[0u8; 12], b"", b"").unwrap()),
        "58e2fccefa7e3061367f1d57a4e7455a"
    );
    assert_eq!(
        subtle_aes_gcm(true, &[0u8; 16], &[0u8; 16], b"", b"").unwrap_err(),
        "AES-GCM requires a 96-bit (12-byte) IV"
    );
    assert_eq!(
        subtle_aes_gcm(true, &[0u8; 20], &[0u8; 12], b"", b"").unwrap_err(),
        "AES-GCM key must be 128, 192, or 256 bits"
    );
}

#[test]
fn fallible_op_errors_throw_into_js() {
    assert!(subtle_aes_gcm(true, &[], &[0u8; 12], &[], &[]).is_err());
}

#[test]
fn cbc_pads_and_unpads() {
    let iv = [9u8; 16];
    for length in [16usize, 24, 32] {
        let key = vec![5u8; length];
        let sealed = subtle_aes_cbc(true, &key, &iv, b"0123456789abcdef").unwrap();
        assert_eq!(sealed.len(), 32);
        assert_eq!(subtle_aes_cbc(false, &key, &iv, &sealed).unwrap(), b"0123456789abcdef");
    }
    let key = [5u8; 16];
    assert_eq!(
        subtle_aes_cbc(false, &key, &iv, b"short").unwrap_err(),
        "AES-CBC decryption failed: invalid padding"
    );
    assert_eq!(
        subtle_aes_cbc(true, &key, &iv[..8], b"x").unwrap_err(),
        "AES-CBC requires a 16-byte IV"
    );
    assert_eq!(
        subtle_aes_cbc(true, &key[..8], &iv, b"x").unwrap_err(),
        "AES-CBC key must be 128, 192, or 256 bits"
    );
}

#[test]
fn ctr_undoes_itself() {
    let counter = [0xffu8; 16];
    for length in [16usize, 24, 32] {
        let key = vec![1u8; length];
        let mut results = vec![];
        for width in [32u32, 64, 128] {
            let data = vec![0x55u8; 40];
            let once = subtle_aes_ctr(&key, &counter, width, &data).unwrap();
            assert_ne!(once, data);
            assert_eq!(subtle_aes_ctr(&key, &counter, width, &once).unwrap(), data);
            results.push(once);
        }
        // the counter wraps within its width
        assert_ne!(results[0], results[1]);
        assert_ne!(results[1], results[2]);
    }
    assert_eq!(
        subtle_aes_ctr(&[0u8; 16], &counter[..4], 64, b"x").unwrap_err(),
        "AES-CTR requires a 16-byte counter block"
    );
    assert_eq!(
        subtle_aes_ctr(&[0u8; 16], &counter, 16, b"x").unwrap_err(),
        "AES-CTR supports counter lengths of 32, 64, or 128 bits"
    );
    assert_eq!(
        subtle_aes_ctr(&[0u8; 3], &counter, 64, b"x").unwrap_err(),
        "AES-CTR key must be 128, 192, or 256 bits"
    );
}

#[test]
fn passwords_derive_keys() {
    assert_eq!(
        hex(&subtle_pbkdf2("SHA-1", b"password", b"salt", 1, 20).unwrap()),
        "0c60c80f961f0e71f3a9b524af6012062fe037a6"
    );
    assert_eq!(
        hex(&subtle_pbkdf2("SHA-256", b"password", b"salt", 1, 32).unwrap()),
        "120fb6cffcf8b32c43e7225256c4f837a86548c92ccc35480805987cb70be17b"
    );
    let a = subtle_pbkdf2("SHA-384", b"password", b"salt", 2, 16).unwrap();
    let b = subtle_pbkdf2("SHA-512", b"password", b"salt", 2, 16).unwrap();
    assert_eq!(a.len(), 16);
    assert_ne!(a, b);
    assert_eq!(
        subtle_pbkdf2("MD5", b"password", b"salt", 1, 8).unwrap_err(),
        "unsupported PBKDF2 hash"
    );
}

#[test]
fn key_material_derives_keys() {
    let ikm = [0x0bu8; 22];
    let salt: Vec<u8> = (0..13).collect();
    let info: Vec<u8> = (0xf0..0xfa).collect();
    assert_eq!(
        hex(&subtle_hkdf("SHA-256", &ikm, &salt, &info, 42).unwrap()),
        "3cb25f25faacd57a90434f64d0362f2a2d2d0a90cf1a5a4c5db02d56ecc4c5bf34007208d5b887185865"
    );
    for (hash, longest) in [("SHA-1", 5100), ("SHA-256", 8160), ("SHA-384", 12240), ("SHA-512", 16320)] {
        assert_eq!(subtle_hkdf(hash, &ikm, &salt, &info, longest).unwrap().len(), longest as usize);
        assert_eq!(
            subtle_hkdf(hash, &ikm, &salt, &info, longest + 1).unwrap_err(),
            "HKDF: requested key length is too long"
        );
    }
    assert_eq!(
        subtle_hkdf("MD5", &ikm, &salt, &info, 1).unwrap_err(),
        "unsupported HKDF hash"
    );
}

#[test]
fn random_bytes_have_their_length() {
    assert_eq!(random_bytes(8).unwrap().len(), 8);
    assert!(random_bytes(0).unwrap().is_empty());
    assert_ne!(random_bytes(32).unwrap(), vec![0u8; 32]);
    assert_eq!(report_random(Ok(vec![1])).unwrap(), vec![1]);
    assert_eq!(
        report_random(Err("no entropy".to_string())).unwrap_err(),
        "getrandom failed: no entropy"
    );
}

#[test]
fn cipher_results_are_reported() {
    assert_eq!(report_gcm(true, Some(vec![1])).unwrap(), vec![1]);
    assert_eq!(report_gcm(true, None).unwrap_err(), "AES-GCM encryption failed");
    assert_eq!(
        report_gcm(false, None).unwrap_err(),
        "AES-GCM decryption failed: authentication tag mismatch"
    );
    assert_eq!(report_cbc(None).unwrap_err(), "AES-CBC decryption failed: invalid padding");
}
