use candadolib::codec::{frame_blob, parse_blob};
use candadolib::encryption::{
    lanes_allowed, open_blob, seal_blob, seal_vault, throttle, verify_secret, Encrypter,
};
use candadolib::keyfile::Keyfile;
use candadolib::text::{append_bytes, find_first, slice_to_owned, split_once};
use candadolib::VaultError;

fn fresh_vault(master: &str) -> (Vec<u8>, Encrypter) {
    let keyfile = Encrypter::init(master, false).unwrap();
    let vault = Encrypter::unlock(master, Some(&keyfile)).unwrap();
    (keyfile, vault)
}

#[test]
fn encrypt_then_decrypt_gives_the_text_back() {
    let (_, vault) = fresh_vault("Tr0ub4dor");
    for text in ["", "hunter2", "a:b c", "pässwörd ✓", "line\nbreak"] {
        let blob = vault.encrypt(text).unwrap();
        assert_eq!(vault.decrypt(&blob).unwrap(), text);
    }
}

#[test]
fn a_blob_is_two_base64_texts_with_a_colon() {
    let (_, vault) = fresh_vault("Tr0ub4dor");
    let blob = vault.encrypt("hunter2").unwrap();
    let text = String::from_utf8(blob.clone()).unwrap();
    let (nonce, sealed) = text.split_once(':').unwrap();
    // 12 bytes of nonce, 7 of plaintext and 16 of tag
    assert_eq!(nonce.len(), 16);
    assert_eq!(sealed.len(), 32);
    assert_ne!(sealed.as_bytes(), b"hunter2");
    let (n, s) = parse_blob(&blob).unwrap();
    assert_eq!(n.len(), 12);
    assert_eq!(s.len(), 7 + 16);
}

#[test]
fn encrypting_twice_gives_different_blobs() {
    let (_, vault) = fresh_vault("Tr0ub4dor");
    let first = vault.encrypt("same text").unwrap();
    let second = vault.encrypt("same text").unwrap();
    assert_ne!(first, second);
    assert_eq!(vault.decrypt(&first).unwrap(), "same text");
    assert_eq!(vault.decrypt(&second).unwrap(), "same text");
}

#[test]
fn a_flipped_byte_makes_decrypt_fail() {
    let (_, vault) = fresh_vault("Tr0ub4dor");
    let blob = vault.encrypt("correct horse battery staple").unwrap();
    for at in 0..blob.len() {
        let mut tampered = blob.clone();
        tampered[at] ^= 0x01;
        assert_eq!(vault.decrypt(&tampered), Err(VaultError::Decrypt), "byte {}", at);
    }
}

#[test]
fn a_truncated_blob_makes_decrypt_fail() {
    let (_, vault) = fresh_vault("Tr0ub4dor");
    let blob = vault.encrypt("correct horse").unwrap();
    for len in 0..blob.len() {
        assert_eq!(vault.decrypt(&blob[..len]), Err(VaultError::Decrypt), "length {}", len);
    }
}

#[test]
fn a_blob_of_another_vault_makes_decrypt_fail() {
    let (_, vault) = fresh_vault("Tr0ub4dor");
    let (_, other) = fresh_vault("Tr0ub4dor");
    let blob = other.encrypt("secret").unwrap();
    assert_eq!(vault.decrypt(&blob), Err(VaultError::Decrypt));
}

#[test]
fn decrypt_refuses_what_is_no_blob() {
    let (_, vault) = fresh_vault("Tr0ub4dor");
    assert_eq!(vault.decrypt(b""), Err(VaultError::Decrypt));
    assert_eq!(vault.decrypt(b"no colon here"), Err(VaultError::Decrypt));
    assert_eq!(vault.decrypt(b"!!!:???"), Err(VaultError::Decrypt));
    // a nonce of 5 bytes in place of 12
    assert_eq!(vault.decrypt(b"aGVsbG8=:aGVsbG8gd29ybGQgaGVsbG8gd29ybGQ="), Err(VaultError::Decrypt));
}

#[test]
fn test_init() {
    let keyfile = Encrypter::init("Tr0ub4dor", false).unwrap();
    let record = Keyfile::decode(&keyfile).unwrap();
    assert_eq!(record.salt.len(), 16);
    assert!(record.hash.starts_with(b"$argon2id$"));
    assert!(!record.hash.contains(&b' '));
    let (nonce, sealed) = parse_blob(&record.wrapped_key).unwrap();
    assert_eq!(nonce.len(), 12);
    assert_eq!(sealed.len(), 32 + 16);
}

#[test]
fn init_draws_a_new_salt_and_key_each_time() {
    let first = Encrypter::init("Tr0ub4dor", false).unwrap();
    let second = Encrypter::init("Tr0ub4dor", false).unwrap();
    assert_ne!(first, second);
    let a = Keyfile::decode(&first).unwrap();
    let b = Keyfile::decode(&second).unwrap();
    assert_ne!(a.salt, b.salt);
    assert_ne!(a.wrapped_key, b.wrapped_key);
}

#[test]
fn init_refuses_where_a_vault_exists() {
    assert_eq!(Encrypter::init("Tr0ub4dor", true), Err(VaultError::VaultExists));
    assert_eq!(candadolib::init("Tr0ub4dor", true), Err(VaultError::VaultExists));
}

#[test]
fn test_unlock() {
    let (keyfile, vault) = fresh_vault("Tr0ub4dor");
    assert_eq!(vault.derived_key.len(), 32);
    assert_eq!(vault.master_key().unwrap().len(), 32);
    let record = Keyfile::decode(&keyfile).unwrap();
    assert_eq!(vault.encrpytion_key, record.wrapped_key);
    assert_eq!(vault.derived_key, Encrypter::derive(&record.salt, "Tr0ub4dor").unwrap());
    // unlocking again gives the same keys, and each vault opens the other's blobs
    let again = candadolib::unlock("Tr0ub4dor", Some(&keyfile)).unwrap();
    assert_eq!(again.derived_key, vault.derived_key);
    let blob = vault.encrypt("hunter2").unwrap();
    assert_eq!(again.decrypt(&blob).unwrap(), "hunter2");
}

#[test]
fn unlock_with_another_passphrase_fails() {
    let keyfile = Encrypter::init("Tr0ub4dor", false).unwrap();
    for wrong in ["tr0ub4dor", "", "Tr0ub4dor ", "Tr0ub4do"] {
        assert!(matches!(
            Encrypter::unlock(wrong, Some(&keyfile)),
            Err(VaultError::Authentication)
        ));
    }
}

#[test]
fn unlock_without_a_keyfile_fails() {
    assert!(matches!(Encrypter::unlock("Tr0ub4dor", None), Err(VaultError::VaultAbsent)));
}

#[test]
fn unlock_with_a_corrupt_keyfile_fails() {
    for corrupt in [&b""[..], b"not base64!", b"aGVsbG8=", b"YSBi"] {
        assert!(matches!(
            Encrypter::unlock("Tr0ub4dor", Some(corrupt)),
            Err(VaultError::KeyfileCorrupt)
        ));
    }
}

#[test]
fn unlock_with_a_malformed_hash_fails() {
    let keyfile = Encrypter::init("Tr0ub4dor", false).unwrap();
    let mut record = Keyfile::decode(&keyfile).unwrap();
    record.hash = b"garbage".to_vec();
    assert!(matches!(
        Encrypter::unlock("Tr0ub4dor", Some(&record.encode())),
        Err(VaultError::HashParse)
    ));
}

#[test]
fn unlock_with_a_short_salt_fails() {
    let keyfile = Encrypter::init("Tr0ub4dor", false).unwrap();
    let mut record = Keyfile::decode(&keyfile).unwrap();
    record.salt = vec![1, 2, 3];
    assert!(matches!(
        Encrypter::unlock("Tr0ub4dor", Some(&record.encode())),
        Err(VaultError::Kdf)
    ));
}

#[test]
fn a_vault_with_malformed_keys_fails_closed() {
    let (_, vault) = fresh_vault("Tr0ub4dor");
    let blob = vault.encrypt("x").unwrap();
    let short = Encrypter { derived_key: vec![0; 31], encrpytion_key: vault.encrpytion_key.clone() };
    assert_eq!(short.master_key(), Err(VaultError::Decrypt));
    assert_eq!(short.encrypt("x"), Err(VaultError::Decrypt));
    assert_eq!(short.decrypt(&blob), Err(VaultError::Decrypt));
    let wrong = Encrypter { derived_key: vec![0; 32], encrpytion_key: vault.encrpytion_key.clone() };
    assert_eq!(wrong.master_key(), Err(VaultError::Decrypt));
    let unwrapped = Encrypter { derived_key: vault.derived_key.clone(), encrpytion_key: b"nothing".to_vec() };
    assert_eq!(unwrapped.master_key(), Err(VaultError::Decrypt));
}

#[test]
fn derive_is_a_function_of_salt_and_passphrase() {
    let salt = [7u8; 16];
    let key = Encrypter::derive(&salt, "Tr0ub4dor").unwrap();
    assert_eq!(key.len(), 32);
    assert_ne!(&key[..16], &salt[..]);
    assert_eq!(key, Encrypter::derive(&salt, "Tr0ub4dor").unwrap());
    assert_ne!(key, Encrypter::derive(&salt, "Tr0ub4dor!").unwrap());
    assert_ne!(key, Encrypter::derive(&[8u8; 16], "Tr0ub4dor").unwrap());
}

#[test]
fn derive_refuses_a_salt_under_eight_bytes() {
    assert_eq!(Encrypter::derive(&[1u8; 7], "Tr0ub4dor"), Err(VaultError::Kdf));
    assert_eq!(Encrypter::derive(&[], "Tr0ub4dor"), Err(VaultError::Kdf));
    assert!(Encrypter::derive(&[1u8; 8], "Tr0ub4dor").is_ok());
}

#[test]
fn hash_then_verify() {
    let hash = Encrypter::hash("secret").unwrap();
    assert!(hash.starts_with("$argon2id$v=19$m=19456,t=2,p=1$"));
    assert_ne!(hash, "secret");
    assert!(!hash.contains(' '));
    assert_eq!(Encrypter::verify(&hash, "secret"), Ok(true));
    assert_eq!(Encrypter::verify(&hash, "Secret"), Ok(false));
    assert_ne!(hash, Encrypter::hash("secret").unwrap());
}

#[test]
fn verify_refuses_a_hash_that_asks_for_too_many_lanes() {
    let tail = "$c2FsdHNhbHRzYWx0$aGFzaGhhc2hoYXNoaGFzaGhhc2hoYXNoaGFzaGhhc2g";
    for costs in [
        "m=19456,t=2,p=536870912",
        "m=19456,t=2,p=4294967295",
        "m=19456,t=2,p=16777216",
        "m=19456,t=2,p=1,p=536870912",
        "p=999999999",
    ] {
        let hash = format!("$argon2id$v=19${}{}", costs, tail);
        assert_eq!(Encrypter::verify(&hash, "secret"), Err(VaultError::HashParse), "{}", costs);
        assert_eq!(verify_secret(&hash, b"secret"), Err(VaultError::HashParse), "{}", costs);
    }
    // the most lanes that are taken, for which the memory is too little
    let hash = format!("$argon2id$v=19$m=19456,t=2,p=16777215{}", tail);
    assert_eq!(Encrypter::verify(&hash, "secret"), Ok(false));
    let hash = format!("$argon2id$v=19$m=64,t=1,p=1{}", tail);
    assert_eq!(Encrypter::verify(&hash, "secret"), Ok(false));
}

#[test]
fn the_lanes_of_a_hash_are_tested() {
    let pair = |name: &str, value: Option<u32>| (name.to_string(), value);
    assert!(lanes_allowed(&vec![]));
    assert!(lanes_allowed(&vec![pair("m", Some(4294967295)), pair("t", Some(4294967295)), pair("p", Some(16777215))]));
    assert!(lanes_allowed(&vec![pair("p", None), pair("keyid", None)]));
    assert!(!lanes_allowed(&vec![pair("p", Some(16777216))]));
    assert!(!lanes_allowed(&vec![pair("p", Some(1)), pair("m", Some(8)), pair("p", Some(4294967295))]));
}

#[test]
fn unlock_with_a_hash_of_too_many_lanes_fails() {
    let keyfile = Encrypter::init("Tr0ub4dor", false).unwrap();
    let mut record = Keyfile::decode(&keyfile).unwrap();
    record.hash = b"$argon2id$v=19$m=19456,t=2,p=536870912$c2FsdHNhbHRzYWx0$aGFzaGhhc2hoYXNoaGFzaGhhc2hoYXNoaGFzaGhhc2g".to_vec();
    assert!(matches!(
        Encrypter::unlock("Tr0ub4dor", Some(&record.encode())),
        Err(VaultError::HashParse)
    ));
}

#[test]
fn only_a_wrong_passphrase_is_throttled() {
    assert_eq!(throttle(VaultError::Authentication), 5);
    for other in [
        VaultError::Kdf,
        VaultError::HashParse,
        VaultError::VaultAbsent,
        VaultError::KeyfileCorrupt,
        VaultError::Decrypt,
        VaultError::Io,
    ] {
        assert_eq!(throttle(other), 0);
    }
}

#[test]
fn a_blob_has_its_colon_behind_the_nonce() {
    let (_, vault) = fresh_vault("Tr0ub4dor");
    for n in [0usize, 1, 2, 3, 7, 100] {
        let blob = vault.encrypt(&"x".repeat(n)).unwrap();
        assert_eq!(blob.len(), 17 + 4 * ((n + 18) / 3));
        let colons: Vec<usize> = (0..blob.len()).filter(|i| blob[*i] == b':').collect();
        assert_eq!(colons, vec![16]);
    }
}

#[test]
fn verify_refuses_a_malformed_hash() {
    assert_eq!(Encrypter::verify("garbage", "secret"), Err(VaultError::HashParse));
    assert_eq!(Encrypter::verify("", "secret"), Err(VaultError::HashParse));
}

#[test]
fn decompose_cuts_at_the_first_colon() {
    assert_eq!(Encrypter::decompose("abc:def"), Ok(("abc", "def")));
    assert_eq!(Encrypter::decompose("a:b:c"), Ok(("a", "b:c")));
    assert_eq!(Encrypter::decompose(":"), Ok(("", "")));
    assert_eq!(Encrypter::decompose("é:ü"), Ok(("é", "ü")));
    assert_eq!(Encrypter::decompose("abc"), Err(VaultError::Decrypt));
    assert_eq!(Encrypter::decompose(""), Err(VaultError::Decrypt));
}

#[test]
fn the_keyfile_lies_below_the_program_folder() {
    assert_eq!(Encrypter::load_keyfile_path("/home/ann"), "/home/ann/.candado/.candado.key");
    assert_eq!(
        Encrypter::load_keyfile_path("/home/ann"),
        format!("/home/ann/{}/.candado.key", candadolib::PROGRAM_FOLDER)
    );
}

#[test]
fn keyfile_encodes_to_base64_of_three_tokens() {
    let record = Keyfile {
        salt: b"0123456789abcdef".to_vec(),
        hash: b"$hash".to_vec(),
        wrapped_key: b"bm9uY2U=:a2V5".to_vec(),
    };
    // base64 of "MDEyMzQ1Njc4OWFiY2RlZg== $hash bm9uY2U=:a2V5"
    let content = record.encode();
    assert_eq!(
        content,
        b"TURFeU16UTFOamM0T1dGaVkyUmxaZz09ICRoYXNoIGJtOXVZMlU9OmEyVjU=".to_vec()
    );
    let back = Keyfile::decode(&content).unwrap();
    assert_eq!(back.salt, record.salt);
    assert_eq!(back.hash, record.hash);
    assert_eq!(back.wrapped_key, record.wrapped_key);
}

#[test]
fn keyfile_decodes_and_encodes_to_itself() {
    let content = Encrypter::init("Tr0ub4dor", false).unwrap();
    assert_eq!(Keyfile::decode(&content).unwrap().encode(), content);
    // a third token may hold spaces
    let odd = b"TURFeU16UTFOamM0T1dGaVkyUmxaZz09IGEgYiBjIGQ=".to_vec();
    let record = Keyfile::decode(&odd).unwrap();
    assert_eq!(record.hash, b"a".to_vec());
    assert_eq!(record.wrapped_key, b"b c d".to_vec());
    assert_eq!(record.encode(), odd);
}

#[test]
fn keyfile_refuses_what_is_corrupt() {
    // no base64 at all
    assert!(matches!(Keyfile::decode(b"***"), Err(VaultError::KeyfileCorrupt)));
    // base64 of "one"
    assert!(matches!(Keyfile::decode(b"b25l"), Err(VaultError::KeyfileCorrupt)));
    // base64 of "one two"
    assert!(matches!(Keyfile::decode(b"b25lIHR3bw=="), Err(VaultError::KeyfileCorrupt)));
    // base64 of "*** two three": the salt is no base64
    assert!(matches!(Keyfile::decode(b"KioqIHR3byB0aHJlZQ=="), Err(VaultError::KeyfileCorrupt)));
    // base64 that is not canonical: the padding is missing
    assert!(matches!(
        Keyfile::decode(b"TURFeU16UTFOamM0T1dGaVkyUmxaZz09IGEgYiBjIGQ"),
        Err(VaultError::KeyfileCorrupt)
    ));
}

#[test]
fn blobs_frame_and_parse() {
    let blob = frame_blob(b"hello", b"hi");
    assert_eq!(blob, b"aGVsbG8=:aGk=".to_vec());
    assert_eq!(parse_blob(&blob), Some((b"hello".to_vec(), b"hi".to_vec())));
    assert_eq!(parse_blob(b":"), Some((vec![], vec![])));
    assert_eq!(parse_blob(b"aGVsbG8=aGk="), None);
    assert_eq!(parse_blob(b"aGVsbG8:aGk="), None);
    assert_eq!(parse_blob(b"aGVsbG8=:aGk"), None);
    assert_eq!(parse_blob(b"aGVsbG8=:aGk=:aGk="), None);
    // text that is not canonical: bits are set behind the last byte
    assert_eq!(parse_blob(b"aGVsbG8=:aGl="), None);
    assert_eq!(parse_blob(b"aGVsbG8=:aGk=\n"), None);
    assert_eq!(parse_blob(b"aGVsbG8=: aGk="), None);
    assert_eq!(frame_blob(b"", b""), b":".to_vec());
    assert_eq!(frame_blob(&[0xfb, 0xff], &[0, 1, 2]), b"+/8=:AAEC".to_vec());
}

#[test]
fn plaintext_that_is_no_text_is_read_with_replacements() {
    let (_, vault) = fresh_vault("Tr0ub4dor");
    let key = vault.master_key().unwrap();
    let blob = seal_blob(&key, &[7u8; 12], &[b'a', 0xff, b'b']).unwrap();
    assert_eq!(vault.decrypt(&blob).unwrap(), "a\u{fffd}b");
}

#[test]
fn sealing_and_opening_under_a_key() {
    let key = [3u8; 32];
    let nonce = [5u8; 12];
    let blob = seal_blob(&key, &nonce, b"plain").unwrap();
    let (n, sealed) = parse_blob(&blob).unwrap();
    assert_eq!(n, nonce.to_vec());
    assert_eq!(sealed.len(), 5 + 16);
    assert_ne!(&sealed[..5], b"plain");
    assert_eq!(seal_blob(&key, &nonce, b"plain").unwrap(), blob);
    assert_eq!(open_blob(&key, &blob), Some(b"plain".to_vec()));
    assert_eq!(open_blob(&[4u8; 32], &blob), None);
    assert_eq!(open_blob(&key, b"aGVsbG8=:aGk="), None);
}

#[test]
fn a_vault_sealed_from_given_values_unlocks() {
    let salt = vec![9u8; 16];
    let derived = Encrypter::derive(&salt, "Tr0ub4dor").unwrap();
    let secret = String::from_utf8(candadolib::codec::frame_blob(&derived, b"")).unwrap();
    let secret = secret.trim_end_matches(':');
    let hash = Encrypter::hash(secret).unwrap();
    let data_key = [1u8; 32];
    let content = seal_vault("Tr0ub4dor", salt.clone(), &derived, &hash, &data_key, &[2u8; 12]);
    let record = Keyfile::decode(&content).unwrap();
    assert_eq!(record.salt, salt);
    assert_eq!(record.hash, hash.as_bytes().to_vec());
    let vault = Encrypter::unlock("Tr0ub4dor", Some(&content)).unwrap();
    assert_eq!(vault.derived_key, derived);
    assert_eq!(vault.master_key().unwrap(), data_key.to_vec());
}

#[test]
fn bytes_are_found_and_split() {
    assert_eq!(find_first(b"a b c", b' '), Some(1));
    assert_eq!(find_first(b" a", b' '), Some(0));
    assert_eq!(find_first(b"abc", b' '), None);
    assert_eq!(find_first(b"", b' '), None);
    assert_eq!(split_once(b"a b c", b' '), Some((&b"a"[..], &b"b c"[..])));
    assert_eq!(split_once(b"ab ", b' '), Some((&b"ab"[..], &b""[..])));
    assert_eq!(split_once(b"abc", b' '), None);
    let mut out = b"ab".to_vec();
    append_bytes(&mut out, b"cd");
    assert_eq!(out, b"abcd".to_vec());
    assert_eq!(slice_to_owned(b"xyz"), b"xyz".to_vec());
}

#[test]
fn errors_have_a_message() {
    assert_eq!(VaultError::Authentication.message(), "Authentication Failed -> Wrong password.");
    assert_eq!(VaultError::UnsupportedFormat.message(), "File not supported");
    assert_eq!(
        VaultError::VaultAbsent.message(),
        "Keyfile not found -> Use 'candado vault init' to initialize a new vault."
    );
    assert_ne!(VaultError::Decrypt.message(), VaultError::Encrypt.message());
}
