use appdatahub::crypto::decrypt;
use appdatahub::crypto::encrypt;
use base64::engine::general_purpose;
use base64::Engine;
use sha2::Digest;

#[test]
fn test_encrypt_decrypt() {
    let plaintext = "hello world 你好世界";
    let encrypted = encrypt(plaintext, "pw", "salt");
    assert_ne!(encrypted, plaintext);
    let decrypted = decrypt(&encrypted, "pw", "salt").unwrap();
    assert_eq!(decrypted, plaintext);
}

#[test]
fn test_wrong_password() {
    let plaintext = "secret data";
    let encrypted = encrypt(plaintext, "correct_pw", "salt");
    let result = decrypt(&encrypted, "wrong_pw", "salt");
    match result {
        Ok(decrypted) => assert_ne!(decrypted, plaintext),
        Err(_) => {}
    }
}

#[test]
fn encrypt_is_xor_with_sha256_key_then_base64() {
    let key = sha2::Sha256::digest(b"pwsalt");
    let expected: Vec<u8> = b"abc"
        .iter()
        .enumerate()
        .map(|(i, b)| b ^ key[i % key.len()])
        .collect();
    assert_eq!(encrypt("abc", "pw", "salt"), general_purpose::STANDARD.encode(&expected));
    // the ciphertext is not the plain Base64 of the text
    assert_ne!(encrypt("abc", "pw", "salt"), general_purpose::STANDARD.encode(b"abc"));
}

#[test]
fn empty_text_round_trip() {
    assert_eq!(encrypt("", "pw", "salt"), "");
    assert_eq!(decrypt("", "pw", "salt").unwrap(), "");
}

#[test]
fn long_text_round_trip_uses_repeated_key() {
    let text = "0123456789".repeat(10);
    let c = encrypt(&text, "p", "s");
    assert_eq!(decrypt(&c, "p", "s").unwrap(), text);
}

#[test]
fn decrypt_rejects_bad_base64() {
    let err = decrypt("not base64!!", "pw", "salt").unwrap_err();
    assert!(err.starts_with("Base64 解码失败: "), "{}", err);
}

#[test]
fn decrypt_rejects_non_utf8() {
    // A ciphertext whose de-obfuscated byte is 0xff.
    let key = sha2::Sha256::digest(b"pwsalt");
    let raw = [0xffu8 ^ key[0]];
    let text = general_purpose::STANDARD.encode(raw);
    let err = decrypt(&text, "pw", "salt").unwrap_err();
    assert!(err.starts_with("UTF-8 解码失败: "), "{}", err);
}

#[test]
fn salt_changes_ciphertext() {
    assert_ne!(encrypt("data", "pw", "a"), encrypt("data", "pw", "b"));
}

#[test]
fn encrypt_output_is_padded_base64_text() {
    for text in ["", "a", "ab", "abc", "hello world 你好世界"] {
        let c = encrypt(text, "pw", "salt");
        assert_eq!(c.len(), 4 * ((text.len() + 2) / 3));
        assert!(c.chars().all(|ch| ch.is_ascii_alphanumeric() || ch == '+' || ch == '/' || ch == '='));
        assert_eq!(c, encrypt(text, "pw", "salt"));
    }
}
