use aes_gcm::aead::Aead;
use aes_gcm::{Aes256Gcm, KeyInit, Nonce};
use base64::Engine;
use securechat::crypto::{
    aes_key_from_shared_secret, decrypt_message, decrypt_message_checked, derive_aes_key, encrypt_message,
    get_public_key_from_bytes, new_keypair, public_key_text,
};

fn base64_encode(bytes: &[u8]) -> String {
    base64::engine::general_purpose::STANDARD.encode(bytes)
}

fn base64_decode(text: &[u8]) -> Option<Vec<u8>> {
    base64::engine::general_purpose::STANDARD.decode(text).ok()
}

#[test]
fn public_key_round_trips_through_base64() {
    let mut key = [0u8; 32];
    for (i, b) in key.iter_mut().enumerate() {
        *b = i as u8;
    }
    let text = public_key_text(&key);
    assert_eq!(text, "AAECAwQFBgcICQoLDA0ODxAREhMUFRYXGBkaGxwdHh8=");
    let parsed = get_public_key_from_bytes(text.as_bytes()).unwrap();
    assert_eq!(parsed, key);
}

#[test]
fn public_key_of_wrong_length_is_refused() {
    let short = base64::engine::general_purpose::STANDARD.encode([7u8; 31]);
    assert!(get_public_key_from_bytes(short.as_bytes()).is_none());
    let long = base64::engine::general_purpose::STANDARD.encode([7u8; 33]);
    assert!(get_public_key_from_bytes(long.as_bytes()).is_none());
}

#[test]
fn public_key_that_is_not_base64_is_refused() {
    assert!(get_public_key_from_bytes(b"not base64!").is_none());
    assert!(get_public_key_from_bytes(b"").is_none());
}

#[test]
fn aes_key_is_hkdf_sha256_of_shared_secret() {
    let expected: [u8; 32] = [
        211, 211, 49, 176, 110, 73, 160, 178, 235, 65, 23, 248, 48, 190, 32, 148, 164, 12, 33, 198, 39, 93, 228,
        249, 79, 244, 162, 137, 125, 152, 37, 160,
    ];
    assert_eq!(aes_key_from_shared_secret(&[0u8; 32]), expected);
    let mut ikm = [0u8; 32];
    for (i, b) in ikm.iter_mut().enumerate() {
        *b = i as u8;
    }
    let expected2: [u8; 32] = [
        204, 230, 31, 166, 124, 232, 179, 33, 219, 217, 218, 242, 197, 37, 27, 138, 76, 69, 0, 78, 138, 151, 63, 78,
        198, 166, 234, 118, 222, 216, 181, 163,
    ];
    assert_eq!(aes_key_from_shared_secret(&ikm), expected2);
}

#[test]
fn both_sides_derive_the_same_aes_key() {
    let (a, a_pub) = new_keypair();
    let (b, b_pub) = new_keypair();
    assert_ne!(a_pub, b_pub);
    let ka = derive_aes_key(a, &b_pub);
    let kb = derive_aes_key(b, &a_pub);
    assert_eq!(ka, kb);
}

#[test]
fn encrypted_message_decrypts_to_plaintext() {
    let key = [42u8; 32];
    let (nonce, ct) = encrypt_message(&key, "hello, wörld");
    assert_eq!(base64_decode(nonce.as_bytes()).unwrap().len(), 12);
    assert_eq!(base64_decode(ct.as_bytes()).unwrap().len(), "hello, wörld".len() + 16);
    assert_eq!(decrypt_message(&key, &nonce, &ct).as_deref(), Some("hello, wörld"));
    assert_eq!(decrypt_message_checked(&key, &nonce, &ct).as_deref(), Some("hello, wörld"));
}

#[test]
fn empty_message_round_trips() {
    let key = [1u8; 32];
    let (nonce, ct) = encrypt_message(&key, "");
    assert_eq!(decrypt_message(&key, &nonce, &ct).as_deref(), Some(""));
}

#[test]
fn nonces_are_fresh() {
    let key = [3u8; 32];
    let (n1, c1) = encrypt_message(&key, "same");
    let (n2, c2) = encrypt_message(&key, "same");
    assert_ne!(n1, n2);
    assert_ne!(c1, c2);
}

#[test]
fn wrong_key_or_tampering_is_refused() {
    let key = [9u8; 32];
    let (nonce, ct) = encrypt_message(&key, "secret");
    assert_eq!(decrypt_message(&[8u8; 32], &nonce, &ct), None);
    let mut raw = base64_decode(ct.as_bytes()).unwrap();
    raw[0] ^= 1;
    let tampered = base64_encode(&raw);
    assert_eq!(decrypt_message(&key, &nonce, &tampered), None);
}

#[test]
fn undecodable_texts_are_refused() {
    let key = [9u8; 32];
    let (nonce, ct) = encrypt_message(&key, "secret");
    assert_eq!(decrypt_message(&key, "%%%", &ct), None);
    assert_eq!(decrypt_message(&key, &nonce, "%%%"), None);
}

#[test]
fn nonce_of_wrong_length_is_refused_by_checked_decryption() {
    let key = [9u8; 32];
    let (_, ct) = encrypt_message(&key, "secret");
    let short_nonce = base64_encode(&[0u8; 11]);
    assert_eq!(decrypt_message_checked(&key, &short_nonce, &ct), None);
}

#[test]
fn non_utf8_plaintext_is_refused() {
    let key = [5u8; 32];
    let nonce = [6u8; 12];
    let cipher = Aes256Gcm::new_from_slice(&key).unwrap();
    let ct = cipher.encrypt(Nonce::from_slice(&nonce), &[0xffu8, 0xfe][..]).unwrap();
    let n = base64_encode(&nonce);
    let c = base64_encode(&ct);
    assert_eq!(decrypt_message(&key, &n, &c), None);
}
