//! Key agreement and message encryption.
//!
//! A peer's X25519 public key travels as standard base64 text. Both sides of
//! an exchange derive a 32-byte AES-256-GCM key from the Diffie-Hellman shared
//! secret with HKDF-SHA256 (no salt, info `aes-key`). A chat message is the
//! UTF-8 text sealed under that key with a fresh random 12-byte nonce; nonce
//! and ciphertext travel as standard base64 text too.

use vstd::prelude::*;
use vstd::utf8::{decode_utf8, encode_utf8, valid_utf8};

use aes_gcm::aead::Aead;
use aes_gcm::{Aes256Gcm, KeyInit, Nonce};
use base64::engine::general_purpose;
use base64::Engine;
use hkdf::Hkdf;
use rand::RngCore;
use sha2::Sha256;
use x25519_dalek::{EphemeralSecret, PublicKey};

verus! {

broadcast use vstd::utf8::encode_utf8_valid_utf8, vstd::utf8::encode_utf8_decode_utf8;

/// An X25519 ephemeral secret: random, used for one exchange, never readable.
#[verifier::external_type_specification]
#[verifier::external_body]
pub struct ExEphemeralSecret(x25519_dalek::EphemeralSecret);

/// Our ephemeral X25519 secret for one exchange. Its model is the secret's
/// 32 bytes, which no code can read: only the functions that make the
/// secret and compute with it speak of the model.
pub struct SecretKey {
    secret: EphemeralSecret,
    scalar: Ghost<Seq<u8>>,
}

impl View for SecretKey {
    type V = Seq<u8>;

    closed spec fn view(&self) -> Seq<u8> {
        self.scalar@
    }
}

/// What `x25519_dalek::x25519` (X25519 of RFC 7748) gives for the scalar `k`
/// and the u-coordinate `u`, both 32 bytes.
pub uninterp spec fn x25519_spec(k: Seq<u8>, u: Seq<u8>) -> Seq<u8>;

/// The X25519 base point, `X25519_BASEPOINT_BYTES`: 9 then 31 zero bytes.
pub open spec fn x25519_basepoint() -> Seq<u8> {
    Seq::new(32, |i: int| if i == 0 { 9u8 } else { 0u8 })
}

/// `public_key` is the public key of the secret `scalar`: X25519 of the
/// secret and the base point; and any other secret's X25519 with it equals
/// our X25519 with that secret's public key (the Diffie-Hellman agreement).
pub open spec fn key_pair(scalar: Seq<u8>, public_key: Seq<u8>) -> bool {
    &&& scalar.len() == 32
    &&& public_key == x25519_spec(scalar, x25519_basepoint())
    &&& forall|other: Seq<u8>|
        other.len() == 32 ==> #[trigger] x25519_spec(other, public_key) == x25519_spec(
            scalar,
            x25519_spec(other, x25519_basepoint()),
        )
}

/// Largest plaintext, in bytes, that AES-GCM seals.
pub const AES_GCM_MAX_PLAINTEXT: u64 = 0x10_0000_0000;

/// Length of the text that standard padded base64 makes of `n` bytes.
pub open spec fn base64_encoded_len(n: nat) -> nat {
    (n / 3) * 4 + if n % 3 > 0 { 4nat } else { 0nat }
}

/// The standard padded base64 text of `bytes`.
pub uninterp spec fn base64_encode_spec(bytes: Seq<u8>) -> Seq<char>;

/// The bytes that standard padded base64 `text` stands for, or `None` when
/// `text` is not canonical standard base64.
pub uninterp spec fn base64_decode_spec(text: Seq<u8>) -> Option<Seq<u8>>;

/// HKDF-SHA256 with no salt, input key material `ikm`, context `info`,
/// expanded to 32 bytes.
pub uninterp spec fn hkdf_sha256_spec(ikm: Seq<u8>, info: Seq<u8>) -> Seq<u8>;

/// AES-256-GCM ciphertext followed by its 16-byte tag, for `key`, `nonce`
/// and plaintext `pt`, with no associated data.
pub uninterp spec fn aes256gcm_seal_spec(key: Seq<u8>, nonce: Seq<u8>, pt: Seq<u8>) -> Seq<u8>;

/// The plaintext that AES-256-GCM recovers from `ct` (ciphertext followed by
/// its tag) under `key` and `nonce`, or `None` when authentication fails.
pub uninterp spec fn aes256gcm_open_spec(key: Seq<u8>, nonce: Seq<u8>, ct: Seq<u8>) -> Option<Seq<u8>>;

/// Calls `base64::engine::general_purpose::STANDARD.encode`. Claimed: the
/// result is the named standard padded encoding, has the documented length
/// (`encoded_len`), and decodes back to `bytes` (the engine's round trip).
/// Inputs whose encoded length does not fit in `usize` panic there, so they
/// are left out.
#[verifier::external_body]
pub(crate) fn base64_encode(bytes: &[u8]) -> (r: String)
    requires
        base64_encoded_len(bytes@.len()) <= usize::MAX,
    ensures
        r@ == base64_encode_spec(bytes@),
        r@.len() == base64_encoded_len(bytes@.len()),
        base64_decode_spec(encode_utf8(r@)) == Some(bytes@),
{
    general_purpose::STANDARD.encode(bytes)
}

/// Calls `base64::engine::general_purpose::STANDARD.decode`; the result is
/// named `base64_decode_spec`, an error becoming `None`.
#[verifier::external_body]
pub(crate) fn base64_decode(text: &[u8]) -> (r: Option<Vec<u8>>)
    ensures
        match r {
            Some(v) => base64_decode_spec(text@) == Some(v@),
            None => base64_decode_spec(text@) is None,
        },
{
    general_purpose::STANDARD.decode(text).ok()
}

/// Calls `Hkdf::<Sha256>::new(None, ikm)` and `expand(info, ..)` into a
/// 32-byte buffer (which never fails for 32 bytes); the result is named
/// `hkdf_sha256_spec`.
#[verifier::external_body]
pub(crate) fn hkdf_sha256_expand32(ikm: &[u8; 32], info: &[u8]) -> (r: [u8; 32])
    ensures
        r@ == hkdf_sha256_spec(ikm@, info@),
{
    let hk = Hkdf::<Sha256>::new(None, ikm);
    let mut okm = [0u8; 32];
    hk.expand(info, &mut okm).unwrap();
    okm
}

/// Calls `EphemeralSecret::random()`, which fills the 32 bytes of the
/// secret from the operating system's random source. Claimed: the model has
/// 32 bytes; which ones is left open.
#[verifier::external_body]
pub(crate) fn ephemeral_secret_random() -> (r: SecretKey)
    ensures
        r@.len() == 32,
{
    SecretKey { secret: EphemeralSecret::random(), scalar: Ghost(arbitrary()) }
}

/// Calls `PublicKey::from(&secret)` and returns the key's 32 bytes. Claimed:
/// they are X25519 of the secret and the base point (the crate's own test
/// `byte_basepoint_matches_edwards_scalar_mul` checks exactly this), and any
/// other secret's X25519 with them equals the secret's X25519 with that
/// secret's public key (the agreement that the crate's documentation of
/// `x25519` asserts).
#[verifier::external_body]
pub(crate) fn public_key_of(secret: &SecretKey) -> (r: [u8; 32])
    ensures
        r@ == x25519_spec(secret@, x25519_basepoint()),
        forall|other: Seq<u8>|
            other.len() == 32 ==> #[trigger] x25519_spec(other, r@) == x25519_spec(
                secret@,
                x25519_spec(other, x25519_basepoint()),
            ),
{
    PublicKey::from(&secret.secret).to_bytes()
}

/// Calls `EphemeralSecret::diffie_hellman` with the public key made of
/// `peer_public_key` and returns the shared secret's 32 bytes. Claimed: they
/// are X25519 of the secret and the peer's key (the method computes
/// `mul_clamped` of the point by the secret, as `x25519` does).
#[verifier::external_body]
pub(crate) fn x25519_diffie_hellman(secret: SecretKey, peer_public_key: &[u8; 32]) -> (r: [u8; 32])
    ensures
        r@ == x25519_spec(secret@, peer_public_key@),
{
    secret.secret.diffie_hellman(&PublicKey::from(*peer_public_key)).to_bytes()
}

/// A fresh ephemeral key pair: a random secret and its public key.
pub fn new_keypair() -> (r: (SecretKey, [u8; 32]))
    ensures
        key_pair(r.0@, r.1@),
{
    let secret = ephemeral_secret_random();
    let public_key = public_key_of(&secret);
    (secret, public_key)
}

/// Both sides of an exchange derive one AES key: each side's X25519 of its
/// secret with the other side's public key gives the same shared secret.
pub proof fn lemma_aes_key_agreement(a: Seq<u8>, a_public: Seq<u8>, b: Seq<u8>, b_public: Seq<u8>)
    requires
        key_pair(a, a_public),
        key_pair(b, b_public),
    ensures
        x25519_spec(a, b_public) == x25519_spec(b, a_public),
        spec_aes_key(x25519_spec(a, b_public)) == spec_aes_key(x25519_spec(b, a_public)),
{
    assert(x25519_spec(a, b_public) == x25519_spec(b, x25519_spec(a, x25519_basepoint())));
}

/// The base64 text that carries a public key in a `KeyExchange` message.
///
/// Reading the text back with `get_public_key_from_bytes` gives the key.
pub fn public_key_text(public_key: &[u8; 32]) -> (r: String)
    ensures
        r@ == base64_encode_spec(public_key@),
        spec_public_key_from_text(encode_utf8(r@)) == Some(public_key@),
{
    base64_encode(public_key)
}

/// Fills a 12-byte nonce with `rand::rng().fill_bytes`. Nothing is claimed of
/// the bytes.
#[verifier::external_body]
pub(crate) fn random_nonce() -> (r: [u8; 12]) {
    let mut nonce = [0u8; 12];
    rand::rng().fill_bytes(&mut nonce);
    nonce
}

/// Calls `Aes256Gcm::encrypt` (key from `new_from_slice`, which accepts any 32
/// bytes). Claimed: the result is named `aes256gcm_seal_spec`, and opening it
/// with the same key and nonce gives `pt` back. Longer plaintexts than
/// `AES_GCM_MAX_PLAINTEXT` are refused by the cipher, so they are left out.
#[verifier::external_body]
pub(crate) fn aes256gcm_encrypt(key: &[u8; 32], nonce: &[u8; 12], pt: &[u8]) -> (r: Vec<u8>)
    requires
        pt@.len() <= AES_GCM_MAX_PLAINTEXT,
    ensures
        r@ == aes256gcm_seal_spec(key@, nonce@, pt@),
        r@.len() == pt@.len() + 16,
        aes256gcm_open_spec(key@, nonce@, r@) == Some(pt@),
{
    let cipher = Aes256Gcm::new_from_slice(key).unwrap();
    cipher.encrypt(Nonce::from_slice(nonce), pt).unwrap()
}

/// Calls `Aes256Gcm::decrypt`; the result is named `aes256gcm_open_spec`, an
/// error becoming `None`. `Nonce::from_slice` panics unless the nonce has 12
/// bytes, so other nonces are left out.
#[verifier::external_body]
pub(crate) fn aes256gcm_decrypt(key: &[u8; 32], nonce: &[u8], ct: &[u8]) -> (r: Option<Vec<u8>>)
    requires
        nonce@.len() == 12,
    ensures
        match r {
            Some(v) => aes256gcm_open_spec(key@, nonce@, ct@) == Some(v@),
            None => aes256gcm_open_spec(key@, nonce@, ct@) is None,
        },
{
    let cipher = Aes256Gcm::new_from_slice(key).unwrap();
    cipher.decrypt(Nonce::from_slice(nonce), ct).ok()
}

/// Calls `String::from_utf8`: it succeeds exactly on valid UTF-8, and the
/// string then holds the characters those bytes encode.
#[verifier::external_body]
pub(crate) fn string_from_utf8(bytes: Vec<u8>) -> (r: Option<String>)
    ensures
        r is Some <==> valid_utf8(bytes@),
        r matches Some(s) ==> s@ == decode_utf8(bytes@),
{
    String::from_utf8(bytes).ok()
}

/// The public key that base64 `text` carries: its decoding, when that is
/// exactly 32 bytes.
pub open spec fn spec_public_key_from_text(text: Seq<u8>) -> Option<Seq<u8>> {
    match base64_decode_spec(text) {
        Some(b) => if b.len() == 32 { Some(b) } else { None },
        None => None,
    }
}

/// The view of an optional 32-byte array.
pub open spec fn opt_key_view(k: Option<[u8; 32]>) -> Option<Seq<u8>> {
    match k {
        Some(a) => Some(a@),
        None => None,
    }
}

/// Reads a peer's public key from its base64 text: `None` unless the text is
/// standard base64 of exactly 32 bytes.
pub fn get_public_key_from_bytes(public_key: &[u8]) -> (r: Option<[u8; 32]>)
    ensures
        opt_key_view(r) == spec_public_key_from_text(public_key@),
{
    let decoded = match base64_decode(public_key) {
        Some(d) => d,
        None => return None,
    };
    if decoded.len() != 32 {
        return None;
    }
    let mut key = [0u8; 32];
    let mut i: usize = 0;
    while i < 32
        invariant
            decoded@.len() == 32,
            i <= 32,
            forall|j: int| 0 <= j < i ==> key@[j] == decoded@[j],
        decreases 32 - i,
    {
        key[i] = decoded[i];
        i = i + 1;
    }
    assert(key@ =~= decoded@);
    Some(key)
}

/// The HKDF context that names the derived key: the ASCII bytes of `aes-key`.
pub open spec fn aes_key_info() -> Seq<u8> {
    seq![0x61u8, 0x65u8, 0x73u8, 0x2du8, 0x6bu8, 0x65u8, 0x79u8]
}

/// The AES key both sides derive from a Diffie-Hellman shared secret.
pub open spec fn spec_aes_key(shared_secret: Seq<u8>) -> Seq<u8> {
    hkdf_sha256_spec(shared_secret, aes_key_info())
}

/// Derives the AES key from a shared secret: HKDF-SHA256, no salt, info
/// `aes-key`, 32 bytes.
pub fn aes_key_from_shared_secret(shared_secret: &[u8; 32]) -> (r: [u8; 32])
    ensures
        r@ == spec_aes_key(shared_secret@),
{
    let info: [u8; 7] = [0x61, 0x65, 0x73, 0x2d, 0x6b, 0x65, 0x79];
    assert(info@ =~= aes_key_info());
    hkdf_sha256_expand32(shared_secret, &info)
}

/// Consumes our ephemeral secret in a Diffie-Hellman exchange with the peer's
/// public key, and derives the AES key from the shared secret.
pub fn derive_aes_key(secret: SecretKey, peer_public_key: &[u8; 32]) -> (r: [u8; 32])
    ensures
        r@ == spec_aes_key(x25519_spec(secret@, peer_public_key@)),
{
    let shared = x25519_diffie_hellman(secret, peer_public_key);
    aes_key_from_shared_secret(&shared)
}

/// What a decryption gives for a key and the two base64 texts: `None` unless
/// both texts decode, the ciphertext authenticates, and the plaintext is
/// valid UTF-8.
pub open spec fn spec_decrypt_message(key: Seq<u8>, nonce_text: Seq<char>, ct_text: Seq<char>) -> Option<Seq<char>> {
    match base64_decode_spec(encode_utf8(nonce_text)) {
        None => None,
        Some(nonce) => match base64_decode_spec(encode_utf8(ct_text)) {
            None => None,
            Some(ct) => match aes256gcm_open_spec(key, nonce, ct) {
                None => None,
                Some(pt) => if valid_utf8(pt) { Some(decode_utf8(pt)) } else { None },
            },
        },
    }
}

/// The two texts make a decryption that would read a nonce of the wrong
/// length: both decode, and the nonce is not 12 bytes.
pub open spec fn nonce_length_mismatch(nonce_text: Seq<char>, ct_text: Seq<char>) -> bool {
    &&& base64_decode_spec(encode_utf8(ct_text)) is Some
    &&& base64_decode_spec(encode_utf8(nonce_text)) matches Some(n) && n.len() != 12
}

/// Encrypts a chat message under `key` with a fresh random nonce, and returns
/// the base64 texts of the nonce and of the ciphertext.
///
/// Whatever nonce was drawn, `decrypt_message` with the same key gives the
/// plaintext back.
pub fn encrypt_message(key: &[u8; 32], plaintext: &str) -> (r: (String, String))
    requires
        encode_utf8(plaintext@).len() <= AES_GCM_MAX_PLAINTEXT,
        base64_encoded_len(encode_utf8(plaintext@).len() + 16) <= usize::MAX,
    ensures
        exists|nonce: Seq<u8>|
            #![trigger base64_encode_spec(nonce)]
            {
                &&& nonce.len() == 12
                &&& r.0@ == base64_encode_spec(nonce)
                &&& r.1@ == base64_encode_spec(aes256gcm_seal_spec(key@, nonce, encode_utf8(plaintext@)))
            },
        base64_decode_spec(encode_utf8(r.0@)) matches Some(nonce) && nonce.len() == 12,
        base64_decode_spec(encode_utf8(r.1@)) matches Some(ct) && ct.len() == encode_utf8(plaintext@).len() + 16,
        !nonce_length_mismatch(r.0@, r.1@),
        spec_decrypt_message(key@, r.0@, r.1@) == Some(plaintext@),
{
    let nonce = random_nonce();
    let pt = plaintext.as_bytes();
    let ciphertext = aes256gcm_encrypt(key, &nonce, pt);
    let nonce_text = base64_encode(&nonce);
    let ct_text = base64_encode(ciphertext.as_slice());
    assert(nonce@.len() == 12);
    (nonce_text, ct_text)
}

/// Decrypts a chat message: decodes the base64 nonce and ciphertext, opens
/// the ciphertext under `key`, and reads the plaintext as UTF-8. `None` when
/// any step fails.
///
/// A decoded nonce of any length but 12 bytes makes the cipher panic, so such
/// texts are left out; `decrypt_message_checked` refuses them instead.
pub fn decrypt_message(key: &[u8; 32], nonce_b64: &str, ciphertext_b64: &str) -> (r: Option<String>)
    requires
        !nonce_length_mismatch(nonce_b64@, ciphertext_b64@),
    ensures
        match r {
            Some(s) => spec_decrypt_message(key@, nonce_b64@, ciphertext_b64@) == Some(s@),
            None => spec_decrypt_message(key@, nonce_b64@, ciphertext_b64@) is None,
        },
{
    let nonce = match base64_decode(nonce_b64.as_bytes()) {
        Some(n) => n,
        None => return None,
    };
    let ciphertext = match base64_decode(ciphertext_b64.as_bytes()) {
        Some(c) => c,
        None => return None,
    };
    let plaintext = match aes256gcm_decrypt(key, nonce.as_slice(), ciphertext.as_slice()) {
        Some(p) => p,
        None => return None,
    };
    string_from_utf8(plaintext)
}

/// Decrypts like `decrypt_message`, and gives `None` where that would read a
/// nonce of the wrong length.
pub fn decrypt_message_checked(key: &[u8; 32], nonce_b64: &str, ciphertext_b64: &str) -> (r: Option<String>)
    ensures
        nonce_length_mismatch(nonce_b64@, ciphertext_b64@) ==> r is None,
        !nonce_length_mismatch(nonce_b64@, ciphertext_b64@) ==> match r {
            Some(s) => spec_decrypt_message(key@, nonce_b64@, ciphertext_b64@) == Some(s@),
            None => spec_decrypt_message(key@, nonce_b64@, ciphertext_b64@) is None,
        },
{
    let ciphertext_ok = match base64_decode(ciphertext_b64.as_bytes()) {
        Some(_) => true,
        None => false,
    };
    match base64_decode(nonce_b64.as_bytes()) {
        Some(n) => {
            if ciphertext_ok && n.len() != 12 {
                return None;
            }
        },
        None => {},
    }
    decrypt_message(key, nonce_b64, ciphertext_b64)
}

} // verus!
