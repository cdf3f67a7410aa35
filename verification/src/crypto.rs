//! Credential protection.
//!
//! An extraction credential is stored either as an opaque keychain
//! reference or, where no keychain is available, as a symmetric payload
//! `enc:<salt>:<nonce>:<ciphertext>` with the three fields base64 encoded.
//! The dispatch between the two forms and the payload framing are verified;
//! the key derivation, the cipher, the encodings and the keychain itself
//! are relied on through the trusted items below.

use vstd::prelude::*;

use crate::text::{spec_starts_with, str_eq, str_starts_with};
use vstd::string::StringSliceAdditionalSpecFns;
use vstd::utf8::encode_utf8;

verus! {

/// Index of the first occurrence of `c`, or `-1`.
pub open spec fn spec_first_index_of(s: Seq<char>, c: char) -> int
    decreases s.len(),
{
    if s.len() == 0 {
        -1
    } else if s[0] == c {
        0
    } else {
        let t = spec_first_index_of(s.drop_first(), c);
        if t == -1 {
            -1
        } else {
            1 + t
        }
    }
}

proof fn lemma_first_index_of(s: Seq<char>, c: char)
    ensures
        spec_first_index_of(s, c) == -1 ==> forall|j: int| 0 <= j < s.len() ==> s[j] != c,
        spec_first_index_of(s, c) != -1 ==> {
            let i = spec_first_index_of(s, c);
            0 <= i < s.len() && s[i] == c && forall|j: int| 0 <= j < i ==> s[j] != c
        },
    decreases s.len(),
{
    if s.len() > 0 && s[0] != c {
        lemma_first_index_of(s.drop_first(), c);
        assert forall|j: int| 1 <= j < s.len() implies s.drop_first()[j - 1] == s[j] by {}
    }
}

/// The pieces of `s` between occurrences of `c`: always one piece more
/// than there are occurrences.
pub open spec fn spec_split(s: Seq<char>, c: char) -> Seq<Seq<char>>
    decreases s.len(),
{
    let i = spec_first_index_of(s, c);
    if 0 <= i < s.len() {
        seq![s.take(i)] + spec_split(s.skip(i + 1), c)
    } else {
        seq![s]
    }
}

fn first_index_of(s: &str, c: char) -> (r: Option<usize>)
    ensures
        match r {
            Some(i) => i < s@.len() && spec_first_index_of(s@, c) == i as int,
            None => spec_first_index_of(s@, c) == -1,
        },
{
    let n = s.unicode_len();
    let mut i: usize = 0;
    while i < n
        invariant
            0 <= i <= n,
            n == s@.len(),
            forall|j: int| 0 <= j < i ==> s@[j] != c,
        decreases n - i,
    {
        if s.get_char(i) == c {
            proof {
                lemma_first_index_of(s@, c);
                let k = spec_first_index_of(s@, c);
                if k == -1 {
                    assert(false);
                }
                if k < i as int {
                    assert(s@[k] != c);
                    assert(false);
                }
                if k > i as int {
                    assert(s@[i as int] != c);
                    assert(false);
                }
            }
            return Some(i);
        }
        i = i + 1;
    }
    proof {
        lemma_first_index_of(s@, c);
        if spec_first_index_of(s@, c) != -1 {
            assert(s@[spec_first_index_of(s@, c)] != c);
            assert(false);
        }
    }
    None
}

/// Splits on every occurrence of `c`, as [`spec_split`] states.
pub fn split_char(s: &str, c: char) -> (r: Vec<String>)
    ensures
        r@.map_values(|p: String| p@) == spec_split(s@, c),
{
    let mut out: Vec<String> = Vec::new();
    let mut rest: String = s.to_owned();
    let ghost whole = s@;
    proof {
        assert(out@.map_values(|p: String| p@) =~= Seq::<Seq<char>>::empty());
        assert(spec_split(whole, c) =~~= out@.map_values(|p: String| p@) + spec_split(whole, c));
    }
    loop
        invariant
            whole == s@,
            spec_split(whole, c) == out@.map_values(|p: String| p@) + spec_split(rest@, c),
        decreases rest@.len(),
    {
        match first_index_of(rest.as_str(), c) {
            Some(i) => {
                let n = rest.as_str().unicode_len();
                let piece = rest.as_str().substring_char(0, i).to_owned();
                let tail = rest.as_str().substring_char(i + 1, n).to_owned();
                proof {
                    assert(piece@ =~= rest@.take(i as int));
                    assert(tail@ =~= rest@.skip(i + 1));
                }
                out.push(piece);
                proof {
                    assert(spec_split(whole, c) =~~= out@.map_values(|p: String| p@) + spec_split(
                        tail@,
                        c,
                    ));
                }
                rest = tail;
            },
            None => {
                out.push(rest);
                proof {
                    assert(spec_split(whole, c) =~~= out@.map_values(|p: String| p@));
                }
                return out;
            },
        }
    }
}

/// Name for the base64 standard-alphabet padded encoding of a byte string.
pub uninterp spec fn base64_std(b: Seq<u8>) -> Seq<char>;

/// Relies on base64's STANDARD engine encode: the padded standard-alphabet
/// rendering of the bytes.
#[verifier::external_body]
fn b64_encode(data: &[u8]) -> (r: String)
    ensures
        r@ == base64_std(data@),
{
    base64::Engine::encode(&base64::engine::general_purpose::STANDARD, data)
}

/// Relies on base64's STANDARD engine decode, which accepts only canonical
/// padded input (trailing bits are rejected): a decoded value re-encodes to
/// the input.
#[verifier::external_body]
fn b64_decode(s: &str) -> (r: Option<Vec<u8>>)
    ensures
        r matches Some(b) ==> base64_std(b@) == s@,
{
    match base64::Engine::decode(&base64::engine::general_purpose::STANDARD, s) {
        Ok(b) => Some(b),
        Err(_) => None,
    }
}

/// Name for the PBKDF2-HMAC-SHA256 32-byte key derived from a salt, a
/// secret and an iteration count.
pub uninterp spec fn pbkdf2_key(salt: Seq<u8>, secret: Seq<u8>, iterations: u32) -> Seq<u8>;

/// Relies on ring's pbkdf2::derive with PBKDF2_HMAC_SHA256 filling a
/// 32-byte buffer; the result depends on the arguments alone.
#[verifier::external_body]
fn derive_key_bytes(salt: &[u8], secret: &[u8], iterations: u32) -> (r: Vec<u8>)
    requires
        iterations >= 1,
    ensures
        r@ == pbkdf2_key(salt@, secret@, iterations),
        r@.len() == 32,
{
    let mut key = [0u8; 32];
    let iters = core::num::NonZeroU32::new(iterations).unwrap();
    ring::pbkdf2::derive(ring::pbkdf2::PBKDF2_HMAC_SHA256, iters, salt, secret, &mut key);
    key.to_vec()
}

/// Name for the AES-256-GCM sealing (ciphertext plus 16-byte tag) of a
/// plaintext under a 32-byte key and a 12-byte nonce.
pub uninterp spec fn aes_gcm_sealed(key: Seq<u8>, nonce: Seq<u8>, plain: Seq<u8>) -> Seq<u8>;

/// Relies on ring's LessSafeKey::seal_in_place_append_tag for AES-256-GCM;
/// the key object is built from the key bytes. The output is the ciphertext
/// with the 16-byte tag appended.
#[verifier::external_body]
fn aead_seal(key_bytes: &[u8], nonce: &[u8; 12], plaintext: &[u8]) -> (r: Option<Vec<u8>>)
    requires
        key_bytes@.len() == 32,
    ensures
        r matches Some(c) ==> c@ == aes_gcm_sealed(key_bytes@, nonce@, plaintext@) && c@.len()
            == plaintext@.len() + 16,
{
    let unbound = match ring::aead::UnboundKey::new(&ring::aead::AES_256_GCM, key_bytes) {
        Ok(k) => k,
        Err(_) => {
            return None;
        },
    };
    let key = ring::aead::LessSafeKey::new(unbound);
    let nonce = ring::aead::Nonce::assume_unique_for_key(*nonce);
    let mut in_out = plaintext.to_vec();
    match key.seal_in_place_append_tag(nonce, ring::aead::Aad::empty(), &mut in_out) {
        Ok(()) => Some(in_out),
        Err(_) => None,
    }
}

/// Relies on ring's LessSafeKey::open_in_place for AES-256-GCM. GCM
/// decryption inverts the keystream and checks the tag, so any accepted
/// input is exactly the sealing of the plaintext it returns.
#[verifier::external_body]
fn aead_open(key_bytes: &[u8], nonce: &[u8; 12], data: &[u8]) -> (r: Option<Vec<u8>>)
    requires
        key_bytes@.len() == 32,
    ensures
        r matches Some(p) ==> aes_gcm_sealed(key_bytes@, nonce@, p@) == data@,
{
    let unbound = match ring::aead::UnboundKey::new(&ring::aead::AES_256_GCM, key_bytes) {
        Ok(k) => k,
        Err(_) => {
            return None;
        },
    };
    let key = ring::aead::LessSafeKey::new(unbound);
    let nonce = ring::aead::Nonce::assume_unique_for_key(*nonce);
    let mut in_out = data.to_vec();
    match key.open_in_place(nonce, ring::aead::Aad::empty(), &mut in_out) {
        Ok(plain) => Some(plain.to_vec()),
        Err(_) => None,
    }
}

/// Relies on ring's SystemRandom::fill: cryptographically secure random
/// bytes; nothing is promised of their values.
#[verifier::external_body]
fn random_bytes(len: usize) -> (r: Option<Vec<u8>>)
    ensures
        r matches Some(b) ==> b@.len() == len,
{
    let rng = ring::rand::SystemRandom::new();
    let mut buf = vec![0u8; len];
    match ring::rand::SecureRandom::fill(&rng, &mut buf) {
        Ok(()) => Some(buf),
        Err(_) => None,
    }
}

/// Relies on keyring's Entry::set_password (the entry handle is built from
/// the service and user names); whether the host has a usable credential
/// store decides the outcome.
#[verifier::external_body]
fn keychain_set(service: &str, user: &str, secret: &str) -> bool {
    match keyring::Entry::new(service, user) {
        Ok(e) => e.set_password(secret).is_ok(),
        Err(_) => false,
    }
}

/// Relies on keyring's Entry::get_password (the entry handle is built from
/// the service and user names); the host credential store decides the
/// outcome.
#[verifier::external_body]
fn keychain_get(service: &str, user: &str) -> Option<String> {
    match keyring::Entry::new(service, user) {
        Ok(e) => e.get_password().ok(),
        Err(_) => None,
    }
}

/// Relies on std's String::from_utf8: succeeds exactly on valid UTF-8, and
/// the returned text encodes back to the input bytes.
#[verifier::external_body]
fn string_from_utf8(bytes: Vec<u8>) -> (r: Option<String>)
    ensures
        r matches Some(s) ==> encode_utf8(s@) == bytes@,
{
    String::from_utf8(bytes).ok()
}

/// Credential encryption and recovery.
pub struct CryptoService;

/// The salt, nonce and ciphertext a well-formed symmetric payload carries:
/// the three base64 fields decode to them, the nonce is 12 bytes, and the
/// ciphertext is the sealing of the credential bytes under the key derived
/// from the salt and the application secret.
pub open spec fn spec_enc_payload_opens_to(payload: Seq<char>, plain: Seq<char>) -> bool {
    let parts = spec_split(payload, ':');
    parts.len() == 4 && parts[0] == "enc"@ && exists|salt: Seq<u8>, nonce: Seq<u8>, data: Seq<u8>|
        #![trigger base64_std(salt), base64_std(nonce), base64_std(data)]
        base64_std(salt) == parts[1] && base64_std(nonce) == parts[2] && base64_std(data)
            == parts[3] && nonce.len() == 12 && aes_gcm_sealed(
            pbkdf2_key(salt, "billly-secret-v1".spec_bytes(), 100000),
            nonce,
            encode_utf8(plain),
        ) == data
}

impl CryptoService {
    /// Stores the credential: preferably in the host keychain, returning
    /// the fixed keychain reference; otherwise as a symmetric `enc:`
    /// payload under a fresh random salt and nonce.
    pub fn encrypt_api_key(api_key: &str) -> (r: Result<String, String>)
        ensures
            r matches Ok(s) ==> s@ == "keychain:billly:openai_api_key"@ || spec_starts_with(
                s@,
                "enc:"@,
            ),
    {
        if keychain_set("billly", "openai_api_key", api_key) {
            return Ok("keychain:billly:openai_api_key".to_owned());
        }
        Self::encrypt_symmetric(api_key)
    }

    /// Recovers the credential from either stored form. A reference that
    /// carries neither the `keychain:` nor the `enc:` prefix is rejected as
    /// unknown; a `keychain:` reference other than the fixed one is
    /// rejected as invalid.
    pub fn decrypt_api_key(encrypted: &str) -> (r: Result<String, String>)
        ensures
            !spec_starts_with(encrypted@, "keychain:"@) && !spec_starts_with(encrypted@, "enc:"@)
                ==> (r matches Err(m) && m@ == "Unknown encrypted format"@),
            spec_starts_with(encrypted@, "keychain:"@) && encrypted@
                != "keychain:billly:openai_api_key"@ ==> (r matches Err(m) && m@
                == "Invalid keychain reference"@),
            spec_starts_with(encrypted@, "enc:"@) ==> (r matches Ok(p)
                ==> spec_enc_payload_opens_to(encrypted@, p@)),
    {
        proof {
            lemma_prefixes_disjoint(encrypted@);
        }
        if str_starts_with(encrypted, "keychain:") {
            return Self::retrieve_from_keychain(encrypted);
        }
        if str_starts_with(encrypted, "enc:") {
            return Self::decrypt_symmetric(encrypted);
        }
        Err("Unknown encrypted format".to_owned())
    }

    fn retrieve_from_keychain(reference: &str) -> (r: Result<String, String>)
        ensures
            reference@ != "keychain:billly:openai_api_key"@ ==> (r matches Err(m) && m@
                == "Invalid keychain reference"@),
    {
        if !str_eq(reference, "keychain:billly:openai_api_key") {
            return Err("Invalid keychain reference".to_owned());
        }
        match keychain_get("billly", "openai_api_key") {
            Some(secret) => Ok(secret),
            None => Err("Keychain fetch error".to_owned()),
        }
    }

    fn encrypt_symmetric(plaintext: &str) -> (r: Result<String, String>)
        ensures
            r matches Ok(s) ==> spec_starts_with(s@, "enc:"@),
    {
        let salt = match random_bytes(16) {
            Some(b) => b,
            None => {
                return Err("Failed to generate salt".to_owned());
            },
        };
        let nonce = match random_bytes(12) {
            Some(b) => b,
            None => {
                return Err("Failed to generate nonce".to_owned());
            },
        };
        let key = derive_key_bytes(salt.as_slice(), "billly-secret-v1".as_bytes(), 100000);
        let mut nonce_arr = [0u8; 12];
        let mut i: usize = 0;
        while i < 12
            invariant
                0 <= i <= 12,
                nonce@.len() == 12,
            decreases 12 - i,
        {
            nonce_arr[i] = nonce[i];
            i = i + 1;
        }
        let sealed = match aead_seal(key.as_slice(), &nonce_arr, plaintext.as_bytes()) {
            Some(c) => c,
            None => {
                return Err("Encryption failed".to_owned());
            },
        };
        let mut payload = "enc:".to_owned();
        payload.append(b64_encode(salt.as_slice()).as_str());
        payload.append(":");
        payload.append(b64_encode(nonce.as_slice()).as_str());
        payload.append(":");
        payload.append(b64_encode(sealed.as_slice()).as_str());
        proof {
            reveal_strlit("enc:");
            assert(payload@.subrange(0, 4) =~= "enc:"@);
        }
        Ok(payload)
    }

    fn decrypt_symmetric(ciphertext: &str) -> (r: Result<String, String>)
        ensures
            r matches Ok(p) ==> spec_enc_payload_opens_to(ciphertext@, p@),
    {
        let parts = split_char(ciphertext, ':');
        if parts.len() != 4 {
            return Err("Invalid encrypted payload".to_owned());
        }
        if !str_eq(parts[0].as_str(), "enc") {
            return Err("Invalid encrypted payload".to_owned());
        }
        let salt = match b64_decode(parts[1].as_str()) {
            Some(b) => b,
            None => {
                return Err("Decode salt failed".to_owned());
            },
        };
        let nonce = match b64_decode(parts[2].as_str()) {
            Some(b) => b,
            None => {
                return Err("Decode nonce failed".to_owned());
            },
        };
        let data = match b64_decode(parts[3].as_str()) {
            Some(b) => b,
            None => {
                return Err("Decode ciphertext failed".to_owned());
            },
        };
        if nonce.len() != 12 {
            return Err("Invalid nonce length".to_owned());
        }
        let key = derive_key_bytes(salt.as_slice(), "billly-secret-v1".as_bytes(), 100000);
        let mut nonce_arr = [0u8; 12];
        let mut i: usize = 0;
        while i < 12
            invariant
                0 <= i <= 12,
                nonce@.len() == 12,
                forall|j: int| 0 <= j < i ==> nonce_arr@[j] == nonce@[j],
            decreases 12 - i,
        {
            nonce_arr[i] = nonce[i];
            i = i + 1;
        }
        proof {
            assert(nonce_arr@ =~= nonce@);
        }
        let opened = match aead_open(key.as_slice(), &nonce_arr, data.as_slice()) {
            Some(p) => p,
            None => {
                return Err("Decryption failed".to_owned());
            },
        };
        let ghost salt_b = salt@;
        let ghost nonce_b = nonce@;
        let ghost data_b = data@;
        match string_from_utf8(opened) {
            Some(text) => {
                proof {
                    assert(base64_std(data_b) == spec_split(ciphertext@, ':')[3]);
                    assert(spec_enc_payload_opens_to(ciphertext@, text@));
                }
                Ok(text)
            },
            None => Err("Decrypted payload is not text".to_owned()),
        }
    }
}

/// No text carries both the `enc:` and the `keychain:` prefix.
proof fn lemma_prefixes_disjoint(s: Seq<char>)
    ensures
        !(spec_starts_with(s, "enc:"@) && spec_starts_with(s, "keychain:"@)),
{
    reveal_strlit("enc:");
    reveal_strlit("keychain:");
    if spec_starts_with(s, "enc:"@) && spec_starts_with(s, "keychain:"@) {
        assert(s.subrange(0, 4)[0] == s[0]);
        assert(s.subrange(0, 9)[0] == s[0]);
        assert(false);
    }
}

} // verus!
