//! Secrets: random tokens, owner API keys, token hashes, the key that seals
//! stored GitHub tokens, and the sealing itself.
use base64::Engine;
use base64::engine::general_purpose::{STANDARD, URL_SAFE_NO_PAD};
use chacha20poly1305::aead::rand_core::RngCore;
use chacha20poly1305::aead::{Aead, OsRng};
use chacha20poly1305::{ChaCha20Poly1305, Key, KeyInit, Nonce};
use sha2::{Digest, Sha256};
use vstd::prelude::*;
use vstd::slice::slice_subrange;
use vstd::utf8::{decode_utf8, encode_utf8, encode_utf8_decode_utf8, encode_utf8_valid_utf8, valid_utf8};
use crate::error::{AppError, internal};
use crate::text::{chars_of, eq_ignore_ascii_case, first_index, lemma_lead_count, not_char, string_of_range, trim, trim_range, utf8_len};
use crate::headers::bearer_in;

verus! {

broadcast use vstd::string::group_string_axioms;

// ---------------------------------------------------------------------------
// Names for what the outside crates compute
// ---------------------------------------------------------------------------
/// The SHA-256 digest of `data` (`sha2`).
pub uninterp spec fn sha256_digest(data: Seq<u8>) -> Seq<u8>;

/// The bytes that `base64`'s `STANDARD` engine decodes from `text`, if it accepts it.
pub uninterp spec fn base64_standard_decoded(text: Seq<u8>) -> Option<Seq<u8>>;

/// The bytes that `base64`'s `URL_SAFE_NO_PAD` engine decodes from `text`, if it accepts it.
pub uninterp spec fn base64_url_decoded(text: Seq<u8>) -> Option<Seq<u8>>;

/// The ChaCha20-Poly1305 ciphertext (with its tag) of `plaintext` under `key` and `nonce`.
pub uninterp spec fn chacha_sealed(key: Seq<u8>, nonce: Seq<u8>, plaintext: Seq<u8>) -> Seq<u8>;

/// The plaintext of a ChaCha20-Poly1305 ciphertext under `key` and `nonce`,
/// if it authenticates.
pub uninterp spec fn chacha_opened(key: Seq<u8>, nonce: Seq<u8>, ciphertext: Seq<u8>) -> Option<Seq<u8>>;

/// A character of the URL-safe base64 alphabet.
pub open spec fn is_url_safe_b64(c: char) -> bool {
    ('A' <= c && c <= 'Z') || ('a' <= c && c <= 'z') || ('0' <= c && c <= '9') || c == '-' || c
        == '_'
}

/// The length of the unpadded base64 text of `n` bytes.
pub open spec fn b64_len(n: nat) -> nat {
    4 * (n / 3) + if n % 3 == 0 {
        0nat
    } else if n % 3 == 1 {
        2nat
    } else {
        3nat
    }
}

/// The character of the URL-safe base64 alphabet for the six-bit value `v`:
/// `A`-`Z`, `a`-`z`, `0`-`9`, then `-` and `_`.
pub open spec fn b64_char(v: nat) -> char {
    if v < 26 {
        (65 + v) as char
    } else if v < 52 {
        (97 + (v - 26)) as char
    } else if v < 62 {
        (48 + (v - 52)) as char
    } else if v == 62 {
        '-'
    } else {
        '_'
    }
}

/// The URL-safe base64 text of `data` without padding (`base64`'s
/// `URL_SAFE_NO_PAD`): each group of three bytes, read as 24 bits, gives four
/// characters of six bits each; a last group of one or two bytes gives two or
/// three characters, its bits filled out with zeros.
pub open spec fn base64_url_text(data: Seq<u8>) -> Seq<char>
    decreases data.len(),
{
    if data.len() == 0 {
        Seq::empty()
    } else if data.len() == 1 {
        let n = data[0] as nat;
        seq![b64_char(n / 4), b64_char((n % 4) * 16)]
    } else if data.len() == 2 {
        let n = data[0] as nat * 256 + data[1] as nat;
        seq![b64_char(n / 1024), b64_char((n / 16) % 64), b64_char((n % 16) * 4)]
    } else {
        let n = data[0] as nat * 65536 + data[1] as nat * 256 + data[2] as nat;
        seq![b64_char(n / 262144), b64_char((n / 4096) % 64), b64_char((n / 64) % 64), b64_char(n % 64)]
            + base64_url_text(data.skip(3))
    }
}

proof fn lemma_b64_char_safe(v: nat)
    ensures
        is_url_safe_b64(b64_char(v)),
{
}

/// The URL-safe base64 text of `data` has `b64_len(data.len())` characters,
/// all of the URL-safe alphabet.
pub proof fn lemma_base64_url_text_shape(data: Seq<u8>)
    ensures
        base64_url_text(data).len() == b64_len(data.len()),
        forall|i: int|
            0 <= i < base64_url_text(data).len() ==> is_url_safe_b64(
                #[trigger] base64_url_text(data)[i],
            ),
    decreases data.len(),
{
    let t = base64_url_text(data);
    if data.len() < 3 {
        assert forall|i: int| 0 <= i < t.len() implies is_url_safe_b64(#[trigger] t[i]) by {
            if data.len() == 1 {
                let n = data[0] as nat;
                lemma_b64_char_safe(n / 4);
                lemma_b64_char_safe((n % 4) * 16);
            } else {
                let n = data[0] as nat * 256 + data[1] as nat;
                lemma_b64_char_safe(n / 1024);
                lemma_b64_char_safe((n / 16) % 64);
                lemma_b64_char_safe((n % 16) * 4);
            }
        }
    } else {
        let rest = data.skip(3);
        lemma_base64_url_text_shape(rest);
        let n = data[0] as nat * 65536 + data[1] as nat * 256 + data[2] as nat;
        let head = seq![b64_char(n / 262144), b64_char((n / 4096) % 64), b64_char((n / 64) % 64), b64_char(n % 64)];
        assert(t == head + base64_url_text(rest));
        assert forall|i: int| 0 <= i < t.len() implies is_url_safe_b64(#[trigger] t[i]) by {
            if i < 4 {
                lemma_b64_char_safe(n / 262144);
                lemma_b64_char_safe((n / 4096) % 64);
                lemma_b64_char_safe((n / 64) % 64);
                lemma_b64_char_safe(n % 64);
            } else {
                assert(t[i] == base64_url_text(rest)[i - 4]);
            }
        }
    }
}

// ---------------------------------------------------------------------------
// Trusted calls
// ---------------------------------------------------------------------------
/// `Sha256::digest`. Trusted: the digest is named, not described; it is 32 bytes.
#[verifier::external_body]
fn sha256(data: &[u8]) -> (r: Vec<u8>)
    ensures
        r@ == sha256_digest(data@),
        r@.len() == 32,
{
    Sha256::digest(data).to_vec()
}

/// `OsRng.fill_bytes` on `n` fresh bytes. Trusted: only the length of the
/// random bytes is claimed. It panics if the operating system cannot supply
/// randomness, which no contract can rule out.
#[verifier::external_body]
fn random_bytes(n: usize) -> (r: Vec<u8>)
    ensures
        r@.len() == n,
{
    let mut bytes = vec![0u8; n];
    OsRng.fill_bytes(&mut bytes);
    bytes
}

/// `URL_SAFE_NO_PAD.encode`. Trusted: it writes the unpadded URL-safe base64
/// text that `base64_url_text` states. It panics only when the length of that
/// text overflows, which `requires` rules out.
#[verifier::external_body]
fn base64_url_encode(data: &[u8]) -> (r: String)
    requires
        data@.len() / 3 * 4 + 4 <= usize::MAX,
    ensures
        r@ == base64_url_text(data@),
{
    URL_SAFE_NO_PAD.encode(data)
}

/// `STANDARD.decode`, with the error turned into its message. Trusted: the
/// bytes are named.
#[verifier::external_body]
fn base64_standard_decode(text: &[u8]) -> (r: Result<Vec<u8>, String>)
    ensures
        match r {
            Ok(v) => base64_standard_decoded(text@) == Some(v@),
            Err(_) => base64_standard_decoded(text@) is None,
        },
{
    STANDARD.decode(text).map_err(|e| e.to_string())
}

/// `URL_SAFE_NO_PAD.decode`, with the error turned into its message.
/// Trusted: the bytes are named.
#[verifier::external_body]
fn base64_url_decode(text: &[u8]) -> (r: Result<Vec<u8>, String>)
    ensures
        match r {
            Ok(v) => base64_url_decoded(text@) == Some(v@),
            Err(_) => base64_url_decoded(text@) is None,
        },
{
    URL_SAFE_NO_PAD.decode(text).map_err(|e| e.to_string())
}

/// The longest text, in bytes, that ChaCha20-Poly1305 seals or opens here:
/// `u32::MAX - 1` blocks of 64 bytes, the key stream left after the block
/// that keys the authenticator.
pub const MAX_SEALED_BYTES: u64 = 274877906816;

/// `ChaCha20Poly1305::encrypt` with no associated data. Trusted: the
/// ciphertext is named; it is the plaintext's length plus the 16-byte tag;
/// it is always produced for a plaintext within `MAX_SEALED_BYTES` (longer
/// ones are refused, or make the key stream run out and panic, so
/// `requires` leaves them out); and decrypting it under the same key and
/// nonce gives the plaintext back, which is what an AEAD cipher is.
#[verifier::external_body]
fn chacha_seal(key: &[u8], nonce: &[u8], plaintext: &[u8]) -> (r: Option<Vec<u8>>)
    requires
        key@.len() == 32,
        nonce@.len() == 12,
        plaintext@.len() <= MAX_SEALED_BYTES,
    ensures
        r is Some,
        r matches Some(c) ==> c@ == chacha_sealed(key@, nonce@, plaintext@),
        r matches Some(c) ==> c@.len() == plaintext@.len() + 16,
        r matches Some(c) ==> chacha_opened(key@, nonce@, c@) == Some(plaintext@),
{
    ChaCha20Poly1305::new(Key::from_slice(key)).encrypt(Nonce::from_slice(nonce), plaintext).ok()
}

/// `ChaCha20Poly1305::decrypt` with no associated data. Trusted: the
/// plaintext, or its absence when the ciphertext does not authenticate, is
/// named. A body (the ciphertext less its tag) longer than
/// `MAX_SEALED_BYTES` can make the key stream run out and panic, so
/// `requires` leaves it out.
#[verifier::external_body]
fn chacha_open(key: &[u8], nonce: &[u8], ciphertext: &[u8]) -> (r: Option<Vec<u8>>)
    requires
        key@.len() == 32,
        nonce@.len() == 12,
        ciphertext@.len() <= MAX_SEALED_BYTES + 16,
    ensures
        match r {
            Some(p) => chacha_opened(key@, nonce@, ciphertext@) == Some(p@),
            None => chacha_opened(key@, nonce@, ciphertext@) is None,
        },
{
    ChaCha20Poly1305::new(Key::from_slice(key)).decrypt(Nonce::from_slice(nonce), ciphertext).ok()
}

/// `String::from_utf8`, with the error turned into its message. Trusted: it
/// accepts exactly the valid UTF-8 byte strings and decodes them.
#[verifier::external_body]
fn utf8_string(bytes: Vec<u8>) -> (r: Result<String, String>)
    ensures
        match r {
            Ok(s) => valid_utf8(bytes@) && s@ == decode_utf8(bytes@),
            Err(_) => !valid_utf8(bytes@),
        },
{
    String::from_utf8(bytes).map_err(|e| e.to_string())
}

// ---------------------------------------------------------------------------
// Tokens and hashes
// ---------------------------------------------------------------------------
/// The stored form of a session token, OAuth state or API key: the SHA-256
/// digest of its UTF-8 bytes.
pub fn hash_token(token: &str) -> (r: Vec<u8>)
    ensures
        r@ == sha256_digest(encode_utf8(token@)),
        r@.len() == 32,
{
    sha256(token.as_bytes())
}

/// A fresh random token: `bytes` random bytes in URL-safe unpadded base64.
pub fn random_token(bytes: usize) -> (r: String)
    requires
        bytes / 3 * 4 + 4 <= usize::MAX,
    ensures
        exists|b: Seq<u8>| b.len() == bytes && r@ == base64_url_text(b),
        r@.len() == b64_len(bytes as nat),
        forall|i: int| 0 <= i < r@.len() ==> is_url_safe_b64(#[trigger] r@[i]),
{
    let value = random_bytes(bytes);
    let r = base64_url_encode(value.as_slice());
    proof {
        lemma_base64_url_text_shape(value@);
    }
    r
}

/// The shape of an owner API key: `kk_` and 43 URL-safe base64 characters.
pub open spec fn is_api_key(k: Seq<char>) -> bool {
    &&& k.len() == 46
    &&& k.take(3) == "kk_"@
    &&& forall|i: int| 3 <= i < 46 ==> is_url_safe_b64(#[trigger] k[i])
}

/// A new owner API key: `kk_` followed by 32 random bytes in URL-safe base64.
pub fn new_api_key() -> (r: String)
    ensures
        is_api_key(r@),
        exists|b: Seq<u8>| b.len() == 32 && r@ == "kk_"@ + base64_url_text(b),
{
    let token = random_token(32);
    let mut key = "kk_".to_string();
    key.append(token.as_str());
    proof {
        reveal_strlit("kk_");
        assert(key@.take(3) =~= "kk_"@);
        assert forall|i: int| 3 <= i < 46 implies is_url_safe_b64(#[trigger] key@[i]) by {
            assert(key@[i] == token@[i - 3]);
        }
    }
    key
}

/// The PKCE challenge for `verifier`: the URL-safe base64 SHA-256 digest of it.
pub fn pkce_challenge(verifier: &str) -> (r: String)
    ensures
        r@ == base64_url_text(sha256_digest(encode_utf8(verifier@))),
{
    let digest = sha256(verifier.as_bytes());
    base64_url_encode(digest.as_slice())
}

pub proof fn lemma_ascii_utf8_len(s: Seq<char>)
    requires
        forall|i: int| 0 <= i < s.len() ==> (s[i] as u32) < 0x80,
    ensures
        utf8_len(s) == s.len(),
    decreases s.len(),
{
    if s.len() > 0 {
        lemma_ascii_utf8_len(s.drop_last());
    }
}

/// Every key that `new_api_key` issues is accepted by the owner API: the
/// header `Bearer <key>` yields the key.
pub proof fn law_issued_key_is_accepted(key: Seq<char>)
    requires
        is_api_key(key),
    ensures
        bearer_in("Bearer "@ + key) == Some(key),
{
    reveal_strlit("Bearer ");
    reveal_strlit("bearer");
    reveal_strlit("kk_");
    let h = "Bearer "@ + key;
    assert(h[6] == ' ');
    assert forall|j: int| 0 <= j < 6 implies not_char(' ')(h[j]) by {}
    lemma_lead_count(h, not_char(' '), 6);
    assert(first_index(h, ' ') == 6);
    assert(h.take(6) =~= seq!['B', 'e', 'a', 'r', 'e', 'r']);
    assert(eq_ignore_ascii_case(h.take(6), "bearer"@));
    assert(h.skip(7) =~= key);
    assert("kk_"@ =~= key.take(3));
    assert forall|i: int| 0 <= i < key.len() implies (key[i] as u32) < 0x80 by {
        if i < 3 {
            assert(key[i] == "kk_"@[i]);
        } else {
            assert(is_url_safe_b64(key[i]));
        }
    }
    lemma_ascii_utf8_len(key);
}

// ---------------------------------------------------------------------------
// Development identities
// ---------------------------------------------------------------------------
/// The number whose big-endian bytes are `s`.
pub open spec fn big_endian(s: Seq<u8>) -> nat
    decreases s.len(),
{
    if s.len() == 0 {
        0
    } else {
        big_endian(s.drop_last()) * 256 + (s.last() as nat)
    }
}

/// The non-negative `i64` made of the first eight bytes of `d`, big-endian,
/// with the sign bit cleared.
pub open spec fn id_of_digest(d: Seq<u8>) -> int {
    (big_endian(d.take(8)) % 0x8000_0000_0000_0000) as int
}

proof fn lemma_big_endian_bound(s: Seq<u8>)
    requires
        s.len() <= 8,
    ensures
        big_endian(s) < pow256(s.len()),
    decreases s.len(),
{
    if s.len() > 0 {
        lemma_big_endian_bound(s.drop_last());
        let b = big_endian(s.drop_last());
        let p = pow256((s.len() - 1) as nat);
        assert(b * 256 + s.last() < p * 256) by (nonlinear_arith)
            requires
                b < p,
                s.last() < 256,
        ;
    }
}

spec fn pow256(n: nat) -> nat
    decreases n,
{
    if n == 0 {
        1
    } else {
        pow256((n - 1) as nat) * 256
    }
}

/// `i64::from_be_bytes` of the first eight bytes of `d`, with the sign bit cleared.
pub fn id_from_digest(d: &Vec<u8>) -> (r: i64)
    requires
        d@.len() >= 8,
    ensures
        r == id_of_digest(d@),
        r >= 0,
{
    let mut acc: u64 = 0;
    let mut i: usize = 0;
    while i < 8
        invariant
            i <= 8 <= d@.len(),
            acc == big_endian(d@.take(i as int)),
        decreases 8 - i,
    {
        proof {
            assert(d@.take(i + 1).drop_last() =~= d@.take(i as int));
            lemma_big_endian_bound(d@.take(i as int));
            assert(pow256(i as nat) <= 0x100_0000_0000_0000) by {
                reveal_with_fuel(pow256, 9);
            }
        }
        acc = acc * 256 + d[i] as u64;
        i = i + 1;
    }
    let masked = acc & 0x7fff_ffff_ffff_ffffu64;
    assert(masked == acc % 0x8000_0000_0000_0000) by (bit_vector)
        requires
            masked == acc & 0x7fff_ffff_ffff_ffffu64,
    ;
    masked as i64
}

/// The account number the development sign-in gives `login`: taken from the
/// SHA-256 digest of its UTF-8 bytes.
pub fn dev_github_id(login: &str) -> (r: i64)
    ensures
        r == id_of_digest(sha256_digest(encode_utf8(login@))),
        r >= 0,
{
    let digest = sha256(login.as_bytes());
    id_from_digest(&digest)
}

/// The repository number development mode gives `owner/repo`: taken from
/// the SHA-256 digest of the UTF-8 bytes of that path.
pub fn dev_repository_id(owner: &str, repo: &str) -> (r: i64)
    ensures
        r == id_of_digest(sha256_digest(encode_utf8(owner@ + "/"@ + repo@))),
        r >= 0,
{
    let mut path = owner.to_string();
    path.append("/");
    path.append(repo);
    let digest = sha256(path.as_str().as_bytes());
    id_from_digest(&digest)
}

// ---------------------------------------------------------------------------
// Stored GitHub tokens
// ---------------------------------------------------------------------------
/// The 32-byte key that seals stored GitHub tokens.
#[derive(Debug)]
pub struct TokenKey {
    bytes: Vec<u8>,
}

impl TokenKey {
    #[verifier::type_invariant]
    spec fn key_len(self) -> bool {
        self.bytes@.len() == 32
    }

    /// The key's bytes.
    pub closed spec fn bytes_of(self) -> Seq<u8> {
        self.bytes@
    }
}

/// The bytes of a configured key: `STANDARD` base64, or failing that
/// `URL_SAFE_NO_PAD` base64, of its trimmed text.
pub open spec fn key_decoded(text: Seq<char>) -> Option<Seq<u8>> {
    let b = encode_utf8(trim(text));
    match base64_standard_decoded(b) {
        Some(d) => Some(d),
        None => base64_url_decoded(b),
    }
}

/// Reads the token key from its configured text: base64 (standard or
/// URL-safe) of exactly 32 bytes, surrounding whitespace ignored.
pub fn parse_key(value: &str) -> (r: Result<TokenKey, String>)
    ensures
        match key_decoded(value@) {
            Some(d) => if d.len() == 32 {
                r matches Ok(k) && k.bytes_of() == d
            } else {
                r matches Err(m) && m@ == "KNOCK_KNOCK_TOKEN_KEY must encode exactly 32 bytes"@
            },
            None => r is Err,
        },
{
    let v = chars_of(value);
    let (a, b) = trim_range(&v, 0, v.len());
    assert(v@.subrange(0, v.len() as int) =~= value@);
    let trimmed = string_of_range(&v, a, b);
    let text = trimmed.as_str().as_bytes();
    let decoded = match base64_standard_decode(text) {
        Ok(d) => d,
        Err(_) => match base64_url_decode(text) {
            Ok(d) => d,
            Err(e) => return Err(e),
        },
    };
    key_from_bytes(decoded)
}

/// The token key made of the decoded bytes of its configured text, which
/// must be exactly 32 bytes.
pub fn key_from_bytes(decoded: Vec<u8>) -> (r: Result<TokenKey, String>)
    ensures
        decoded@.len() == 32 ==> (r matches Ok(k) && k.bytes_of() == decoded@),
        decoded@.len() != 32 ==> (r matches Err(m) && m@
            == "KNOCK_KNOCK_TOKEN_KEY must encode exactly 32 bytes"@),
{
    if decoded.len() != 32 {
        return Err("KNOCK_KNOCK_TOKEN_KEY must encode exactly 32 bytes".to_string());
    }
    Ok(TokenKey { bytes: decoded })
}

/// Whether `stored` is a token sealed for `token` under `key`: a 12-byte
/// nonce followed by a ciphertext that opens to the token's UTF-8 bytes.
pub open spec fn sealed_token(key: Seq<u8>, stored: Seq<u8>, token: Seq<char>) -> bool {
    &&& encode_utf8(token).len() <= MAX_SEALED_BYTES
    &&& stored.len() == 12 + encode_utf8(token).len() + 16
    &&& chacha_opened(key, stored.take(12), stored.skip(12)) == Some(encode_utf8(token))
    &&& stored.skip(12) == chacha_sealed(key, stored.take(12), encode_utf8(token))
}

/// The token that `stored` holds under `key`, if it is no longer than a
/// sealed token can be, opens, and is UTF-8.
pub open spec fn opened_token(key: Seq<u8>, stored: Seq<u8>) -> Option<Seq<char>> {
    if stored.len() < 13 || stored.len() > 12 + MAX_SEALED_BYTES + 16 {
        None
    } else {
        match chacha_opened(key, stored.take(12), stored.skip(12)) {
            Some(p) => if valid_utf8(p) {
                Some(decode_utf8(p))
            } else {
                None
            },
            None => None,
        }
    }
}

/// Seals a GitHub token for storage under a fresh random nonce.
pub fn encrypt_token(key: &TokenKey, token: &str) -> (r: Result<Vec<u8>, AppError>)
    ensures
        encode_utf8(token@).len() <= MAX_SEALED_BYTES ==> (r matches Ok(v) && sealed_token(
            key.bytes_of(),
            v@,
            token@,
        )),
        encode_utf8(token@).len() > MAX_SEALED_BYTES ==> (r matches Err(AppError::Internal(m)) && m@
            == "token encryption failed"@),
{
    proof {
        use_type_invariant(key);
    }
    if token.as_bytes().len() as u64 > MAX_SEALED_BYTES {
        return Err(internal("token encryption failed".to_string()));
    }
    let nonce = random_bytes(12);
    match chacha_seal(key.bytes.as_slice(), nonce.as_slice(), token.as_bytes()) {
        Some(ciphertext) => {
            let mut stored = nonce;
            let mut rest = ciphertext;
            let ghost n = stored@;
            let ghost c = rest@;
            stored.append(&mut rest);
            assert(stored@.take(12) =~= n);
            assert(stored@.skip(12) =~= c);
            Ok(stored)
        },
        None => Err(internal("token encryption failed".to_string())),
    }
}

/// Opens a stored GitHub token.
pub fn decrypt_token(key: &TokenKey, value: &[u8]) -> (r: Result<String, AppError>)
    ensures
        match opened_token(key.bytes_of(), value@) {
            Some(t) => r matches Ok(s) && s@ == t,
            None => r matches Err(AppError::Internal(_)),
        },
        value@.len() < 13 ==> (r matches Err(AppError::Internal(m)) && m@
            == "invalid encrypted token"@),
        value@.len() > 12 + MAX_SEALED_BYTES + 16 ==> (r matches Err(AppError::Internal(m)) && m@
            == "token decryption failed"@),
        13 <= value@.len() <= 12 + MAX_SEALED_BYTES + 16 && chacha_opened(
            key.bytes_of(),
            value@.take(12),
            value@.skip(12),
        ) is None ==> (r matches Err(AppError::Internal(m)) && m@ == "token decryption failed"@),
{
    proof {
        use_type_invariant(key);
    }
    if value.len() < 13 {
        return Err(internal("invalid encrypted token".to_string()));
    }
    if value.len() as u64 - 12 > MAX_SEALED_BYTES + 16 {
        return Err(internal("token decryption failed".to_string()));
    }
    let nonce = slice_subrange(value, 0, 12);
    let body = slice_subrange(value, 12, value.len());
    assert(nonce@ =~= value@.take(12));
    assert(body@ =~= value@.skip(12));
    let plaintext = match chacha_open(key.bytes.as_slice(), nonce, body) {
        Some(p) => p,
        None => return Err(internal("token decryption failed".to_string())),
    };
    match utf8_string(plaintext) {
        Ok(s) => Ok(s),
        Err(message) => Err(internal(message)),
    }
}

/// What is stored is what is read back: a token sealed under a key opens
/// under that key to the same token.
pub proof fn law_sealed_token_opens(key: Seq<u8>, stored: Seq<u8>, token: Seq<char>)
    requires
        sealed_token(key, stored, token),
    ensures
        opened_token(key, stored) == Some(token),
{
    encode_utf8_valid_utf8(token);
    encode_utf8_decode_utf8(token);
}

} // verus!
