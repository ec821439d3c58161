//! Encryption of sensitive session fields with AES-256-GCM, under a key
//! derived by Argon2id from the configured secret and salt. A sealed value
//! is the base64url (unpadded) text of the 12-byte nonce followed by the
//! ciphertext and its tag.
use vstd::prelude::*;

verus! {

/// The key Argon2id (default parameters) derives from `secret` and `salt`.
pub uninterp spec fn argon2id_key(secret: Seq<u8>, salt: Seq<u8>) -> Seq<u8>;

/// AES-256-GCM encryption of `plaintext` under `key` and `nonce`, tag appended.
pub uninterp spec fn aes_gcm_seal(key: Seq<u8>, nonce: Seq<u8>, plaintext: Seq<u8>) -> Seq<u8>;

/// AES-256-GCM decryption; `None` when the tag does not authenticate.
pub uninterp spec fn aes_gcm_open(key: Seq<u8>, nonce: Seq<u8>, sealed: Seq<u8>) -> Option<Seq<u8>>;

/// The unpadded base64url text of `bytes`.
pub uninterp spec fn b64url_encode(bytes: Seq<u8>) -> Seq<char>;

/// The bytes of an unpadded base64url text; `None` when it is not one.
pub uninterp spec fn b64url_decode(text: Seq<char>) -> Option<Seq<u8>>;

/// Largest password or salt Argon2 accepts (`argon2::MAX_PWD_LEN`, `MAX_SALT_LEN`).
pub open spec fn argon2_max_len() -> int {
    0xFFFF_FFFF
}

/// Largest plaintext AES-GCM encrypts (`aes_gcm::P_MAX`, 2^36 bytes).
pub open spec fn aes_gcm_max_plaintext() -> int {
    0x10_0000_0000
}

/// Argon2id with default parameters (`Argon2::default().hash_password_into`)
/// into a 32-byte key. The source rejects exactly a password longer than
/// `MAX_PWD_LEN` and a salt shorter than 8 or longer than `MAX_SALT_LEN` bytes.
#[verifier::external_body]
fn argon2_key(secret: &[u8], salt: &[u8]) -> (r: Option<Vec<u8>>)
    ensures
        (r is Some) == (secret@.len() <= argon2_max_len() && 8 <= salt@.len() <= argon2_max_len()),
        r is Some ==> r->0@ == argon2id_key(secret@, salt@) && r->0@.len() == 32,
{
    let mut key = [0u8; 32];
    match argon2::Argon2::default().hash_password_into(secret, salt, &mut key) {
        Ok(()) => Some(key.to_vec()),
        Err(_) => None,
    }
}

/// AES-256-GCM encryption (`aead::Aead::encrypt` of `aes_gcm::Aes256Gcm`).
/// The source refuses a plaintext over `P_MAX` bytes; the output is the
/// ciphertext (as long as the plaintext) followed by the 16-byte tag, and
/// decrypting it under the same key and nonce gives the plaintext back.
#[verifier::external_body]
fn aes_seal(key: &[u8], nonce: &[u8], plaintext: &[u8]) -> (r: Option<Vec<u8>>)
    requires
        key@.len() == 32,
        nonce@.len() == 12,
    ensures
        (r is Some) == (plaintext@.len() <= aes_gcm_max_plaintext()),
        r is Some ==> r->0@ == aes_gcm_seal(key@, nonce@, plaintext@),
        r is Some ==> r->0@.len() == plaintext@.len() + 16,
        r is Some ==> aes_gcm_open(key@, nonce@, r->0@) == Some(plaintext@),
{
    let cipher = <aes_gcm::Aes256Gcm as aes_gcm::aead::KeyInit>::new(
        aes_gcm::Key::<aes_gcm::Aes256Gcm>::from_slice(key),
    );
    aes_gcm::aead::Aead::encrypt(&cipher, aes_gcm::Nonce::from_slice(nonce), plaintext).ok()
}

/// AES-256-GCM decryption (`aead::Aead::decrypt` of `aes_gcm::Aes256Gcm`).
#[verifier::external_body]
fn aes_open(key: &[u8], nonce: &[u8], sealed: &[u8]) -> (r: Option<Vec<u8>>)
    requires
        key@.len() == 32,
        nonce@.len() == 12,
    ensures
        r is Some ==> aes_gcm_open(key@, nonce@, sealed@) == Some(r->0@),
        r is None ==> aes_gcm_open(key@, nonce@, sealed@) is None,
{
    let cipher = <aes_gcm::Aes256Gcm as aes_gcm::aead::KeyInit>::new(
        aes_gcm::Key::<aes_gcm::Aes256Gcm>::from_slice(key),
    );
    aes_gcm::aead::Aead::decrypt(&cipher, aes_gcm::Nonce::from_slice(nonce), sealed).ok()
}

/// A fresh random 96-bit nonce (`AeadCore::generate_nonce` with `OsRng`).
/// Only its length is stated: the bytes are random.
#[verifier::external_body]
fn fresh_nonce() -> (n: Vec<u8>)
    ensures
        n@.len() == 12,
{
    <aes_gcm::Aes256Gcm as aes_gcm::AeadCore>::generate_nonce(&mut aes_gcm::aead::OsRng).to_vec()
}

/// Unpadded base64url encoding (`URL_SAFE_NO_PAD.encode`); decoding the
/// text gives the bytes back.
#[verifier::external_body]
fn b64_encode(bytes: &[u8]) -> (s: String)
    ensures
        s@ == b64url_encode(bytes@),
        b64url_decode(s@) == Some(bytes@),
{
    base64::Engine::encode(&base64::engine::general_purpose::URL_SAFE_NO_PAD, bytes)
}

/// Unpadded base64url decoding (`URL_SAFE_NO_PAD.decode`).
#[verifier::external_body]
pub fn b64_decode(text: &str) -> (r: Option<Vec<u8>>)
    ensures
        r is Some ==> b64url_decode(text@) == Some(r->0@),
        r is None ==> b64url_decode(text@) is None,
{
    base64::Engine::decode(&base64::engine::general_purpose::URL_SAFE_NO_PAD, text).ok()
}

/// Why key set-up, encryption or decryption failed.
#[derive(Debug, Clone, Copy, PartialEq, Eq, Structural)]
pub enum CryptoError {
    /// The secret is empty.
    EmptySecret,
    /// The salt has fewer than 16 bytes.
    ShortSalt { bytes: usize },
    /// Argon2 refused the secret or the salt.
    KeyDerivation,
    /// The plaintext is too long for AES-GCM.
    Encrypt,
    /// The sealed text is not base64url.
    Base64,
    /// The sealed bytes are no longer than a nonce.
    TooShort,
    /// The ciphertext does not authenticate under the key.
    Decrypt,
}

/// The text a crypto error is reported with.
pub open spec fn crypto_error_text(e: CryptoError) -> Seq<char> {
    match e {
        CryptoError::EmptySecret => "bff_secret.secret 为空，拒绝使用弱密钥"@,
        CryptoError::ShortSalt { bytes } => "bff_secret.salt 长度不足（"@ + crate::utils::text::decimal_text(
            bytes as nat,
        ) + " 字节，需要 ≥16 字节）"@,
        CryptoError::KeyDerivation => "Argon2 密钥派生失败"@,
        CryptoError::Encrypt => "加密失败"@,
        CryptoError::Base64 => "base64 解码失败"@,
        CryptoError::TooShort => "密文长度非法"@,
        CryptoError::Decrypt => "解密失败"@,
    }
}

impl CryptoError {
    /// The text of this error.
    pub fn message(&self) -> (s: String)
        ensures
            s@ == crypto_error_text(*self),
    {
        match self {
            CryptoError::EmptySecret => "bff_secret.secret 为空，拒绝使用弱密钥".to_owned(),
            CryptoError::ShortSalt { bytes } => {
                let mut s = crate::utils::text::concat2(
                    "bff_secret.salt 长度不足（",
                    crate::utils::text::format_u64(*bytes as u64).as_str(),
                );
                crate::utils::text::push_str(&mut s, " 字节，需要 ≥16 字节）");
                s
            },
            CryptoError::KeyDerivation => "Argon2 密钥派生失败".to_owned(),
            CryptoError::Encrypt => "加密失败".to_owned(),
            CryptoError::Base64 => "base64 解码失败".to_owned(),
            CryptoError::TooShort => "密文长度非法".to_owned(),
            CryptoError::Decrypt => "解密失败".to_owned(),
        }
    }
}

/// An AES-256-GCM key.
#[derive(Debug)]
pub struct Cipher {
    key: Vec<u8>,
}

impl Cipher {
    #[verifier::type_invariant]
    spec fn inv(self) -> bool {
        self.key@.len() == 32
    }

    /// The key bytes.
    pub closed spec fn key_bytes(self) -> Seq<u8> {
        self.key@
    }
}

/// What `init` gives for a secret and a salt (as text).
pub open spec fn init_spec(secret: Seq<char>, salt: Seq<char>) -> Result<Seq<u8>, CryptoError> {
    let sb = vstd::utf8::encode_utf8(secret);
    let tb = vstd::utf8::encode_utf8(salt);
    if secret.len() == 0 {
        Err(CryptoError::EmptySecret)
    } else if (tb.len() as usize) < 16 {
        Err(CryptoError::ShortSalt { bytes: tb.len() as usize })
    } else if !(sb.len() <= argon2_max_len() && tb.len() <= argon2_max_len()) {
        Err(CryptoError::KeyDerivation)
    } else {
        Ok(argon2id_key(sb, tb))
    }
}

/// Derives the encryption key from the configured secret and salt. An empty
/// secret and a salt under 16 bytes are refused.
pub fn init(secret: &str, salt: &str) -> (r: Result<Cipher, CryptoError>)
    ensures
        match r {
            Ok(c) => init_spec(secret@, salt@) == Ok::<Seq<u8>, CryptoError>(c.key_bytes()),
            Err(e) => init_spec(secret@, salt@) == Err::<Seq<u8>, CryptoError>(e),
        },
{
    if secret.is_empty() {
        return Err(CryptoError::EmptySecret);
    }
    if salt.len() < 16 {
        return Err(CryptoError::ShortSalt { bytes: salt.len() });
    }
    match argon2_key(secret.as_bytes(), salt.as_bytes()) {
        Some(key) => Ok(Cipher { key }),
        None => Err(CryptoError::KeyDerivation),
    }
}

/// `text` is a sealing of `plaintext` under `key`: the base64url text of some
/// 12-byte nonce followed by the AES-GCM encryption under that nonce.
pub open spec fn sealed_by(key: Seq<u8>, plaintext: Seq<u8>, text: Seq<char>) -> bool {
    exists|nonce: Seq<u8>|
        nonce.len() == 12 && #[trigger] b64url_encode(nonce + aes_gcm_seal(key, nonce, plaintext))
            == text
}

/// What `decrypt` gives for a sealed text under `key`.
pub open spec fn decrypt_spec(key: Seq<u8>, text: Seq<char>) -> Result<Seq<u8>, CryptoError> {
    match b64url_decode(text) {
        None => Err(CryptoError::Base64),
        Some(raw) => if raw.len() <= 12 {
            Err(CryptoError::TooShort)
        } else {
            match aes_gcm_open(key, raw.take(12), raw.skip(12)) {
                Some(p) => Ok(p),
                None => Err(CryptoError::Decrypt),
            }
        },
    }
}

/// Seals `plaintext` under a fresh random nonce. Decrypting the result
/// under the same key gives the plaintext back.
pub fn encrypt(cipher: &Cipher, plaintext: &[u8]) -> (r: Result<String, CryptoError>)
    ensures
        r is Ok <==> plaintext@.len() <= aes_gcm_max_plaintext(),
        r matches Ok(s) ==> sealed_by(cipher.key_bytes(), plaintext@, s@),
        r matches Ok(s) ==> decrypt_spec(cipher.key_bytes(), s@) == Ok::<Seq<u8>, CryptoError>(plaintext@),
        r matches Err(e) ==> e == CryptoError::Encrypt,
{
    proof {
        use_type_invariant(cipher);
    }
    let nonce = fresh_nonce();
    match aes_seal(cipher.key.as_slice(), nonce.as_slice(), plaintext) {
        Some(ct) => {
            let mut out = nonce;
            let mut ct = ct;
            let ghost n = out@;
            let ghost c = ct@;
            out.append(&mut ct);
            assert(out@ == n + c);
            let s = b64_encode(out.as_slice());
            assert(b64url_encode(n + aes_gcm_seal(cipher.key_bytes(), n, plaintext@)) == s@);
            assert((n + c).take(12) =~= n);
            assert((n + c).skip(12) =~= c);
            Ok(s)
        },
        None => Err(CryptoError::Encrypt),
    }
}

/// Opens a sealed text: base64url-decodes it, splits off the 12-byte nonce
/// and decrypts the rest.
pub fn decrypt(cipher: &Cipher, encoded: &str) -> (r: Result<Vec<u8>, CryptoError>)
    ensures
        match r {
            Ok(p) => decrypt_spec(cipher.key_bytes(), encoded@) == Ok::<Seq<u8>, CryptoError>(p@),
            Err(e) => decrypt_spec(cipher.key_bytes(), encoded@) == Err::<Seq<u8>, CryptoError>(e),
        },
{
    proof {
        use_type_invariant(cipher);
    }
    let raw = match b64_decode(encoded) {
        Some(b) => b,
        None => {
            return Err(CryptoError::Base64);
        },
    };
    if raw.len() <= 12 {
        return Err(CryptoError::TooShort);
    }
    let nonce = slice_bytes(&raw, 0, 12);
    let sealed = slice_bytes(&raw, 12, raw.len());
    assert(nonce@ =~= raw@.take(12));
    assert(sealed@ =~= raw@.skip(12));
    match aes_open(cipher.key.as_slice(), nonce.as_slice(), sealed.as_slice()) {
        Some(p) => Ok(p),
        None => Err(CryptoError::Decrypt),
    }
}

/// The bytes `v[from..to]`.
fn slice_bytes(v: &Vec<u8>, from: usize, to: usize) -> (r: Vec<u8>)
    requires
        from <= to <= v.len(),
    ensures
        r@ == v@.subrange(from as int, to as int),
{
    let mut r: Vec<u8> = Vec::new();
    let mut i: usize = from;
    while i < to
        invariant
            from <= i <= to <= v.len(),
            r@ == v@.subrange(from as int, i as int),
        decreases to - i,
    {
        r.push(v[i]);
        assert(v@.subrange(from as int, i + 1) =~= v@.subrange(from as int, i as int).push(v@[i as int]));
        i += 1;
    }
    r
}

} // verus!
