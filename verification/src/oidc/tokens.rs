//! The tokens kept in a session, their sensitive fields encrypted, and the
//! session keys they are stored under.
use crate::utils::crypto::{decrypt, decrypt_spec, encrypt, Cipher, CryptoError};
use crate::utils::text::{concat2, push_str, string_from_utf8};
use vstd::prelude::*;

verus! {

/// Tokens of one login, stored in the session.
#[derive(Debug, Clone)]
pub struct StoredTokens {
    /// The encrypted access token.
    pub access_token_enc: String,
    /// The encrypted refresh token, if any.
    pub refresh_token_enc: Option<String>,
    /// The encrypted ID token, if any.
    pub id_token_enc: Option<String>,
    /// When the access token expires (Unix seconds).
    pub expires_at: i64,
    pub sub: String,
    pub provider: String,
}

/// Why a stored token could not be read back.
#[derive(Debug, Clone, Copy, PartialEq, Eq, Structural)]
pub enum TokenError {
    /// Decryption failed.
    Crypto(CryptoError),
    /// The decrypted bytes are not UTF-8.
    NotUtf8,
}

/// The text a sealed token decrypts to under `key`.
pub open spec fn token_text(key: Seq<u8>, enc: Seq<char>) -> Result<Seq<char>, TokenError> {
    match decrypt_spec(key, enc) {
        Err(e) => Err(TokenError::Crypto(e)),
        Ok(bytes) => if vstd::utf8::valid_utf8(bytes) {
            Ok(vstd::utf8::decode_utf8(bytes))
        } else {
            Err(TokenError::NotUtf8)
        },
    }
}

/// What an optional sealed token reads back as: `None` when absent or not
/// UTF-8 once decrypted.
pub open spec fn optional_token_text(key: Seq<u8>, enc: Option<Seq<char>>) -> Result<Option<Seq<char>>, CryptoError> {
    match enc {
        None => Ok(None),
        Some(e) => match decrypt_spec(key, e) {
            Err(err) => Err(err),
            Ok(bytes) => if vstd::utf8::valid_utf8(bytes) {
                Ok(Some(vstd::utf8::decode_utf8(bytes)))
            } else {
                Ok(None)
            },
        },
    }
}

/// `enc` reads back as `token` under `key`.
pub open spec fn seals(key: Seq<u8>, enc: Seq<char>, token: Seq<char>) -> bool {
    decrypt_spec(key, enc) == Ok::<Seq<u8>, CryptoError>(vstd::utf8::encode_utf8(token))
}

/// `None` stays `None`; a token is sealed under `key`.
pub open spec fn seals_opt(key: Seq<u8>, enc: Option<String>, token: Option<Seq<char>>) -> bool {
    match (enc, token) {
        (None, None) => true,
        (Some(e), Some(t)) => seals(key, e@, t),
        _ => false,
    }
}

/// The views of an optional text.
pub open spec fn opt_view(t: Option<&str>) -> Option<Seq<char>> {
    match t {
        Some(s) => Some(s@),
        None => None,
    }
}

/// A token AES-GCM can seal: its UTF-8 bytes are within the plaintext limit.
pub open spec fn sealable(t: Seq<char>) -> bool {
    vstd::utf8::encode_utf8(t).len() <= crate::utils::crypto::aes_gcm_max_plaintext()
}

/// An absent token, or one that can be sealed.
pub open spec fn sealable_opt(t: Option<Seq<char>>) -> bool {
    match t {
        Some(x) => sealable(x),
        None => true,
    }
}

/// Tokens of a login can be stored: each present token can be sealed.
pub open spec fn tokens_sealable(access: Seq<char>, refresh: Option<Seq<char>>, id: Option<Seq<char>>) -> bool {
    sealable(access) && sealable_opt(refresh) && sealable_opt(id)
}

fn seal_text(cipher: &Cipher, t: &str) -> (r: Result<String, CryptoError>)
    ensures
        r is Ok <==> vstd::utf8::encode_utf8(t@).len() <= crate::utils::crypto::aes_gcm_max_plaintext(),
        r matches Ok(s) ==> seals(cipher.key_bytes(), s@, t@),
        r matches Err(e) ==> e == CryptoError::Encrypt,
{
    encrypt(cipher, t.as_bytes())
}

fn seal_opt(cipher: &Cipher, t: Option<&str>) -> (r: Result<Option<String>, CryptoError>)
    ensures
        r matches Ok(o) ==> seals_opt(cipher.key_bytes(), o, opt_view(t)),
        r matches Err(e) ==> e == CryptoError::Encrypt && t is Some,
        r is Ok <==> sealable_opt(opt_view(t)),
{
    match t {
        Some(s) => match seal_text(cipher, s) {
            Ok(e) => Ok(Some(e)),
            Err(e) => Err(e),
        },
        None => Ok(None),
    }
}

impl StoredTokens {
    /// Tokens of a login at `now` (Unix seconds) whose access token lives
    /// `expires_in_secs` more seconds; the three tokens are encrypted. The
    /// expiry saturates at the bounds of `i64`. Built exactly when each
    /// present token is within the AES-GCM plaintext limit.
    pub fn new_at(
        cipher: &Cipher,
        provider: &str,
        sub: &str,
        access_token: &str,
        refresh_token: Option<&str>,
        id_token: Option<&str>,
        expires_in_secs: i64,
        now: i64,
    ) -> (r: Result<StoredTokens, CryptoError>)
        ensures
            r is Ok <==> tokens_sealable(access_token@, opt_view(refresh_token), opt_view(id_token)),
            match r {
                Ok(t) => {
                    &&& seals(cipher.key_bytes(), t.access_token_enc@, access_token@)
                    &&& seals_opt(cipher.key_bytes(), t.refresh_token_enc, opt_view(refresh_token))
                    &&& seals_opt(cipher.key_bytes(), t.id_token_enc, opt_view(id_token))
                    &&& t.expires_at == if now + expires_in_secs > i64::MAX {
                        i64::MAX as int
                    } else if now + expires_in_secs < i64::MIN {
                        i64::MIN as int
                    } else {
                        now + expires_in_secs
                    }
                    &&& t.sub@ == sub@
                    &&& t.provider@ == provider@
                },
                Err(e) => e == CryptoError::Encrypt,
            },
    {
        let access_token_enc = match seal_text(cipher, access_token) {
            Ok(e) => e,
            Err(e) => {
                return Err(e);
            },
        };
        let refresh_token_enc = match seal_opt(cipher, refresh_token) {
            Ok(e) => e,
            Err(e) => {
                return Err(e);
            },
        };
        let id_token_enc = match seal_opt(cipher, id_token) {
            Ok(e) => e,
            Err(e) => {
                return Err(e);
            },
        };
        let sum: i128 = now as i128 + expires_in_secs as i128;
        let expires_at: i64 = if sum > i64::MAX as i128 {
            i64::MAX
        } else if sum < i64::MIN as i128 {
            i64::MIN
        } else {
            sum as i64
        };
        Ok(StoredTokens {
            access_token_enc,
            refresh_token_enc,
            id_token_enc,
            expires_at,
            sub: sub.to_owned(),
            provider: provider.to_owned(),
        })
    }

    /// Tokens of a login happening now; built exactly when each present
    /// token is within the AES-GCM plaintext limit.
    pub fn new(
        cipher: &Cipher,
        provider: &str,
        sub: &str,
        access_token: &str,
        refresh_token: Option<&str>,
        id_token: Option<&str>,
        expires_in_secs: i64,
    ) -> (r: Result<StoredTokens, CryptoError>)
        ensures
            r is Ok <==> tokens_sealable(access_token@, opt_view(refresh_token), opt_view(id_token)),
            match r {
                Ok(t) => {
                    &&& seals(cipher.key_bytes(), t.access_token_enc@, access_token@)
                    &&& seals_opt(cipher.key_bytes(), t.refresh_token_enc, opt_view(refresh_token))
                    &&& seals_opt(cipher.key_bytes(), t.id_token_enc, opt_view(id_token))
                    &&& t.sub@ == sub@
                    &&& t.provider@ == provider@
                },
                Err(e) => e == CryptoError::Encrypt,
            },
    {
        let now = now_unix();
        Self::new_at(cipher, provider, sub, access_token, refresh_token, id_token, expires_in_secs, now)
    }

    /// The access token, decrypted.
    pub fn access_token(&self, cipher: &Cipher) -> (r: Result<String, TokenError>)
        ensures
            match r {
                Ok(s) => token_text(cipher.key_bytes(), self.access_token_enc@) == Ok::<Seq<char>, TokenError>(s@),
                Err(e) => token_text(cipher.key_bytes(), self.access_token_enc@) == Err::<Seq<char>, TokenError>(e),
            },
    {
        match decrypt(cipher, self.access_token_enc.as_str()) {
            Err(e) => Err(TokenError::Crypto(e)),
            Ok(bytes) => match string_from_utf8(bytes) {
                Some(s) => Ok(s),
                None => Err(TokenError::NotUtf8),
            },
        }
    }

    /// The refresh token, decrypted (`None` when absent or not UTF-8).
    pub fn refresh_token(&self, cipher: &Cipher) -> (r: Result<Option<String>, CryptoError>)
        ensures
            opt_result_view(r) == optional_token_text(
                cipher.key_bytes(),
                match self.refresh_token_enc {
                    Some(e) => Some(e@),
                    None => None,
                },
            ),
    {
        open_optional(cipher, &self.refresh_token_enc)
    }

    /// The ID token, decrypted (`None` when absent or not UTF-8).
    pub fn id_token(&self, cipher: &Cipher) -> (r: Result<Option<String>, CryptoError>)
        ensures
            opt_result_view(r) == optional_token_text(
                cipher.key_bytes(),
                match self.id_token_enc {
                    Some(e) => Some(e@),
                    None => None,
                },
            ),
    {
        open_optional(cipher, &self.id_token_enc)
    }

    /// Whether the access token expires within `skew_secs` of `now`.
    pub fn is_expiring_at(&self, skew_secs: u64, now: i64) -> (b: bool)
        ensures
            b == expiring_at(self.expires_at, skew_secs, now),
    {
        (self.expires_at as i128) - (skew_secs as i128) <= now as i128
    }

    /// Whether the access token expires within `skew_secs` from now.
    pub fn is_expiring(&self, skew_secs: u64) -> (b: bool)
        ensures
            exists|now: i64| b == #[trigger] expiring_at(self.expires_at, skew_secs, now),
    {
        self.is_expiring_at(skew_secs, now_unix())
    }
}

/// Tokens expiring at `expires_at` are within `skew` seconds of expiry at `now`.
pub open spec fn expiring_at(expires_at: i64, skew: u64, now: i64) -> bool {
    expires_at - skew <= now
}

/// The view of an optional-token result.
pub open spec fn opt_result_view(r: Result<Option<String>, CryptoError>) -> Result<Option<Seq<char>>, CryptoError> {
    match r {
        Ok(Some(s)) => Ok(Some(s@)),
        Ok(None) => Ok(None),
        Err(e) => Err(e),
    }
}

fn open_optional(cipher: &Cipher, enc: &Option<String>) -> (r: Result<Option<String>, CryptoError>)
    ensures
        opt_result_view(r) == optional_token_text(
            cipher.key_bytes(),
            match *enc {
                Some(e) => Some(e@),
                None => None,
            },
        ),
{
    match enc {
        None => Ok(None),
        Some(e) => match decrypt(cipher, e.as_str()) {
            Err(err) => Err(err),
            Ok(bytes) => Ok(string_from_utf8(bytes)),
        },
    }
}

/// The whole seconds from the Unix epoch to the system clock's current time
/// (`SystemTime::now().duration_since(UNIX_EPOCH)`, then `Duration::as_secs`),
/// or `None` when the clock reads before the epoch. Nothing is stated of the
/// value: it is the clock's reading.
#[verifier::external_body]
fn epoch_seconds() -> (r: Option<u64>) {
    match std::time::SystemTime::now().duration_since(std::time::UNIX_EPOCH) {
        Ok(d) => Some(d.as_secs()),
        Err(_) => None,
    }
}

/// The Unix time of a clock reading: its seconds as an `i64` (wrapping as
/// `as` does), or 0 for a reading before the epoch.
pub open spec fn unix_time_spec(secs: Option<u64>) -> i64 {
    match secs {
        Some(s) => s as i64,
        None => 0,
    }
}

/// The Unix time in seconds of a clock reading (`None` before the epoch).
pub fn unix_time_of(secs: Option<u64>) -> (t: i64)
    ensures
        t == unix_time_spec(secs),
        secs is None ==> t == 0,
        secs matches Some(s) ==> (s <= i64::MAX ==> t == s),
        (secs matches Some(s) ==> s <= i64::MAX) ==> t >= 0,
{
    match secs {
        Some(s) => #[verifier::truncate] (s as i64),
        None => 0,
    }
}

/// The current Unix time in seconds, from the system clock: 0 before the
/// epoch, never negative while the clock reads at most `i64::MAX` seconds.
pub fn now_unix() -> (t: i64)
    ensures
        exists|secs: Option<u64>| t == #[trigger] unix_time_spec(secs),
{
    let secs = epoch_seconds();
    unix_time_of(secs)
}

/// The session key of a provider's tokens: `oidc:{id}:tokens`.
pub fn session_key(provider_id: &str) -> (k: String)
    ensures
        k@ == "oidc:"@ + provider_id@ + ":tokens"@,
{
    let mut k = concat2("oidc:", provider_id);
    push_str(&mut k, ":tokens");
    k
}

/// The session key of a provider's pending login: `oidc:{id}:flow`.
pub fn flow_key(provider_id: &str) -> (k: String)
    ensures
        k@ == "oidc:"@ + provider_id@ + ":flow"@,
{
    let mut k = concat2("oidc:", provider_id);
    push_str(&mut k, ":flow");
    k
}

/// A token sealed when the tokens were stored reads back as the same text.
pub proof fn law_sealed_token_reads_back(key: Seq<u8>, enc: Seq<char>, token: Seq<char>)
    requires
        seals(key, enc, token),
    ensures
        token_text(key, enc) == Ok::<Seq<char>, TokenError>(token),
        optional_token_text(key, Some(enc)) == Ok::<Option<Seq<char>>, CryptoError>(Some(token)),
{
    vstd::utf8::encode_utf8_valid_utf8(token);
    vstd::utf8::encode_utf8_decode_utf8(token);
}

} // verus!
