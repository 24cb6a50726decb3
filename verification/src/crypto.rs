//! Token encryption, compatible with the stored formats:
//!
//! - current (`v2`): `v2:<iv, 12 bytes hex>:<ciphertext hex>:<auth tag, 16 bytes hex>`, AES-256-GCM;
//! - legacy (`v1`): `<iv, 16 bytes hex>:<ciphertext hex>`, AES-256-CBC, decryption only.
//!
//! An injected master secret is a passphrase run through PBKDF2; a key read from the
//! key file is used as the raw 32-byte key.

use vstd::prelude::*;
use vstd::utf8::{decode_utf8, encode_utf8, valid_utf8};
use crate::error::SlackCliError;
use crate::hexcodec::{decode_hex, encode_hex, hex_decode, hex_encode, hex_pairs, lemma_hex_round_trip};
use crate::strings::{
    all_hex, chars_of, join, lacks, lemma_split_pieces, split_char, split_on, trim, trimmed, views,
};

verus! {

broadcast use vstd::string::group_string_axioms;

pub const VERSION_TAG: &'static str = "v2";
pub const KEY_LENGTH: usize = 32;
pub const IV_LENGTH: usize = 12;
pub const LEGACY_IV_LENGTH: usize = 16;
pub const AUTH_TAG_LENGTH: usize = 16;
pub const MASTER_KEY_ITERATIONS: u32 = 100000;
pub const MASTER_KEY_SALT: &'static str = "slack-cli-master-key-salt-v2";
pub const LEGACY_KEY_PASSWORD: &'static str = "slack-cli-key";
pub const LEGACY_KEY_SALT: &'static str = "slack-cli-salt-v1";
/// Largest plaintext AES-GCM seals (`aes_gcm::P_MAX`).
pub const GCM_MAX_PLAINTEXT: u64 = 68719476736;

pub const ERR_INVALID_KEY_FORMAT: &'static str = "Invalid token encryption key format";
pub const ERR_INIT_KEY: &'static str = "Failed to initialize token encryption key";
pub const ERR_MIGRATE_KEY: &'static str = "Failed to migrate token encryption key";
pub const ERR_LOAD_KEY: &'static str = "Failed to load token encryption key";
pub const ERR_ENCRYPT: &'static str = "Failed to encrypt token";
pub const ERR_DECRYPT: &'static str = "Failed to decrypt token";
pub const ERR_INVALID_ENCRYPTED: &'static str = "Invalid encrypted data format";

// ---------------------------------------------------------------------------
// Calls into the cryptography crates.
// ---------------------------------------------------------------------------

/// The 32-byte key PBKDF2-HMAC-SHA256 derives from `password` and `salt` in `rounds` rounds.
pub uninterp spec fn pbkdf2_sha256(password: Seq<u8>, salt: Seq<u8>, rounds: u32) -> Seq<u8>;

/// `pbkdf2::pbkdf2_hmac::<Sha256>` into a 32-byte buffer: the result is the derived
/// key (a function of its arguments, named `pbkdf2_sha256`) and has 32 bytes.
#[verifier::external_body]
fn pbkdf2_hmac_sha256(password: &[u8], salt: &[u8], rounds: u32) -> (r: Vec<u8>)
    ensures
        r@ == pbkdf2_sha256(password@, salt@, rounds),
        r@.len() == 32,
{
    let mut out = [0u8; 32];
    pbkdf2::pbkdf2_hmac::<sha2::Sha256>(password, salt, rounds, &mut out);
    out.to_vec()
}

/// AES-256-GCM sealing of `msg` (no associated data): ciphertext followed by the tag.
pub uninterp spec fn aes256_gcm_seal(key: Seq<u8>, iv: Seq<u8>, msg: Seq<u8>) -> Seq<u8>;

/// AES-256-GCM opening of `sealed` (ciphertext followed by the tag); `None` when the
/// tag does not verify.
pub uninterp spec fn aes256_gcm_open(key: Seq<u8>, iv: Seq<u8>, sealed: Seq<u8>) -> Option<Seq<u8>>;

/// `Aes256Gcm::encrypt` (via `new_from_slice`, no associated data). Per the `aes-gcm`
/// source and documentation: it fails only for plaintexts over `P_MAX` (2^36 bytes); the
/// output is the ciphertext (as long as the message) followed by the 16-byte tag; and
/// opening it with the same key and nonce gives the message back.
#[verifier::external_body]
fn gcm_seal(key: &[u8], iv: &[u8], msg: &[u8]) -> (r: Option<Vec<u8>>)
    requires
        key@.len() == 32,
        iv@.len() == 12,
    ensures
        msg@.len() <= GCM_MAX_PLAINTEXT ==> r is Some,
        r matches Some(v) ==> v@ == aes256_gcm_seal(key@, iv@, msg@)
            && v@.len() == msg@.len() + 16
            && aes256_gcm_open(key@, iv@, v@) == Some(msg@),
{
    let cipher = <aes_gcm::Aes256Gcm as aes_gcm::KeyInit>::new_from_slice(key).ok()?;
    aes_gcm::aead::Aead::encrypt(&cipher, iv.into(), aes_gcm::aead::Payload { msg, aad: &[] }).ok()
}

/// `Aes256Gcm::decrypt` (via `new_from_slice`, no associated data): the plaintext when
/// the tag verifies (named `aes256_gcm_open`).
#[verifier::external_body]
fn gcm_open(key: &[u8], iv: &[u8], sealed: &[u8]) -> (r: Option<Vec<u8>>)
    requires
        key@.len() == 32,
        iv@.len() == 12,
    ensures
        match r {
            Some(v) => aes256_gcm_open(key@, iv@, sealed@) == Some(v@),
            None => aes256_gcm_open(key@, iv@, sealed@) is None,
        },
{
    let cipher = <aes_gcm::Aes256Gcm as aes_gcm::KeyInit>::new_from_slice(key).ok()?;
    aes_gcm::aead::Aead::decrypt(&cipher, iv.into(), aes_gcm::aead::Payload { msg: sealed, aad: &[] }).ok()
}

/// AES-256-CBC decryption with PKCS#7 padding; `None` when the padding is invalid.
pub uninterp spec fn aes256_cbc_open(key: Seq<u8>, iv: Seq<u8>, ciphertext: Seq<u8>) -> Option<Seq<u8>>;

/// `cbc::Decryptor::<Aes256>::new_from_slices(..).decrypt_padded_vec_mut::<Pkcs7>(..)`:
/// the plaintext, or `None` (named `aes256_cbc_open`).
#[verifier::external_body]
fn cbc_open(key: &[u8], iv: &[u8], ciphertext: &[u8]) -> (r: Option<Vec<u8>>)
    requires
        key@.len() == 32,
        iv@.len() == 16,
    ensures
        match r {
            Some(v) => aes256_cbc_open(key@, iv@, ciphertext@) == Some(v@),
            None => aes256_cbc_open(key@, iv@, ciphertext@) is None,
        },
{
    let decryptor = <cbc::Decryptor<aes::Aes256> as aes::cipher::KeyIvInit>::new_from_slices(key, iv).ok()?;
    aes::cipher::BlockDecryptMut::decrypt_padded_vec_mut::<aes::cipher::block_padding::Pkcs7>(decryptor, ciphertext).ok()
}

/// `rand::thread_rng().fill_bytes` on a buffer of `n` bytes: `n` random bytes.
#[verifier::external_body]
pub(crate) fn random_bytes(n: usize) -> (r: Vec<u8>)
    ensures
        r@.len() == n,
{
    let mut v = vec![0u8; n];
    rand::RngCore::fill_bytes(&mut rand::thread_rng(), &mut v);
    v
}

/// `String::from_utf8`: the text when `bytes` is valid UTF-8.
#[verifier::external_body]
fn utf8_text(bytes: Vec<u8>) -> (r: Option<String>)
    ensures
        r is Some <==> valid_utf8(bytes@),
        r matches Some(s) ==> s@ == decode_utf8(bytes@),
{
    String::from_utf8(bytes).ok()
}

// ---------------------------------------------------------------------------
// Formats.
// ---------------------------------------------------------------------------

/// Non-empty hex text.
pub open spec fn hex_text(s: Seq<char>) -> bool {
    s.len() > 0 && all_hex(s)
}

/// The current format: four `:`-separated fields, `v2`, a 12-byte IV, an even-length
/// (possibly empty) ciphertext and a 16-byte tag, all hex.
pub open spec fn current_format(v: Seq<char>) -> bool {
    let p = split_on(v, ':');
    &&& v.len() > 0
    &&& p.len() == 4
    &&& p[0] == VERSION_TAG@
    &&& p[1].len() == IV_LENGTH * 2 && hex_text(p[1])
    &&& p[2].len() % 2 == 0 && (p[2].len() == 0 || hex_text(p[2]))
    &&& p[3].len() == AUTH_TAG_LENGTH * 2 && hex_text(p[3])
}

/// The legacy format: two `:`-separated fields, a 16-byte IV and a non-empty
/// even-length ciphertext, both hex.
pub open spec fn legacy_format(v: Seq<char>) -> bool {
    let p = split_on(v, ':');
    &&& v.len() > 0
    &&& p.len() == 2
    &&& p[0].len() == LEGACY_IV_LENGTH * 2 && hex_text(p[0])
    &&& p[1].len() > 0 && p[1].len() % 2 == 0 && hex_text(p[1])
}

pub open spec fn encrypted_format(v: Seq<char>) -> bool {
    current_format(v) || legacy_format(v)
}

fn is_hex(s: &String) -> (r: bool)
    ensures
        r == hex_text(s@),
{
    let v = chars_of(s.as_str());
    if v.len() == 0 {
        return false;
    }
    let mut i: usize = 0;
    while i < v.len()
        invariant
            i <= v.len(),
            v@ == s@,
            forall|k: int| 0 <= k < i ==> crate::strings::is_ascii_hex_digit(#[trigger] v@[k]),
        decreases v.len() - i,
    {
        let c = v[i];
        if !(('0' <= c && c <= '9') || ('a' <= c && c <= 'f') || ('A' <= c && c <= 'F')) {
            return false;
        }
        i = i + 1;
    }
    true
}

fn char_len(s: &String) -> (r: usize)
    ensures
        r == s@.len(),
{
    s.as_str().unicode_len()
}

/// Whether `value` is in the current (`v2`) format. Kept as strict as the stored
/// format, so that plain tokens are never mistaken for ciphertext.
pub fn is_current_format(value: &str) -> (r: bool)
    ensures
        r == current_format(value@),
{
    let n = value.unicode_len();
    if n == 0 {
        return false;
    }
    let parts = split_char(value, ':');
    proof {
        assert(views(parts@).len() == parts@.len());
    }
    if parts.len() != 4 {
        return false;
    }
    proof {
        assert(views(parts@)[0] == parts@[0]@);
        assert(views(parts@)[1] == parts@[1]@);
        assert(views(parts@)[2] == parts@[2]@);
        assert(views(parts@)[3] == parts@[3]@);
    }
    let tag = chars_of(parts[0].as_str());
    let v2 = chars_of(VERSION_TAG);
    if !crate::strings::seq_eq(&tag, &v2) {
        return false;
    }
    let iv_ok = char_len(&parts[1]) == IV_LENGTH * 2 && is_hex(&parts[1]);
    let ct_len = char_len(&parts[2]);
    let ct_ok = ct_len % 2 == 0 && (ct_len == 0 || is_hex(&parts[2]));
    let tag_ok = char_len(&parts[3]) == AUTH_TAG_LENGTH * 2 && is_hex(&parts[3]);
    iv_ok && ct_ok && tag_ok
}

/// Whether `value` is in the legacy (`v1`, AES-CBC) format.
pub fn is_legacy_encrypted(value: &str) -> (r: bool)
    ensures
        r == legacy_format(value@),
{
    let n = value.unicode_len();
    if n == 0 {
        return false;
    }
    let parts = split_char(value, ':');
    proof {
        assert(views(parts@).len() == parts@.len());
    }
    if parts.len() != 2 {
        return false;
    }
    proof {
        assert(views(parts@)[0] == parts@[0]@);
        assert(views(parts@)[1] == parts@[1]@);
    }
    let iv_ok = char_len(&parts[0]) == LEGACY_IV_LENGTH * 2 && is_hex(&parts[0]);
    let ct_len = char_len(&parts[1]);
    let ct_ok = ct_len > 0 && ct_len % 2 == 0 && is_hex(&parts[1]);
    iv_ok && ct_ok
}

/// Whether `value` is encrypted in either format; anything else counts as plain text
/// (Slack tokens contain no `:`, so they match neither).
pub fn is_encrypted(value: &str) -> (r: bool)
    ensures
        r == encrypted_format(value@),
{
    is_current_format(value) || is_legacy_encrypted(value)
}

// ---------------------------------------------------------------------------
// Keys.
// ---------------------------------------------------------------------------

/// The key read from a key file: 64 hex digits (surrounding whitespace ignored), used as
/// the raw key.
pub open spec fn key_file_key(contents: Seq<char>) -> Option<Seq<u8>> {
    let t = trim(contents);
    if t.len() == KEY_LENGTH * 2 && hex_text(t) { hex_decode(t) } else { None }
}

/// Parses the contents of a key file into the 32-byte key.
pub fn parse_key_hex(contents: &str) -> (r: Result<Vec<u8>, SlackCliError>)
    ensures
        match r {
            Ok(k) => key_file_key(contents@) == Some(k@) && k@.len() == KEY_LENGTH,
            Err(e) => key_file_key(contents@) is None
                && (e matches SlackCliError::Configuration(m) && m@ == ERR_INVALID_KEY_FORMAT@),
        },
{
    let t = trimmed(contents);
    if !(char_len(&t) == KEY_LENGTH * 2 && is_hex(&t)) {
        return Err(SlackCliError::Configuration(ERR_INVALID_KEY_FORMAT.to_string()));
    }
    match decode_hex(t.as_str()) {
        Some(k) => {
            proof {
                assert(hex_pairs(t@).len() == 32) by {
                    lemma_hex_pairs_len(t@);
                }
            }
            Ok(k)
        },
        None => Err(SlackCliError::Configuration(ERR_INVALID_KEY_FORMAT.to_string())),
    }
}

proof fn lemma_hex_pairs_len(s: Seq<char>)
    ensures
        hex_pairs(s).len() == s.len() / 2,
    decreases s.len(),
{
    if s.len() >= 2 {
        lemma_hex_pairs_len(s.take(s.len() - 2));
    }
}

/// The key derived from a passphrase: PBKDF2-HMAC-SHA256 with the master-key salt.
pub open spec fn passphrase_key(secret: Seq<char>) -> Seq<u8> {
    pbkdf2_sha256(encode_utf8(secret), encode_utf8(MASTER_KEY_SALT@), MASTER_KEY_ITERATIONS)
}

/// The fixed key of the legacy format.
pub open spec fn legacy_key() -> Seq<u8> {
    pbkdf2_sha256(encode_utf8(LEGACY_KEY_PASSWORD@), encode_utf8(LEGACY_KEY_SALT@), MASTER_KEY_ITERATIONS)
}

/// Derives a 32-byte key from a passphrase and a salt.
pub fn derive_key(password: &str, salt: &str) -> (r: Vec<u8>)
    ensures
        r@ == pbkdf2_sha256(encode_utf8(password@), encode_utf8(salt@), MASTER_KEY_ITERATIONS),
        r@.len() == KEY_LENGTH,
{
    pbkdf2_hmac_sha256(password.as_bytes(), salt.as_bytes(), MASTER_KEY_ITERATIONS)
}

/// Options of the token cipher.
pub struct CryptoOptions {
    /// A passphrase, run through PBKDF2.
    pub master_key: Option<String>,
    pub key_file_path: Option<String>,
    pub legacy_key_file_path: Option<String>,
}

impl CryptoOptions {
    pub fn default_options() -> (r: CryptoOptions)
        ensures
            r.master_key is None,
            r.key_file_path is None,
            r.legacy_key_file_path is None,
    {
        CryptoOptions { master_key: None, key_file_path: None, legacy_key_file_path: None }
    }
}

/// Encrypts and decrypts tokens.
pub struct TokenCryptoService {
    options: CryptoOptions,
    /// A raw key resolved from the key file, which takes the place of derivation.
    cached_key: Option<Vec<u8>>,
}

pub enum DecryptFailure {
    /// Not in an encrypted format: a validation error.
    Malformed,
    /// In a format but not decryptable: a configuration error.
    Failed,
}

/// Plain text of decrypted bytes, when they are UTF-8.
pub open spec fn utf8_result(m: Option<Seq<u8>>) -> Result<Seq<char>, DecryptFailure> {
    match m {
        Some(b) => if valid_utf8(b) { Ok(decode_utf8(b)) } else { Err(DecryptFailure::Failed) },
        None => Err(DecryptFailure::Failed),
    }
}

/// The outcome of decrypting `e` with the master key `key`.
pub open spec fn decrypt_outcome(key: Option<Seq<u8>>, e: Seq<char>) -> Result<Seq<char>, DecryptFailure> {
    if e.len() == 0 {
        Err(DecryptFailure::Malformed)
    } else if current_format(e) {
        let p = split_on(e, ':');
        match key {
            Some(k) => utf8_result(aes256_gcm_open(k, hex_pairs(p[1]), hex_pairs(p[2]) + hex_pairs(p[3]))),
            None => Err(DecryptFailure::Failed),
        }
    } else if legacy_format(e) {
        let p = split_on(e, ':');
        utf8_result(aes256_cbc_open(legacy_key(), hex_pairs(p[0]), hex_pairs(p[1])))
    } else {
        Err(DecryptFailure::Malformed)
    }
}

/// How an outcome of decryption is reported.
pub open spec fn reports(r: Result<String, SlackCliError>, outcome: Result<Seq<char>, DecryptFailure>) -> bool {
    match outcome {
        Ok(t) => r matches Ok(s) && s@ == t,
        Err(DecryptFailure::Malformed) => r matches Err(SlackCliError::Validation(m)) && m@ == ERR_INVALID_ENCRYPTED@,
        Err(DecryptFailure::Failed) => r matches Err(SlackCliError::Configuration(m)) && m@ == ERR_DECRYPT@,
    }
}

proof fn lemma_hex_lacks_colon(b: Seq<u8>)
    ensures
        lacks(hex_encode(b), ':'),
{
    lemma_hex_round_trip(b);
    let e = hex_encode(b);
    assert forall|i: int| 0 <= i < e.len() implies #[trigger] e[i] != ':' by {
        assert(crate::strings::is_ascii_hex_digit(e[i]));
    }
}

impl TokenCryptoService {
    /// The master key: the key set from a key file, else the one derived from the
    /// injected passphrase; `None` when neither is available.
    pub closed spec fn key_spec(&self) -> Option<Seq<u8>> {
        match self.cached_key {
            Some(k) => Some(k@),
            None => match self.options.master_key {
                Some(s) => Some(passphrase_key(s@)),
                None => None,
            },
        }
    }

    pub closed spec fn wf(&self) -> bool {
        self.cached_key matches Some(k) ==> k@.len() == KEY_LENGTH
    }

    pub fn new() -> (r: TokenCryptoService)
        ensures
            r.wf(),
            r.key_spec() is None,
    {
        Self::with_options(CryptoOptions::default_options())
    }

    pub fn with_options(options: CryptoOptions) -> (r: TokenCryptoService)
        ensures
            r.wf(),
            r.key_spec() == (match options.master_key {
                Some(s) => Some(passphrase_key(s@)),
                None => None,
            }),
    {
        TokenCryptoService { options, cached_key: None }
    }

    /// Uses `key` (read from the key file) as the master key.
    pub fn with_key(self, key: Vec<u8>) -> (r: TokenCryptoService)
        requires
            key@.len() == KEY_LENGTH,
        ensures
            r.wf(),
            r.key_spec() == Some(key@),
    {
        TokenCryptoService { options: self.options, cached_key: Some(key) }
    }

    /// The master key, or a configuration error when none is available.
    pub fn master_key(&self) -> (r: Result<Vec<u8>, SlackCliError>)
        requires
            self.wf(),
        ensures
            match r {
                Ok(k) => self.key_spec() == Some(k@) && k@.len() == KEY_LENGTH,
                Err(e) => self.key_spec() is None
                    && (e matches SlackCliError::Configuration(m) && m@ == ERR_LOAD_KEY@),
            },
    {
        match &self.cached_key {
            Some(k) => Ok(k.clone()),
            None => match &self.options.master_key {
                Some(secret) => Ok(derive_key(secret.as_str(), MASTER_KEY_SALT)),
                None => Err(SlackCliError::Configuration(ERR_LOAD_KEY.to_string())),
            },
        }
    }

    /// Encrypts `token` into the current format under a fresh random IV.
    ///
    /// Whatever IV is drawn, a successful result is in the current format and decrypts
    /// back to `token` with the same key. It succeeds whenever a key is available and the
    /// token is within AES-GCM's plaintext limit.
    pub fn encrypt(&self, token: &str) -> (r: Result<String, SlackCliError>)
        requires
            self.wf(),
        ensures
            self.key_spec() is Some && encode_utf8(token@).len() <= GCM_MAX_PLAINTEXT ==> r is Ok,
            r matches Ok(e) ==> current_format(e@) && decrypt_outcome(self.key_spec(), e@) == Ok::<Seq<char>, DecryptFailure>(token@),
            r matches Err(e) ==> e matches SlackCliError::Configuration(m) && m@ == ERR_ENCRYPT@,
    {
        let key = match self.master_key() {
            Ok(k) => k,
            Err(_) => return Err(SlackCliError::Configuration(ERR_ENCRYPT.to_string())),
        };
        let iv = random_bytes(IV_LENGTH);
        let msg = token.as_bytes();
        let sealed = match gcm_seal(key.as_slice(), iv.as_slice(), msg) {
            Some(s) => s,
            None => return Err(SlackCliError::Configuration(ERR_ENCRYPT.to_string())),
        };
        if sealed.len() < AUTH_TAG_LENGTH {
            return Err(SlackCliError::Configuration(ERR_ENCRYPT.to_string()));
        }
        let split = sealed.len() - AUTH_TAG_LENGTH;
        let ciphertext = slice_part(&sealed, 0, split);
        let tag = slice_part(&sealed, split, sealed.len());
        let mut out = VERSION_TAG.to_string();
        out.push(':');
        out.push_str(encode_hex(iv.as_slice()).as_str());
        out.push(':');
        out.push_str(encode_hex(ciphertext.as_slice()).as_str());
        out.push(':');
        out.push_str(encode_hex(tag.as_slice()).as_str());
        proof {
            let s = sealed@;
            assert(ciphertext@ =~= s.take(s.len() - 16));
            assert(tag@ =~= s.skip(s.len() - 16));
            let pieces = seq![VERSION_TAG@, hex_encode(iv@), hex_encode(ciphertext@), hex_encode(tag@)];
            reveal_strlit("v2");
            assert(lacks(VERSION_TAG@, ':'));
            lemma_hex_lacks_colon(iv@);
            lemma_hex_lacks_colon(ciphertext@);
            lemma_hex_lacks_colon(tag@);
            assert forall|i: int| 0 <= i < pieces.len() implies lacks(#[trigger] pieces[i], ':') by {}
            assert(join(pieces, seq![':']) =~= out@) by {
                let p1 = seq![VERSION_TAG@];
                let p2 = seq![VERSION_TAG@, hex_encode(iv@)];
                let p3 = seq![VERSION_TAG@, hex_encode(iv@), hex_encode(ciphertext@)];
                assert(pieces.drop_last() =~= p3);
                assert(p3.drop_last() =~= p2);
                assert(p2.drop_last() =~= p1);
                assert(join(p1, seq![':']) == VERSION_TAG@);
                assert(join(p2, seq![':']) == VERSION_TAG@ + seq![':'] + hex_encode(iv@));
                assert(join(p3, seq![':']) == join(p2, seq![':']) + seq![':'] + hex_encode(ciphertext@));
                assert(join(pieces, seq![':']) == join(p3, seq![':']) + seq![':'] + hex_encode(tag@));
            }
            lemma_split_pieces(pieces, ':');
            assert(split_on(out@, ':') == pieces);
            lemma_hex_round_trip(iv@);
            lemma_hex_round_trip(ciphertext@);
            lemma_hex_round_trip(tag@);
            assert(ciphertext@ + tag@ =~= s);
            vstd::utf8::encode_utf8_valid_utf8(token@);
            vstd::utf8::encode_utf8_decode_utf8(token@);
            assert(out@.len() > 0);
        }
        Ok(out)
    }

    /// Decrypts a stored token in either format.
    pub fn decrypt(&self, encrypted: &str) -> (r: Result<String, SlackCliError>)
        requires
            self.wf(),
        ensures
            reports(r, decrypt_outcome(self.key_spec(), encrypted@)),
    {
        if encrypted.unicode_len() == 0 {
            return Err(SlackCliError::Validation(ERR_INVALID_ENCRYPTED.to_string()));
        }
        if is_current_format(encrypted) {
            return self.decrypt_v2(encrypted);
        }
        if is_legacy_encrypted(encrypted) {
            return decrypt_legacy(encrypted);
        }
        Err(SlackCliError::Validation(ERR_INVALID_ENCRYPTED.to_string()))
    }

    fn decrypt_v2(&self, encrypted: &str) -> (r: Result<String, SlackCliError>)
        requires
            self.wf(),
            current_format(encrypted@),
        ensures
            reports(r, decrypt_outcome(self.key_spec(), encrypted@)),
    {
        let parts = split_char(encrypted, ':');
        proof {
            assert(views(parts@)[1] == parts@[1]@);
            assert(views(parts@)[2] == parts@[2]@);
            assert(views(parts@)[3] == parts@[3]@);
        }
        let failed = SlackCliError::Configuration(ERR_DECRYPT.to_string());
        let iv = match decode_hex(parts[1].as_str()) {
            Some(v) => v,
            None => return Err(failed),
        };
        let ciphertext = match decode_hex(parts[2].as_str()) {
            Some(v) => v,
            None => return Err(failed),
        };
        let tag = match decode_hex(parts[3].as_str()) {
            Some(v) => v,
            None => return Err(failed),
        };
        let key = match self.master_key() {
            Ok(k) => k,
            Err(_) => return Err(failed),
        };
        proof {
            lemma_hex_pairs_len(parts@[1]@);
        }
        let mut sealed = ciphertext;
        let mut t = tag;
        sealed.append(&mut t);
        let plain = match gcm_open(key.as_slice(), iv.as_slice(), sealed.as_slice()) {
            Some(p) => p,
            None => return Err(failed),
        };
        match utf8_text(plain) {
            Some(s) => Ok(s),
            None => Err(failed),
        }
    }
}

fn decrypt_legacy(encrypted: &str) -> (r: Result<String, SlackCliError>)
    requires
        legacy_format(encrypted@),
    ensures
        reports(r, decrypt_outcome(None, encrypted@)),
{
    let parts = split_char(encrypted, ':');
    proof {
        assert(views(parts@)[0] == parts@[0]@);
        assert(views(parts@)[1] == parts@[1]@);
    }
    let failed = SlackCliError::Configuration(ERR_DECRYPT.to_string());
    let iv = match decode_hex(parts[0].as_str()) {
        Some(v) => v,
        None => return Err(failed),
    };
    let ciphertext = match decode_hex(parts[1].as_str()) {
        Some(v) => v,
        None => return Err(failed),
    };
    proof {
        lemma_hex_pairs_len(parts@[0]@);
    }
    let key = derive_key(LEGACY_KEY_PASSWORD, LEGACY_KEY_SALT);
    let plain = match cbc_open(key.as_slice(), iv.as_slice(), ciphertext.as_slice()) {
        Some(p) => p,
        None => return Err(failed),
    };
    match utf8_text(plain) {
        Some(s) => Ok(s),
        None => Err(failed),
    }
}

fn slice_part(v: &Vec<u8>, from: usize, to: usize) -> (r: Vec<u8>)
    requires
        from <= to <= v.len(),
    ensures
        r@ == v@.subrange(from as int, to as int),
{
    let mut r: Vec<u8> = Vec::new();
    let mut i = from;
    while i < to
        invariant
            from <= i <= to <= v.len(),
            r@ == v@.subrange(from as int, i as int),
        decreases to - i,
    {
        r.push(v[i]);
        proof {
            assert(v@.subrange(from as int, i + 1) =~= v@.subrange(from as int, i as int).push(v@[i as int]));
        }
        i = i + 1;
    }
    r
}

} // verus!
