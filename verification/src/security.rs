//! Security services for the audit core: cryptographic hashing, digital
//! signatures over audit data, authenticated encryption at rest, password
//! rules and role-based access control.

use vstd::prelude::*;
use vstd::string::StringExecFns;
use vstd::string::StringSliceAdditionalSpecFns;
use aes_gcm::KeyInit;
use aes_gcm::aead::Aead;
use aes_gcm::AeadCore;
use crate::clock;
use crate::config::SecurityConfig;
use crate::error::QmsError;
use crate::ident;

verus! {

/// The SHA-256 digest of a byte string.
pub uninterp spec fn sha256_of(data: Seq<u8>) -> Seq<u8>;

/// The HMAC-SHA256 tag of a byte string under a key.
pub uninterp spec fn hmac_sha256_of(key: Seq<u8>, data: Seq<u8>) -> Seq<u8>;

/// The AES-256-GCM ciphertext (with appended tag) of a plaintext under a
/// key and nonce.
pub uninterp spec fn seal_of(key: Seq<u8>, nonce: Seq<u8>, plain: Seq<u8>) -> Seq<u8>;

/// The AES-256-GCM decryption of a ciphertext under a key and nonce:
/// the plaintext when the authentication tag verifies, nothing otherwise.
pub uninterp spec fn open_of(key: Seq<u8>, nonce: Seq<u8>, cipher: Seq<u8>) -> Option<Seq<u8>>;

/// The lowercase hexadecimal digit for a value below sixteen.
pub open spec fn hex_digit(n: u8) -> char {
    if n == 0 { '0' } else if n == 1 { '1' } else if n == 2 { '2' } else if n == 3 { '3' }
    else if n == 4 { '4' } else if n == 5 { '5' } else if n == 6 { '6' } else if n == 7 { '7' }
    else if n == 8 { '8' } else if n == 9 { '9' } else if n == 10 { 'a' } else if n == 11 { 'b' }
    else if n == 12 { 'c' } else if n == 13 { 'd' } else if n == 14 { 'e' } else { 'f' }
}

/// The lowercase hexadecimal rendering of a byte string: two digits per
/// byte, high digit first.
pub open spec fn hex_of(b: Seq<u8>) -> Seq<char>
    decreases b.len(),
{
    if b.len() == 0 {
        Seq::empty()
    } else {
        hex_of(b.drop_last()).push(hex_digit(b.last() / 16)).push(hex_digit(b.last() % 16))
    }
}

/// The hexadecimal rendering is two characters per byte.
pub proof fn lemma_hex_of_len(b: Seq<u8>)
    ensures
        hex_of(b).len() == 2 * b.len(),
    decreases b.len(),
{
    if b.len() > 0 {
        lemma_hex_of_len(b.drop_last());
    }
}

/// Distinct values below sixteen have distinct hexadecimal digits.
pub proof fn lemma_hex_digit_injective(m: u8, n: u8)
    requires
        m < 16,
        n < 16,
        hex_digit(m) == hex_digit(n),
    ensures
        m == n,
{
}

/// Law: the hexadecimal rendering is injective — equal renderings come
/// from equal byte strings.
pub proof fn lemma_hex_of_injective(a: Seq<u8>, b: Seq<u8>)
    requires
        hex_of(a) == hex_of(b),
    ensures
        a == b,
    decreases a.len(),
{
    lemma_hex_of_len(a);
    lemma_hex_of_len(b);
    if a.len() == 0 {
        assert(a =~= b);
    } else {
        let ha = hex_of(a.drop_last());
        let hb = hex_of(b.drop_last());
        lemma_hex_of_len(a.drop_last());
        lemma_hex_of_len(b.drop_last());
        assert(hex_of(a)[2 * a.len() - 2] == hex_digit(a.last() / 16));
        assert(hex_of(a)[2 * a.len() - 1] == hex_digit(a.last() % 16));
        assert(hex_of(b)[2 * b.len() - 2] == hex_digit(b.last() / 16));
        assert(hex_of(b)[2 * b.len() - 1] == hex_digit(b.last() % 16));
        lemma_hex_digit_injective(a.last() / 16, b.last() / 16);
        lemma_hex_digit_injective(a.last() % 16, b.last() % 16);
        assert(a.last() == b.last());
        assert(ha =~= hex_of(a).subrange(0, 2 * a.len() - 2));
        assert(hb =~= hex_of(b).subrange(0, 2 * b.len() - 2));
        lemma_hex_of_injective(a.drop_last(), b.drop_last());
        assert(a =~= a.drop_last().push(a.last()));
        assert(b =~= b.drop_last().push(b.last()));
    }
}

/// The digest rendered as lowercase hexadecimal, as signatures carry it.
pub open spec fn signature_of(key: Seq<u8>, data: Seq<u8>) -> Seq<char> {
    hex_of(hmac_sha256_of(key, data))
}

/// Relies on ring's `digest::digest` with `SHA256`: a 32-byte digest that
/// is a function of the data alone. ring fails on inputs longer than the
/// algorithm's limit, so such inputs are excluded.
#[verifier::external_body]
fn sha256(data: &[u8]) -> (r: Vec<u8>)
    requires
        data@.len() < 0x1000000000000000,
    ensures
        r@ == sha256_of(data@),
        r@.len() == 32,
{
    ring::digest::digest(&ring::digest::SHA256, data).as_ref().to_vec()
}

/// Relies on ring's `hmac::sign` with `HMAC_SHA256`: a 32-byte tag that is
/// a function of key and data alone. ring fails on inputs longer than the
/// algorithm's limit, so such inputs are excluded.
#[verifier::external_body]
fn hmac_sha256(key: &[u8], data: &[u8]) -> (r: Vec<u8>)
    requires
        data@.len() < 0x1000000000000000,
    ensures
        r@ == hmac_sha256_of(key@, data@),
        r@.len() == 32,
{
    let k = ring::hmac::Key::new(ring::hmac::HMAC_SHA256, key);
    ring::hmac::sign(&k, data).as_ref().to_vec()
}

/// Relies on hex's `encode`: two lowercase hexadecimal digits per byte,
/// high digit first, in input order.
#[verifier::external_body]
fn hex_encode(data: &[u8]) -> (r: String)
    ensures
        r@ == hex_of(data@),
{
    hex::encode(data)
}

/// Relies on aes_gcm's `Aes256Gcm` encryption: the ciphertext is a function
/// of key, nonce and plaintext, is sixteen bytes (one tag) longer than the
/// plaintext, and decrypting it under the same key and nonce yields the
/// plaintext again. Encryption fails only beyond the AES-GCM plaintext
/// length limit.
#[verifier::external_body]
fn aead_seal(key: &[u8], nonce: &[u8], plain: &[u8]) -> (r: Option<Vec<u8>>)
    requires
        key@.len() == 32,
        nonce@.len() == 12,
    ensures
        r matches Some(c) ==> (c@ == seal_of(key@, nonce@, plain@) && c@.len() == plain@.len()
            + 16 && open_of(key@, nonce@, c@) == Some(plain@)),
        plain@.len() <= 0x1000000000 ==> r is Some,
{
    let cipher = aes_gcm::Aes256Gcm::new(aes_gcm::Key::<aes_gcm::Aes256Gcm>::from_slice(key));
    cipher.encrypt(aes_gcm::Nonce::from_slice(nonce), plain).ok()
}

/// Relies on aes_gcm's `Aes256Gcm` decryption: a function of key, nonce and
/// ciphertext that returns a plaintext exactly when the authentication tag
/// verifies, and fails closed otherwise.
#[verifier::external_body]
fn aead_open(key: &[u8], nonce: &[u8], cipher: &[u8]) -> (r: Option<Vec<u8>>)
    requires
        key@.len() == 32,
        nonce@.len() == 12,
    ensures
        (r is Some) == (open_of(key@, nonce@, cipher@) is Some),
        r matches Some(p) ==> open_of(key@, nonce@, cipher@) == Some(p@),
{
    let cipher_ctx = aes_gcm::Aes256Gcm::new(aes_gcm::Key::<aes_gcm::Aes256Gcm>::from_slice(key));
    cipher_ctx.decrypt(aes_gcm::Nonce::from_slice(nonce), cipher).ok()
}

/// Relies on aes_gcm's `AeadCore::generate_nonce` with the operating
/// system's random source: a fresh 96-bit (12-byte) nonce. The value is
/// random, so nothing more is promised.
#[verifier::external_body]
fn fresh_nonce() -> (r: Vec<u8>)
    ensures
        r@.len() == 12,
{
    let nonce = aes_gcm::Aes256Gcm::generate_nonce(&mut aes_gcm::aead::OsRng);
    nonce.to_vec()
}

/// What decrypting a nonce-prefixed blob under a 32-byte key yields: the
/// first twelve bytes are the nonce, the rest the ciphertext.
pub open spec fn decrypt_spec(key: Seq<u8>, data: Seq<u8>) -> Option<Seq<u8>> {
    if key.len() != 32 || data.len() < 12 {
        None
    } else {
        open_of(key, data.subrange(0, 12), data.subrange(12, data.len() as int))
    }
}

/// Whether a byte is an ASCII uppercase letter.
pub open spec fn is_upper_byte(b: u8) -> bool {
    65 <= b <= 90
}

/// Whether a byte is an ASCII lowercase letter.
pub open spec fn is_lower_byte(b: u8) -> bool {
    97 <= b <= 122
}

/// Whether a byte is an ASCII decimal digit.
pub open spec fn is_digit_byte(b: u8) -> bool {
    48 <= b <= 57
}

/// Whether a byte is one of the accepted special password characters.
pub open spec fn is_special_byte(b: u8) -> bool {
    b == 33 || b == 64 || b == 35 || b == 36 || b == 37 || b == 94 || b == 38 || b == 42 || b == 40
        || b == 41 || b == 95 || b == 43 || b == 45 || b == 61 || b == 91 || b == 93 || b == 123
        || b == 125 || b == 124 || b == 59 || b == 58 || b == 44 || b == 46 || b == 60 || b == 62
        || b == 63
}

/// Whether a password, as its UTF-8 bytes, meets the complexity rules:
/// at least twelve bytes with an upper-case letter, a lower-case letter,
/// a digit and a special character.
pub open spec fn password_meets_complexity(s: Seq<u8>) -> bool {
    s.len() >= 12 && (exists|i: int| 0 <= i < s.len() && is_upper_byte(#[trigger] s[i])) && (
    exists|i: int| 0 <= i < s.len() && is_lower_byte(#[trigger] s[i])) && (exists|i: int|
        0 <= i < s.len() && is_digit_byte(#[trigger] s[i])) && (exists|i: int|
        0 <= i < s.len() && is_special_byte(#[trigger] s[i]))
}

/// What argon2 password verification decides for a password against a
/// stored hash string: a verdict when the hash parses, nothing when it
/// is structurally invalid.
pub uninterp spec fn argon2_verdict(password: Seq<char>, hash: Seq<char>) -> Option<bool>;

/// Relies on argon2's `PasswordHasher::hash_password` with a fresh random
/// salt: on success, the returned hash string re-verifies against the
/// password it was computed from. The salt is random, so nothing more is
/// promised.
#[verifier::external_body]
fn argon2_hash(password: &str) -> (r: Option<(String, String)>)
    ensures
        r matches Some(p) ==> argon2_verdict(password@, p.0@) == Some(true),
{
    let salt = argon2::password_hash::SaltString::generate(
        &mut argon2::password_hash::rand_core::OsRng,
    );
    match argon2::PasswordHasher::hash_password(&argon2::Argon2::default(), password.as_bytes(), &salt) {
        Ok(hash) => Some((hash.to_string(), salt.to_string())),
        Err(_) => None,
    }
}

/// Relies on argon2's `PasswordHash::new` and
/// `PasswordVerifier::verify_password`: the verdict is a function of the
/// password and the hash string (which carries its own salt and
/// parameters); a hash that does not parse yields no verdict.
#[verifier::external_body]
fn argon2_verify(password: &str, hash: &str) -> (r: Option<bool>)
    ensures
        r == argon2_verdict(password@, hash@),
{
    match argon2::PasswordHash::new(hash) {
        Ok(parsed) => Some(
            argon2::PasswordVerifier::verify_password(
                &argon2::Argon2::default(),
                password.as_bytes(),
                &parsed,
            ).is_ok(),
        ),
        Err(_) => None,
    }
}

/// Security manager: cryptographic services, session and lockout
/// handling, and access-control rules.
pub struct SecurityManager {
    config: SecurityConfig,
    active_sessions: Vec<Session>,
    failed_attempts: Vec<AttemptRecord>,
}

/// The failed login attempts recorded against one account.
pub struct AttemptRecord {
    /// The account.
    pub username: String,
    /// Instants of the failed attempts, seconds since the Unix epoch.
    pub attempts: Vec<i64>,
}

impl SecurityManager {
    /// The security settings in force; read-only after initialization.
    pub closed spec fn cfg(self) -> SecurityConfig {
        self.config
    }

    /// The instants of the failed attempts on record for an account: the
    /// first record carrying the name, in recording order.
    pub closed spec fn attempts_of(self, username: Seq<char>) -> Seq<i64> {
        attempts_lookup(self.failed_attempts@, username)
    }

    /// The sessions on record, in creation order.
    pub closed spec fn sessions(self) -> Seq<SessionView> {
        session_views(self.active_sessions@)
    }

    /// Create a new security manager with no sessions and a clean
    /// lockout slate.
    pub fn new(config: SecurityConfig) -> (r: Self)
        ensures
            r.cfg() == config,
            r.sessions().len() == 0,
            forall|u: Seq<char>| #[trigger] r.attempts_of(u) == Seq::<i64>::empty(),
    {
        let r = SecurityManager {
            config,
            active_sessions: Vec::new(),
            failed_attempts: Vec::new(),
        };
        proof {
            assert(r.sessions() =~= Seq::<SessionView>::empty());
            assert forall|u: Seq<char>| #[trigger] r.attempts_of(u) == Seq::<i64>::empty() by {
                assert(attempts_lookup(r.failed_attempts@, u) =~= Seq::<i64>::empty());
            }
        }
        r
    }

    /// Validate password complexity: length of at least twelve, with
    /// upper case, lower case, a digit and a special character.
    pub fn validate_password_complexity(&self, password: &str) -> (r: bool)
        ensures
            r == password_meets_complexity(password.spec_bytes()),
    {
        let bytes = password.as_bytes();
        if bytes.len() < 12 {
            return false;
        }
        let mut has_upper = false;
        let mut has_lower = false;
        let mut has_digit = false;
        let mut has_special = false;
        let mut i: usize = 0;
        while i < bytes.len()
            invariant
                0 <= i <= bytes@.len(),
                bytes@ == password.spec_bytes(),
                has_upper == (exists|j: int| 0 <= j < i && is_upper_byte(#[trigger] bytes@[j])),
                has_lower == (exists|j: int| 0 <= j < i && is_lower_byte(#[trigger] bytes@[j])),
                has_digit == (exists|j: int| 0 <= j < i && is_digit_byte(#[trigger] bytes@[j])),
                has_special == (exists|j: int| 0 <= j < i && is_special_byte(
                    #[trigger] bytes@[j],
                )),
            decreases bytes@.len() - i,
        {
            let b = bytes[i];
            if 65 <= b && b <= 90 {
                has_upper = true;
            }
            if 97 <= b && b <= 122 {
                has_lower = true;
            }
            if 48 <= b && b <= 57 {
                has_digit = true;
            }
            if b == 33 || b == 64 || b == 35 || b == 36 || b == 37 || b == 94 || b == 38 || b == 42
                || b == 40 || b == 41 || b == 95 || b == 43 || b == 45 || b == 61 || b == 91
                || b == 93 || b == 123 || b == 125 || b == 124 || b == 59 || b == 58 || b == 44
                || b == 46 || b == 60 || b == 62 || b == 63 {
                has_special = true;
            }
            i += 1;
        }
        has_upper && has_lower && has_digit && has_special
    }

    /// Hash a password with a fresh random salt, after checking the
    /// complexity rules. The returned hash re-verifies against the
    /// password.
    pub fn hash_password(&self, password: &str) -> (r: Result<(String, String), QmsError>)
        ensures
            !password_meets_complexity(password.spec_bytes()) ==> (r matches Err(e)
                && e is Security),
            r matches Ok(p) ==> (password_meets_complexity(password.spec_bytes())
                && argon2_verdict(password@, p.0@) == Some(true)),
    {
        if !self.validate_password_complexity(password) {
            return Err(QmsError::Security {
                message: String::from_str("Password does not meet complexity requirements"),
            });
        }
        match argon2_hash(password) {
            Some(pair) => Ok(pair),
            None => Err(QmsError::Security {
                message: String::from_str("Failed to hash password"),
            }),
        }
    }

    /// Verify a password against a stored hash: true exactly when the
    /// hash's verdict accepts it; a hash that does not parse is an
    /// error.
    pub fn verify_password(&self, password: &str, hash: &str) -> (r: Result<bool, QmsError>)
        ensures
            r matches Ok(b) ==> argon2_verdict(password@, hash@) == Some(b),
            (r is Err) == (argon2_verdict(password@, hash@) is None),
            r matches Err(e) ==> e is Security,
    {
        match argon2_verify(password, hash) {
            Some(b) => Ok(b),
            None => Err(QmsError::Security {
                message: String::from_str("Invalid password hash"),
            }),
        }
    }

    /// Check whether an account is locked out. An account can be locked
    /// only while the failed attempts on record reach the configured
    /// maximum; whether it still is then depends on the lockout window
    /// after the last of them.
    pub fn is_user_locked(&mut self, username: &str) -> (r: bool)
        ensures
            *final(self) == *old(self),
            old(self).attempts_of(username@).len() < old(self).cfg().max_failed_login_attempts
                as int ==> r == false,
            r ==> old(self).attempts_of(username@).len() >= old(self).cfg().max_failed_login_attempts as int,
    {
        let target = username.to_owned();
        let found = find_attempt_index(&self.failed_attempts, &target);
        match found {
            Some(i) => {
                proof {
                    lemma_lookup_skip(self.failed_attempts@, target@, i as int);
                    let t = self.failed_attempts@.skip(i as int);
                    assert(t[0] == self.failed_attempts@[i as int]);
                    assert(attempts_lookup(t, target@) == self.failed_attempts@[i as int].attempts@);
                }
                let attempts = &self.failed_attempts[i].attempts;
                if attempts.len() > 0 && attempts.len()
                    >= self.config.max_failed_login_attempts as usize {
                    let last = attempts[attempts.len() - 1];
                    let lockout_secs: i64 = (self.config.lockout_duration_minutes as i64) * 60;
                    let now = clock::now_unix();
                    (now as i128) < (last as i128) + (lockout_secs as i128)
                } else {
                    false
                }
            },
            None => {
                proof {
                    lemma_lookup_absent(self.failed_attempts@, target@);
                }
                false
            },
        }
    }

    /// Record a failed login attempt against an account, dropping
    /// attempts that have fallen out of the lockout window.
    pub fn record_failed_attempt(&mut self, username: &str)
        ensures
            final(self).cfg() == old(self).cfg(),
            final(self).sessions() == old(self).sessions(),
            exists|now: i64|
                final(self).attempts_of(username@) == #[trigger] kept_after(
                    old(self).attempts_of(username@).push(now),
                    now as int - (old(self).cfg().lockout_duration_minutes as int) * 60,
                ),
            forall|u: Seq<char>|
                u != username@ ==> #[trigger] final(self).attempts_of(u) == old(self).attempts_of(
                    u,
                ),
    {
        let now = clock::now_unix();
        let lockout_secs: i64 = (self.config.lockout_duration_minutes as i64) * 60;
        let cutoff: i128 = (now as i128) - (lockout_secs as i128);
        let target = username.to_owned();
        let ghost old_records = self.failed_attempts@;
        let found = find_attempt_index(&self.failed_attempts, &target);
        match found {
            Some(i) => {
                proof {
                    lemma_lookup_skip(old_records, target@, i as int);
                    let t = old_records.skip(i as int);
                    assert(t[0] == old_records[i as int]);
                    assert(attempts_lookup(t, target@) == old_records[i as int].attempts@);
                }
                let source = &self.failed_attempts[i].attempts;
                let mut combined: Vec<i64> = Vec::new();
                let mut ci: usize = 0;
                while ci < source.len()
                    invariant
                        0 <= ci <= source@.len(),
                        combined@ == source@.take(ci as int),
                    decreases source@.len() - ci,
                {
                    combined.push(source[ci]);
                    proof {
                        assert(combined@ =~= source@.take(ci + 1 as int));
                    }
                    ci += 1;
                }
                proof {
                    assert(source@.take(source@.len() as int) =~= source@);
                }
                combined.push(now);
                proof {
                    assert(combined@ =~= old_records[i as int].attempts@.push(now));
                }
                let pruned = prune_after(&combined, cutoff);
                let name_copy = self.failed_attempts[i].username.clone();
                let rec = AttemptRecord { username: name_copy, attempts: pruned };
                let ghost grec = rec;
                self.failed_attempts.set(i, rec);
                proof {
                    lemma_lookup_update(old_records, i as int, grec, username@);
                    assert(attempts_lookup(self.failed_attempts@, username@) == grec.attempts@);
                    assert(grec.attempts@ == kept_after(
                        attempts_lookup(old_records, username@).push(now),
                        now as int - (self.config.lockout_duration_minutes as int) * 60,
                    ));
                    assert(self.attempts_of(username@) == kept_after(
                        old(self).attempts_of(username@).push(now),
                        now as int - (old(self).cfg().lockout_duration_minutes as int) * 60,
                    ));
                    assert forall|u: Seq<char>|
                        u != username@ implies #[trigger] attempts_lookup(
                        self.failed_attempts@,
                        u,
                    ) == attempts_lookup(old_records, u) by {
                        lemma_lookup_update(old_records, i as int, grec, u);
                    }
                }
            },
            None => {
                proof {
                    lemma_lookup_absent(old_records, target@);
                }
                let mut combined: Vec<i64> = Vec::new();
                combined.push(now);
                proof {
                    assert(combined@ =~= attempts_lookup(old_records, target@).push(now));
                }
                let pruned = prune_after(&combined, cutoff);
                let rec = AttemptRecord { username: target, attempts: pruned };
                let ghost grec = rec;
                self.failed_attempts.push(rec);
                proof {
                    assert(self.failed_attempts@ =~= old_records.push(grec));
                    lemma_lookup_push(old_records, grec, username@);
                    assert(attempts_lookup(self.failed_attempts@, username@) == grec.attempts@);
                    assert(grec.attempts@ == kept_after(
                        attempts_lookup(old_records, username@).push(now),
                        now as int - (self.config.lockout_duration_minutes as int) * 60,
                    ));
                    assert(self.attempts_of(username@) == kept_after(
                        old(self).attempts_of(username@).push(now),
                        now as int - (old(self).cfg().lockout_duration_minutes as int) * 60,
                    ));
                    assert forall|u: Seq<char>|
                        u != username@ implies #[trigger] attempts_lookup(
                        self.failed_attempts@,
                        u,
                    ) == attempts_lookup(old_records, u) by {
                        lemma_lookup_push(old_records, grec, u);
                    }
                }
            },
        }
    }

    /// Clear the failed attempts recorded against an account, as on a
    /// successful login.
    pub fn clear_failed_attempts(&mut self, username: &str)
        ensures
            final(self).cfg() == old(self).cfg(),
            final(self).sessions() == old(self).sessions(),
            final(self).attempts_of(username@).len() == 0,
            forall|u: Seq<char>|
                u != username@ ==> #[trigger] final(self).attempts_of(u) == old(self).attempts_of(
                    u,
                ),
    {
        let target = username.to_owned();
        let mut found = find_attempt_index(&self.failed_attempts, &target);
        while found.is_some()
            invariant
                target@ == username@,
                self.config == old(self).config,
                self.active_sessions@ == old(self).active_sessions@,
                found matches Some(i) ==> (i < self.failed_attempts@.len()
                    && self.failed_attempts@[i as int].username@ == target@),
                found is None ==> !has_record(self.failed_attempts@, target@),
                forall|u: Seq<char>|
                    u != username@ ==> #[trigger] attempts_lookup(self.failed_attempts@, u)
                        == attempts_lookup(old(self).failed_attempts@, u),
            decreases self.failed_attempts@.len(),
        {
            let i = found.unwrap();
            let ghost before = self.failed_attempts@;
            let _ = self.failed_attempts.remove(i);
            proof {
                assert forall|u: Seq<char>|
                    u != username@ implies #[trigger] attempts_lookup(self.failed_attempts@, u)
                    == attempts_lookup(before, u) by {
                    lemma_lookup_remove(before, i as int, u);
                }
            }
            found = find_attempt_index(&self.failed_attempts, &target);
        }
        proof {
            lemma_lookup_absent(self.failed_attempts@, target@);
        }
    }

    /// Open a new session for a user: a fresh identifier, stamped with
    /// the current time and expiring after the configured timeout.
    pub fn create_session(&mut self, user_id: String, ip_address: Option<String>) -> (r: Result<
        String,
        QmsError,
    >)
        ensures
            final(self).cfg() == old(self).cfg(),
            forall|u: Seq<char>| #[trigger] final(self).attempts_of(u) == old(self).attempts_of(u),
            r matches Ok(id) ==> ({
                &&& id@.len() == 36
                &&& final(self).sessions().len() == old(self).sessions().len() + 1
                &&& final(self).sessions().last().id == id@
                &&& final(self).sessions().last().user_id == user_id@
                &&& final(self).sessions().last().ip_address == crate::database::opt_text(
                    ip_address,
                )
                &&& final(self).sessions().last().is_active
                &&& final(self).sessions().last().expires_at >= final(self).sessions().last().created_at
                &&& final(self).sessions().drop_last() == old(self).sessions()
            }),
            r is Ok,
    {
        let session_id = ident::fresh_id();
        let now = clock::now_unix();
        let timeout_secs: i64 = (self.config.session_timeout_minutes as i64) * 60;
        let expires_at: i64 = if now <= i64::MAX - timeout_secs {
            now + timeout_secs
        } else {
            i64::MAX
        };
        let session = Session {
            id: session_id.clone(),
            user_id,
            ip_address,
            created_at: now,
            last_activity: now,
            expires_at,
            is_active: true,
        };
        let ghost gsession = session;
        self.active_sessions.push(session);
        proof {
            assert(self.sessions() =~= old(self).sessions().push(gsession@));
            assert(self.sessions().drop_last() =~= old(self).sessions());
        }
        Ok(session_id)
    }

    /// Validate a session: an active, unexpired session with the given
    /// identifier has its activity refreshed and is returned; an expired
    /// one is deactivated; an unknown identifier yields nothing.
    pub fn validate_session(&mut self, session_id: &str) -> (r: Result<Option<Session>, QmsError>)
        ensures
            final(self).cfg() == old(self).cfg(),
            forall|u: Seq<char>| #[trigger] final(self).attempts_of(u) == old(self).attempts_of(u),
            final(self).sessions().len() == old(self).sessions().len(),
            forall|k: int|
                0 <= k < old(self).sessions().len() ==> ((#[trigger] final(self).sessions()[k]).id
                    == old(self).sessions()[k].id && final(self).sessions()[k].user_id == old(self).sessions()[k].user_id),
            r matches Ok(Some(s)) ==> (s@.id == session_id@ && s@.is_active && (exists|i: int|
                0 <= i < old(self).sessions().len() && (#[trigger] old(self).sessions()[i]).id
                    == session_id@ && old(self).sessions()[i].is_active && s@.user_id == old(self).sessions()[i].user_id)),
            (forall|j: int|
                0 <= j < old(self).sessions().len() ==> (#[trigger] old(self).sessions()[j]).id
                    != session_id@) ==> (r matches Ok(o) && o is None && final(self).sessions()
                == old(self).sessions()),
            r is Ok,
    {
        let target = session_id.to_owned();
        let found = find_session_index(&self.active_sessions, &target);
        match found {
            None => {
                proof {
                    assert forall|j: int|
                        0 <= j < old(self).sessions().len() implies (#[trigger] old(
                        self,
                    ).sessions()[j]).id != session_id@ by {
                        assert(old(self).sessions()[j] == self.active_sessions@[j]@);
                    }
                }
                Ok(None)
            },
            Some(i) => {
                let ghost before = self.active_sessions@;
                let now = clock::now_unix();
                let is_active = self.active_sessions[i].is_active;
                let expires_at = self.active_sessions[i].expires_at;
                proof {
                    assert(old(self).sessions()[i as int] == before[i as int]@);
                }
                if is_active && now < expires_at {
                    let mut refreshed = self.active_sessions[i].snapshot();
                    refreshed.last_activity = now;
                    let result = refreshed.snapshot();
                    let ghost grefreshed = refreshed;
                    self.active_sessions.set(i, refreshed);
                    proof {
                        assert(self.sessions() =~= session_views(before).update(
                            i as int,
                            grefreshed@,
                        ));
                        assert(grefreshed@.id == before[i as int]@.id);
                        assert(grefreshed@.user_id == before[i as int]@.user_id);
                        assert forall|k: int|
                            0 <= k < old(self).sessions().len() implies ((
                            #[trigger] self.sessions()[k]).id == old(self).sessions()[k].id
                            && self.sessions()[k].user_id == old(self).sessions()[k].user_id) by {
                            assert(old(self).sessions()[k] == before[k]@);
                        }
                        assert(result@.id == session_id@);
                        assert(old(self).sessions()[i as int].id == session_id@);
                    }
                    Ok(Some(result))
                } else {
                    let mut deactivated = self.active_sessions[i].snapshot();
                    deactivated.is_active = false;
                    let ghost gdeactivated = deactivated;
                    self.active_sessions.set(i, deactivated);
                    proof {
                        assert(self.sessions() =~= session_views(before).update(
                            i as int,
                            gdeactivated@,
                        ));
                        assert(gdeactivated@.id == before[i as int]@.id);
                        assert(gdeactivated@.user_id == before[i as int]@.user_id);
                        assert forall|k: int|
                            0 <= k < old(self).sessions().len() implies ((
                            #[trigger] self.sessions()[k]).id == old(self).sessions()[k].id
                            && self.sessions()[k].user_id == old(self).sessions()[k].user_id) by {
                            assert(old(self).sessions()[k] == before[k]@);
                        }
                        assert(old(self).sessions()[i as int].id == session_id@);
                    }
                    Ok(None)
                }
            },
        }
    }

    /// Revoke a session: the first session carrying the identifier is
    /// deactivated; nothing else changes.
    pub fn revoke_session(&mut self, session_id: &str) -> (r: Result<(), QmsError>)
        ensures
            final(self).cfg() == old(self).cfg(),
            forall|u: Seq<char>| #[trigger] final(self).attempts_of(u) == old(self).attempts_of(u),
            final(self).sessions().len() == old(self).sessions().len(),
            (exists|i: int|
                0 <= i < old(self).sessions().len() && (#[trigger] old(self).sessions()[i]).id
                    == session_id@) ==> (exists|i: int|
                0 <= i < final(self).sessions().len() && (#[trigger] final(self).sessions()[i]).id
                    == session_id@ && !final(self).sessions()[i].is_active),
            (forall|j: int|
                0 <= j < old(self).sessions().len() ==> (#[trigger] old(self).sessions()[j]).id
                    != session_id@) ==> final(self).sessions() == old(self).sessions(),
            r is Ok,
    {
        let target = session_id.to_owned();
        let found = find_session_index(&self.active_sessions, &target);
        if let Some(i) = found {
            let ghost before = self.active_sessions@;
            let mut deactivated = self.active_sessions[i].snapshot();
            deactivated.is_active = false;
            let ghost gdeactivated = deactivated;
            self.active_sessions.set(i, deactivated);
            proof {
                assert(self.sessions() =~= session_views(before).update(i as int, gdeactivated@));
                assert(self.sessions()[i as int].id == session_id@);
            }
        }
        Ok(())
    }

    /// Drop every session that is inactive or has expired.
    pub fn cleanup_expired_sessions(&mut self)
        ensures
            final(self).cfg() == old(self).cfg(),
            forall|u: Seq<char>| #[trigger] final(self).attempts_of(u) == old(self).attempts_of(u),
            exists|now: i64|
                final(self).sessions() == #[trigger] kept_sessions(old(self).sessions(), now as int),
    {
        let now = clock::now_unix();
        let ghost views = session_views(self.active_sessions@);
        let mut out: Vec<Session> = Vec::new();
        let mut k: usize = 0;
        proof {
            assert(views.skip(0) =~= views);
            assert(session_views(out@) + kept_sessions(views.skip(0), now as int) =~= kept_sessions(
                views,
                now as int,
            ));
        }
        while k < self.active_sessions.len()
            invariant
                0 <= k <= self.active_sessions@.len(),
                views == session_views(self.active_sessions@),
                views.len() == self.active_sessions@.len(),
                session_views(out@) + kept_sessions(views.skip(k as int), now as int)
                    == kept_sessions(views, now as int),
            decreases self.active_sessions@.len() - k,
        {
            let ghost prev = out@;
            let ghost t = views.skip(k as int);
            let keep = self.active_sessions[k].is_active && self.active_sessions[k].expires_at
                > now;
            if keep {
                let copy = self.active_sessions[k].snapshot();
                out.push(copy);
            }
            proof {
                assert(t[0] == views[k as int]);
                assert(t[0] == self.active_sessions@[k as int]@);
                assert(t.drop_first() =~= views.skip(k + 1 as int));
                if keep {
                    assert(session_views(out@) =~= session_views(prev).push(
                        self.active_sessions@[k as int]@,
                    ));
                    assert(session_views(prev).push(self.active_sessions@[k as int]@)
                        + kept_sessions(views.skip(k + 1 as int), now as int) =~= session_views(
                        prev,
                    ) + kept_sessions(t, now as int));
                } else {
                    assert(session_views(out@) + kept_sessions(views.skip(k + 1 as int), now as int)
                        =~= session_views(prev) + kept_sessions(t, now as int));
                }
            }
            k += 1;
        }
        proof {
            assert(views.skip(views.len() as int) =~= Seq::<SessionView>::empty());
            assert(session_views(out@) =~= kept_sessions(views, now as int));
        }
        self.active_sessions = out;
        proof {
            assert(self.sessions() == kept_sessions(old(self).sessions(), now as int));
        }
    }

    /// Encrypt sensitive data under a 32-byte key with a fresh random
    /// nonce prepended to the ciphertext. The result decrypts back to the
    /// data under the same key.
    pub fn encrypt_data(&self, data: &[u8], key: &[u8]) -> (r: Result<Vec<u8>, QmsError>)
        ensures
            key@.len() != 32 ==> (r matches Err(e) && e is Encryption),
            r matches Ok(c) ==> (key@.len() == 32 && c@.len() == data@.len() + 28 && decrypt_spec(
                key@,
                c@,
            ) == Some(data@)),
            key@.len() == 32 && data@.len() <= 0x1000000000 ==> r is Ok,
    {
        if key.len() != 32 {
            return Err(QmsError::Encryption {
                message: String::from_str("Key must be 32 bytes for AES-256"),
            });
        }
        let mut nonce = fresh_nonce();
        let sealed = aead_seal(key, nonce.as_slice(), data);
        match sealed {
            Some(mut ciphertext) => {
                let ghost nonce_view = nonce@;
                let ghost cipher_view = ciphertext@;
                let mut result = nonce;
                result.append(&mut ciphertext);
                proof {
                    assert(result@.subrange(0, 12) =~= nonce_view);
                    assert(result@.subrange(12, result@.len() as int) =~= cipher_view);
                }
                Ok(result)
            },
            None => Err(QmsError::Encryption {
                message: String::from_str("Encryption failed"),
            }),
        }
    }

    /// Decrypt data produced by `encrypt_data`: the first twelve bytes are
    /// taken as the nonce. Fails closed — an error, never a partial or
    /// unauthenticated plaintext.
    pub fn decrypt_data(&self, encrypted_data: &[u8], key: &[u8]) -> (r: Result<
        Vec<u8>,
        QmsError,
    >)
        ensures
            (r is Err) == (decrypt_spec(key@, encrypted_data@) is None),
            r matches Ok(p) ==> decrypt_spec(key@, encrypted_data@) == Some(p@),
            r matches Err(e) ==> e is Encryption,
    {
        if key.len() != 32 {
            return Err(QmsError::Encryption {
                message: String::from_str("Key must be 32 bytes for AES-256"),
            });
        }
        if encrypted_data.len() < 12 {
            return Err(QmsError::Encryption {
                message: String::from_str("Encrypted data too short"),
            });
        }
        let nonce_bytes = &encrypted_data[0..12];
        let ciphertext = &encrypted_data[12..encrypted_data.len()];
        match aead_open(key, nonce_bytes, ciphertext) {
            Some(plain) => Ok(plain),
            None => Err(QmsError::Encryption {
                message: String::from_str("Decryption failed"),
            }),
        }
    }

    /// Cryptographic hash of data for integrity verification: the SHA-256
    /// digest, rendered as lowercase hexadecimal.
    pub fn calculate_hash(&self, data: &[u8]) -> (r: String)
        requires
            data@.len() < 0x1000000000000000,
        ensures
            r@ == hex_of(sha256_of(data@)),
    {
        let digest = sha256(data);
        hex_encode(digest.as_slice())
    }

    /// Digital signature binding data under a shared key: the HMAC-SHA256
    /// tag, rendered as lowercase hexadecimal. A holder of the key can
    /// recompute and compare it.
    pub fn generate_signature(&self, data: &[u8], key: &[u8]) -> (r: Result<String, QmsError>)
        requires
            data@.len() < 0x1000000000000000,
        ensures
            r matches Ok(s) && s@ == signature_of(key@, data@),
    {
        let tag = hmac_sha256(key, data);
        Ok(hex_encode(tag.as_slice()))
    }

    /// Policy check, distinct from cryptographic verification: whether a
    /// signature is stale — bound at an instant more than the maximum
    /// age before now. A stale signature is rejected by the validation
    /// layer even when it still verifies.
    pub fn signature_is_stale(&self, signed_at: i64, now: i64, max_age_hours: i64) -> (r: bool)
        requires
            0 <= max_age_hours <= 0x7fff_ffff,
        ensures
            r == (now - signed_at > max_age_hours * 3600),
    {
        let age: i128 = (now as i128) - (signed_at as i128);
        age > (max_age_hours as i128) * 3600
    }

    /// Verify a signature produced by `generate_signature`: true exactly
    /// when the signature equals the recomputed one for the presented
    /// data. Malformed signatures simply compare unequal.
    pub fn verify_signature(&self, data: &[u8], signature: &str, key: &[u8]) -> (r: bool)
        requires
            data@.len() < 0x1000000000000000,
        ensures
            r == (signature@ == signature_of(key@, data@)),
    {
        let tag = hmac_sha256(key, data);
        let expected = hex_encode(tag.as_slice());
        let given = signature.to_owned();
        expected == given
    }
}

/// Law: a signature that verifies against altered data while it was
/// computed over the original data exhibits an HMAC collision — for
/// distinct data, verification can only succeed if the two HMAC tags
/// coincide.
pub proof fn lemma_tamper_needs_collision(key: Seq<u8>, data1: Seq<u8>, data2: Seq<u8>, sig: Seq<char>)
    requires
        sig == signature_of(key, data1),
        sig == signature_of(key, data2),
    ensures
        hmac_sha256_of(key, data1) == hmac_sha256_of(key, data2),
{
    lemma_hex_of_injective(hmac_sha256_of(key, data1), hmac_sha256_of(key, data2));
}

/// The failed attempts the first record carrying the name holds.
pub open spec fn attempts_lookup(records: Seq<AttemptRecord>, username: Seq<char>) -> Seq<i64>
    decreases records.len(),
{
    if records.len() == 0 {
        Seq::empty()
    } else if records[0].username@ == username {
        records[0].attempts@
    } else {
        attempts_lookup(records.drop_first(), username)
    }
}

/// Whether some record carries the name.
pub open spec fn has_record(records: Seq<AttemptRecord>, username: Seq<char>) -> bool {
    exists|i: int| 0 <= i < records.len() && (#[trigger] records[i]).username@ == username
}

/// The attempts among a record that lie after a cutoff, in order.
pub open spec fn kept_after(s: Seq<i64>, cutoff: int) -> Seq<i64>
    decreases s.len(),
{
    if s.len() == 0 {
        Seq::empty()
    } else {
        (if s[0] as int > cutoff {
            seq![s[0]]
        } else {
            Seq::empty()
        }) + kept_after(s.drop_first(), cutoff)
    }
}

/// The records that do not carry the name, in order.
pub open spec fn records_without(records: Seq<AttemptRecord>, username: Seq<char>) -> Seq<
    AttemptRecord,
>
    decreases records.len(),
{
    if records.len() == 0 {
        Seq::empty()
    } else {
        (if records[0].username@ != username {
            seq![records[0]]
        } else {
            Seq::empty()
        }) + records_without(records.drop_first(), username)
    }
}

/// The mathematical contents of a session sequence.
pub open spec fn session_views(s: Seq<Session>) -> Seq<SessionView> {
    s.map_values(|x: Session| x@)
}

/// The sessions that are still alive at an instant: active and not yet
/// expired, in order.
pub open spec fn kept_sessions(s: Seq<SessionView>, now: int) -> Seq<SessionView>
    decreases s.len(),
{
    if s.len() == 0 {
        Seq::empty()
    } else {
        (if s[0].is_active && s[0].expires_at > now {
            seq![s[0]]
        } else {
            Seq::empty()
        }) + kept_sessions(s.drop_first(), now)
    }
}

/// Removing a record carrying another name leaves a lookup unchanged.
proof fn lemma_lookup_remove(records: Seq<AttemptRecord>, i: int, u: Seq<char>)
    requires
        0 <= i < records.len(),
        records[i].username@ != u,
    ensures
        attempts_lookup(records.remove(i), u) == attempts_lookup(records, u),
    decreases records.len(),
{
    let t = records.remove(i);
    if i == 0 {
        assert(t =~= records.drop_first());
    } else {
        assert(t[0] == records[0]);
        assert(t.drop_first() =~= records.drop_first().remove(i - 1));
        assert(records.drop_first()[i - 1] == records[i]);
        lemma_lookup_remove(records.drop_first(), i - 1, u);
    }
}

/// A lookup skips over any prefix of records carrying other names.
proof fn lemma_lookup_skip(records: Seq<AttemptRecord>, username: Seq<char>, i: int)
    requires
        0 <= i <= records.len(),
        forall|j: int| 0 <= j < i ==> (#[trigger] records[j]).username@ != username,
    ensures
        attempts_lookup(records, username) == attempts_lookup(records.skip(i), username),
    decreases i,
{
    if i == 0 {
        assert(records.skip(0) =~= records);
    } else {
        lemma_lookup_skip(records, username, i - 1);
        let t = records.skip(i - 1);
        assert(t.len() == records.len() - i + 1);
        assert(t[0] == records[i - 1]);
        assert(t[0].username@ != username);
        assert(t.drop_first() =~= records.skip(i));
        assert(attempts_lookup(t, username) == attempts_lookup(records.skip(i), username));
    }
}

/// Without any record carrying the name, the lookup is empty.
proof fn lemma_lookup_absent(records: Seq<AttemptRecord>, username: Seq<char>)
    requires
        !has_record(records, username),
    ensures
        attempts_lookup(records, username) == Seq::<i64>::empty(),
    decreases records.len(),
{
    if records.len() > 0 {
        assert(records[0].username@ != username);
        assert(!has_record(records.drop_first(), username)) by {
            if has_record(records.drop_first(), username) {
                let i = choose|i: int|
                    0 <= i < records.drop_first().len() && (#[trigger] records.drop_first()[i]).username@
                        == username;
                assert(records[i + 1].username@ == username);
            }
        }
        lemma_lookup_absent(records.drop_first(), username);
    }
}

/// Appending a record resolves lookups that nothing resolved before,
/// and changes no other.
proof fn lemma_lookup_push(records: Seq<AttemptRecord>, rec: AttemptRecord, u: Seq<char>)
    ensures
        has_record(records, u) || rec.username@ != u ==> attempts_lookup(records.push(rec), u)
            == attempts_lookup(records, u),
        !has_record(records, u) && rec.username@ == u ==> attempts_lookup(records.push(rec), u)
            == rec.attempts@,
    decreases records.len(),
{
    let t = records.push(rec);
    assert(t.len() == records.len() + 1);
    if records.len() == 0 {
        assert(t[0] == rec);
        assert(t.drop_first() =~= Seq::<AttemptRecord>::empty());
        if rec.username@ != u {
            assert(attempts_lookup(t.drop_first(), u) =~= Seq::<i64>::empty());
            assert(attempts_lookup(t, u) == attempts_lookup(t.drop_first(), u));
        }
        assert(!has_record(records, u));
    } else {
        assert(t[0] == records[0]);
        assert(t.drop_first() =~= records.drop_first().push(rec));
        lemma_lookup_push(records.drop_first(), rec, u);
        if records[0].username@ != u {
            assert(has_record(records, u) <==> has_record(records.drop_first(), u)) by {
                if has_record(records, u) {
                    let i = choose|i: int|
                        0 <= i < records.len() && (#[trigger] records[i]).username@ == u;
                    assert(i > 0);
                    assert(records.drop_first()[i - 1] == records[i]);
                }
                if has_record(records.drop_first(), u) {
                    let i = choose|i: int|
                        0 <= i < records.drop_first().len() && (#[trigger] records.drop_first()[i]).username@
                            == u;
                    assert(records[i + 1].username@ == u);
                }
            }
            assert(attempts_lookup(t, u) == attempts_lookup(t.drop_first(), u));
            assert(attempts_lookup(records, u) == attempts_lookup(records.drop_first(), u));
        } else {
            assert(has_record(records, u)) by {
                assert(records[0].username@ == u);
            }
            assert(attempts_lookup(t, u) == records[0].attempts@);
            assert(attempts_lookup(records, u) == records[0].attempts@);
        }
    }
}

/// Replacing a record with one carrying the same name changes only that
/// name's lookup, and resolves it to the replacement when the replaced
/// record was the first carrying the name.
proof fn lemma_lookup_update(
    records: Seq<AttemptRecord>,
    i: int,
    rec: AttemptRecord,
    u: Seq<char>,
)
    requires
        0 <= i < records.len(),
        rec.username@ == records[i].username@,
    ensures
        u != records[i].username@ ==> attempts_lookup(records.update(i, rec), u)
            == attempts_lookup(records, u),
        (u == records[i].username@ && (forall|j: int|
            0 <= j < i ==> (#[trigger] records[j]).username@ != u)) ==> attempts_lookup(
            records.update(i, rec),
            u,
        ) == rec.attempts@,
    decreases records.len(),
{
    let t = records.update(i, rec);
    if i == 0 {
        assert(t[0] == rec);
        assert(t.drop_first() =~= records.drop_first());
    } else {
        assert(t[0] == records[0]);
        assert(t.drop_first() =~= records.drop_first().update(i - 1, rec));
        lemma_lookup_update(records.drop_first(), i - 1, rec, u);
        assert(records.drop_first()[i - 1] == records[i]);
        if u == records[i].username@ && (forall|j: int|
            0 <= j < i ==> (#[trigger] records[j]).username@ != u) {
            assert(records[0].username@ != u);
            assert(forall|j: int|
                0 <= j < i - 1 ==> (#[trigger] records.drop_first()[j]).username@ != u);
        }
    }
}

/// Dropping every record carrying a name empties that name's lookup and
/// changes no other.
proof fn lemma_lookup_without(records: Seq<AttemptRecord>, username: Seq<char>, u: Seq<char>)
    ensures
        !has_record(records_without(records, username), username),
        u != username ==> attempts_lookup(records_without(records, username), u)
            == attempts_lookup(records, u),
    decreases records.len(),
{
    let kept = records_without(records, username);
    if records.len() == 0 {
    } else {
        lemma_lookup_without(records.drop_first(), username, u);
        let rest = records_without(records.drop_first(), username);
        if records[0].username@ != username {
            assert(kept =~= seq![records[0]] + rest);
            assert(kept[0] == records[0]);
            assert(kept.drop_first() =~= rest);
            assert(!has_record(kept, username)) by {
                if has_record(kept, username) {
                    let i = choose|i: int|
                        0 <= i < kept.len() && (#[trigger] kept[i]).username@ == username;
                    assert(i > 0);
                    assert(rest[i - 1] == kept[i]);
                }
            }
        } else {
            assert(kept =~= rest);
        }
    }
}

/// The first attempts record carrying the name, if any.
fn find_attempt_index(records: &Vec<AttemptRecord>, target: &String) -> (r: Option<usize>)
    ensures
        r matches Some(i) ==> (i < records@.len() && records@[i as int].username@ == target@ && (
        forall|j: int| 0 <= j < i ==> (#[trigger] records@[j]).username@ != target@)),
        r is None ==> !has_record(records@, target@),
{
    let mut i: usize = 0;
    while i < records.len()
        invariant
            0 <= i <= records@.len(),
            forall|j: int| 0 <= j < i ==> (#[trigger] records@[j]).username@ != target@,
        decreases records@.len() - i,
    {
        if records[i].username == *target {
            return Some(i);
        }
        i += 1;
    }
    proof {
        if has_record(records@, target@) {
            let j = choose|j: int| 0 <= j < records@.len() && (#[trigger] records@[j]).username@ == target@;
        }
    }
    None
}

/// The attempts of a record that lie after a cutoff, with order kept.
fn prune_after(source: &Vec<i64>, cutoff: i128) -> (r: Vec<i64>)
    ensures
        r@ == kept_after(source@, cutoff as int),
{
    let mut out: Vec<i64> = Vec::new();
    let mut k: usize = 0;
    proof {
        assert(source@.skip(0) =~= source@);
    }
    while k < source.len()
        invariant
            0 <= k <= source@.len(),
            out@ + kept_after(source@.skip(k as int), cutoff as int) == kept_after(
                source@,
                cutoff as int,
            ),
        decreases source@.len() - k,
    {
        let ghost prev = out@;
        let ghost t = source@.skip(k as int);
        let v = source[k];
        if (v as i128) > cutoff {
            out.push(v);
        }
        proof {
            assert(t[0] == source@[k as int]);
            assert(t.drop_first() =~= source@.skip(k + 1 as int));
            if v as int > cutoff as int {
                assert(prev.push(v) + kept_after(source@.skip(k + 1 as int), cutoff as int)
                    =~= prev + kept_after(t, cutoff as int));
            } else {
                assert(prev + kept_after(source@.skip(k + 1 as int), cutoff as int) =~= prev
                    + kept_after(t, cutoff as int));
            }
        }
        k += 1;
    }
    proof {
        assert(source@.skip(source@.len() as int) =~= Seq::<i64>::empty());
        assert(out@ =~= kept_after(source@, cutoff as int));
    }
    out
}

/// The first session carrying the identifier, if any.
fn find_session_index(sessions: &Vec<Session>, target: &String) -> (r: Option<usize>)
    ensures
        r matches Some(i) ==> (i < sessions@.len() && sessions@[i as int].id@ == target@ && (
        forall|j: int| 0 <= j < i ==> (#[trigger] sessions@[j]).id@ != target@)),
        r is None ==> (forall|j: int|
            0 <= j < sessions@.len() ==> (#[trigger] sessions@[j]).id@ != target@),
{
    let mut i: usize = 0;
    while i < sessions.len()
        invariant
            0 <= i <= sessions@.len(),
            forall|j: int| 0 <= j < i ==> (#[trigger] sessions@[j]).id@ != target@,
        decreases sessions@.len() - i,
    {
        if sessions[i].id == *target {
            return Some(i);
        }
        i += 1;
    }
    None
}

/// The mathematical contents of one session.
#[verifier::ext_equal]
pub ghost struct SessionView {
    pub id: Seq<char>,
    pub user_id: Seq<char>,
    pub ip_address: Option<Seq<char>>,
    pub created_at: int,
    pub last_activity: int,
    pub expires_at: int,
    pub is_active: bool,
}

/// User session state.
#[derive(Debug, Clone)]
pub struct Session {
    /// Session identifier.
    pub id: String,
    /// Owner of the session.
    pub user_id: String,
    /// Originating address, if known.
    pub ip_address: Option<String>,
    /// Creation instant, seconds since the Unix epoch.
    pub created_at: i64,
    /// Last activity instant, seconds since the Unix epoch.
    pub last_activity: i64,
    /// Expiry instant, seconds since the Unix epoch.
    pub expires_at: i64,
    /// Whether the session is still active.
    pub is_active: bool,
}

impl View for Session {
    type V = SessionView;

    open spec fn view(&self) -> SessionView {
        SessionView {
            id: self.id@,
            user_id: self.user_id@,
            ip_address: crate::database::opt_text(self.ip_address),
            created_at: self.created_at as int,
            last_activity: self.last_activity as int,
            expires_at: self.expires_at as int,
            is_active: self.is_active,
        }
    }
}

impl Session {
    /// Copy of the session with the same contents.
    pub fn snapshot(&self) -> (r: Session)
        ensures
            r@ == self@,
    {
        let ip = match &self.ip_address {
            Some(s) => Some(s.clone()),
            None => None,
        };
        let r = Session {
            id: self.id.clone(),
            user_id: self.user_id.clone(),
            ip_address: ip,
            created_at: self.created_at,
            last_activity: self.last_activity,
            expires_at: self.expires_at,
            is_active: self.is_active,
        };
        proof {
            assert(r@ =~= self@);
        }
        r
    }
}

/// User role for access control.
#[derive(Debug, Clone, PartialEq, Eq, Structural)]
pub enum UserRole {
    SystemAdmin,
    QualityManager,
    DocumentController,
    Auditor,
    User,
    ReadOnly,
}

/// Permission enumeration for role-based access control.
#[derive(Debug, Clone, PartialEq, Eq, Structural)]
pub enum Permission {
    ReadDocuments,
    WriteDocuments,
    ApproveDocuments,
    ViewAuditTrail,
    ManageUsers,
    CreateReports,
    SystemAdmin,
}

/// Which permissions each role grants.
pub open spec fn role_grants(role: UserRole, permission: Permission) -> bool {
    match role {
        UserRole::SystemAdmin => true,
        UserRole::QualityManager => permission is ReadDocuments || permission is WriteDocuments
            || permission is ApproveDocuments || permission is ViewAuditTrail
            || permission is ManageUsers || permission is CreateReports,
        UserRole::DocumentController => permission is ReadDocuments
            || permission is WriteDocuments || permission is ApproveDocuments
            || permission is ViewAuditTrail,
        UserRole::Auditor => permission is ReadDocuments || permission is ViewAuditTrail
            || permission is CreateReports,
        UserRole::User => permission is ReadDocuments || permission is WriteDocuments,
        UserRole::ReadOnly => permission is ReadDocuments,
    }
}

impl UserRole {
    /// Check whether this role grants a permission.
    pub fn has_permission(&self, permission: Permission) -> (r: bool)
        ensures
            r == role_grants(*self, permission),
    {
        match self {
            UserRole::SystemAdmin => true,
            UserRole::QualityManager => matches!(permission,
                Permission::ReadDocuments | Permission::WriteDocuments |
                Permission::ApproveDocuments | Permission::ViewAuditTrail |
                Permission::ManageUsers | Permission::CreateReports),
            UserRole::DocumentController => matches!(permission,
                Permission::ReadDocuments | Permission::WriteDocuments |
                Permission::ApproveDocuments | Permission::ViewAuditTrail),
            UserRole::Auditor => matches!(permission,
                Permission::ReadDocuments | Permission::ViewAuditTrail |
                Permission::CreateReports),
            UserRole::User => matches!(permission,
                Permission::ReadDocuments | Permission::WriteDocuments),
            UserRole::ReadOnly => matches!(permission, Permission::ReadDocuments),
        }
    }
}

} // verus!
