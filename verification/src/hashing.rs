//! Credential hashing: turns a plaintext password and secret salt material
//! into an opaque, self-describing stored hash, and checks a presented
//! password against a stored hash.
//!
//! The memory-hard derivation itself is done by the argon2 crate; its results
//! are named by uninterpreted spec functions, and everything around the calls
//! is verified against those names.

use vstd::prelude::*;

verus! {

use vstd::string::StringSliceAdditionalSpecFns;

broadcast use vstd::slice::group_slice_axioms;

/// Largest password size, in encoded bytes, that the hashing algorithm
/// accepts.
pub const MAX_PASSWORD_BYTES: usize = 0xFFFF_FFFF;

/// The PHC string that argon2 (default algorithm, version and cost
/// parameters) derives from a password and a salt. A function of the two
/// arguments alone.
pub uninterp spec fn argon2_digest(password: Seq<u8>, salt: Seq<u8>) -> Seq<char>;

/// Whether argon2 verification accepts the password against the stored PHC
/// string, re-deriving with the parameters embedded in that string. A
/// function of the two arguments alone.
pub uninterp spec fn argon2_matches(password: Seq<u8>, stored: Seq<char>) -> bool;

/// Whether the string parses as a PHC-format password hash.
pub uninterp spec fn phc_well_formed(stored: Seq<char>) -> bool;

/// A fault reported by the hashing algorithm: malformed salt or stored-hash
/// material, or an oversized input. Configuration-class, not a user error.
#[derive(Debug)]
pub struct HashError {
    msg: String,
}

impl View for HashError {
    type V = Seq<char>;

    closed spec fn view(&self) -> Seq<char> {
        self.msg@
    }
}

impl HashError {
    pub fn new(msg: String) -> (r: HashError)
        ensures
            r@ == msg@,
    {
        HashError { msg }
    }

    /// A short description of the fault.
    pub fn text(&self) -> (r: &str)
        ensures
            r@ == self@,
    {
        self.msg.as_str()
    }
}

/// Relies on argon2::Argon2::hash_password (the PasswordHasher impl) with the
/// default algorithm, version and parameters, after converting the salt bytes
/// with password_hash::SaltString::encode_b64. Per the crates' sources: the
/// PHC output is a function of password and salt alone; the salt is embedded
/// (B64-encoded, injectively) in the output, so distinct salts give distinct
/// outputs; the output is a well-formed PHC string that verifies against the
/// same password; hashing accepts any salt of 8 to 48 bytes and any password
/// of at most 2^32 - 1 bytes.
#[verifier::external_body]
fn argon2_hash(password: &str, salt_bytes: &Vec<u8>) -> (r: Result<String, String>)
    requires
        8 <= salt_bytes@.len() <= 48,
        password.spec_bytes().len() <= MAX_PASSWORD_BYTES,
    ensures
        r is Ok,
        r matches Ok(h) ==> h@ == argon2_digest(password.spec_bytes(), salt_bytes@),
        r matches Ok(h) ==> argon2_matches(password.spec_bytes(), h@),
        r matches Ok(h) ==> phc_well_formed(h@),
        r matches Ok(h) ==> forall|s2: Seq<u8>|
            s2 != salt_bytes@ ==> argon2_digest(password.spec_bytes(), s2) != h@,
{
    let salt = match argon2::password_hash::SaltString::encode_b64(salt_bytes.as_slice()) {
        Ok(s) => s,
        Err(e) => {
            return Err(format!("{}", e));
        },
    };
    let context = argon2::Argon2::default();
    match argon2::password_hash::PasswordHasher::hash_password(&context, password.as_bytes(), &salt)
    {
        Ok(h) => Ok(h.to_string()),
        Err(e) => Err(format!("{}", e)),
    }
}

/// Relies on argon2::password_hash::PasswordHash::new to parse the stored
/// string, then argon2::Argon2::verify_password, which re-derives with the
/// algorithm, version and parameters embedded in the stored string and
/// compares in constant time: the outcome is a function of the password and
/// the stored string alone. Parse failure is the only error.
#[verifier::external_body]
fn argon2_verify(password: &str, stored: &str) -> (r: Result<bool, String>)
    ensures
        r is Ok <==> phc_well_formed(stored@),
        r matches Ok(b) ==> b == argon2_matches(password.spec_bytes(), stored@),
{
    let parsed = match argon2::password_hash::PasswordHash::new(stored) {
        Ok(p) => p,
        Err(e) => {
            return Err(format!("{}", e));
        },
    };
    let context = argon2::Argon2::default();
    let outcome = argon2::password_hash::PasswordVerifier::verify_password(
        &context,
        password.as_bytes(),
        &parsed,
    );
    Ok(outcome.is_ok())
}

/// Relies on uuid::Uuid::new_v4: 16 bytes drawn from the operating system's
/// cryptographically secure random source. Nothing is promised of the value
/// itself; two calls may return anything.
#[verifier::external_body]
fn fresh_random_bytes() -> (r: Vec<u8>)
    ensures
        r@.len() == 16,
{
    uuid::Uuid::new_v4().into_bytes().to_vec()
}

/// The credential hasher: holds the process-wide secret salt material,
/// resolved once at startup. Each hash call combines that material with a
/// fresh random component, so repeated hashes of one password differ.
pub struct Hasher {
    secret: Vec<u8>,
}

impl Hasher {
    /// The secret material is non-empty and leaves room for the per-call
    /// random component within the algorithm's salt limit.
    pub closed spec fn wf(&self) -> bool {
        1 <= self.secret@.len() <= 32
    }

    /// Accepts secret salt material of 1 to 32 bytes; anything else is the
    /// startup configuration fault.
    pub fn new(secret: Vec<u8>) -> (r: Result<Hasher, HashError>)
        ensures
            r is Ok <==> 1 <= secret@.len() <= 32,
            r matches Ok(h) ==> h.wf(),
    {
        if secret.len() == 0 || secret.len() > 32 {
            Err(HashError::new("secret salt material must be 1 to 32 bytes".to_owned()))
        } else {
            Ok(Hasher { secret })
        }
    }

    /// Deterministic core of the hasher: derive the stored hash for a given
    /// salt. Exposed so that the derivation can be exercised with injected
    /// salt fixtures; `hash_password` supplies the salt itself.
    pub fn hash_with_salt(password: &str, salt: &Vec<u8>) -> (r: Result<String, HashError>)
        ensures
            r is Ok <==> (8 <= salt@.len() <= 48 && password.spec_bytes().len()
                <= MAX_PASSWORD_BYTES),
            r matches Ok(h) ==> h@ == argon2_digest(password.spec_bytes(), salt@),
            r matches Ok(h) ==> argon2_matches(password.spec_bytes(), h@),
            r matches Ok(h) ==> phc_well_formed(h@),
            r matches Ok(h) ==> forall|s2: Seq<u8>|
                s2 != salt@ ==> argon2_digest(password.spec_bytes(), s2) != h@,
    {
        if salt.len() < 8 || salt.len() > 48 {
            return Err(HashError::new("salt must be 8 to 48 bytes".to_owned()));
        }
        if password.as_bytes().len() > MAX_PASSWORD_BYTES {
            return Err(HashError::new("password too long".to_owned()));
        }
        match argon2_hash(password, salt) {
            Ok(h) => Ok(h),
            Err(m) => Err(HashError::new(m)),
        }
    }

    /// Derive the stored hash for a password: the salt is the secret material
    /// followed by 16 fresh random bytes. Fails only for a password above the
    /// algorithm's size limit.
    pub fn hash_password(&self, password: &str) -> (r: Result<String, HashError>)
        requires
            self.wf(),
        ensures
            r is Ok <==> password.spec_bytes().len() <= MAX_PASSWORD_BYTES,
            r matches Ok(h) ==> argon2_matches(password.spec_bytes(), h@),
            r matches Ok(h) ==> phc_well_formed(h@),
            r matches Ok(h) ==> exists|s: Seq<u8>|
                h@ == argon2_digest(password.spec_bytes(), s),
    {
        if password.as_bytes().len() > MAX_PASSWORD_BYTES {
            return Err(HashError::new("password too long".to_owned()));
        }
        let mut salt: Vec<u8> = Vec::new();
        let mut i: usize = 0;
        while i < self.secret.len()
            invariant
                i <= self.secret@.len(),
                salt@ =~= self.secret@.take(i as int),
            decreases self.secret@.len() - i,
        {
            salt.push(self.secret[i]);
            i = i + 1;
        }
        assert(salt@ =~= self.secret@);
        let mut fresh = fresh_random_bytes();
        salt.append(&mut fresh);
        let r = Self::hash_with_salt(password, &salt);
        match r {
            Ok(h) => {
                assert(h@ == argon2_digest(password.spec_bytes(), salt@));
                Ok(h)
            },
            Err(e) => Err(e),
        }
    }

    /// Check a presented password against a stored hash. A malformed stored
    /// string is the only error; a wrong password is `Ok(false)`, not an
    /// error, so the caller cannot distinguish hash-format details.
    pub fn verify(password: &str, stored: &str) -> (r: Result<bool, HashError>)
        ensures
            r is Ok <==> phc_well_formed(stored@),
            r matches Ok(b) ==> b == argon2_matches(password.spec_bytes(), stored@),
    {
        match argon2_verify(password, stored) {
            Ok(b) => Ok(b),
            Err(m) => Err(HashError::new(m)),
        }
    }
}

/// Law: a credential hash freshly derived from a password verifies against
/// that same password.
pub fn hash_round_trip(hasher: &Hasher, password: &str) -> (r: Result<bool, HashError>)
    requires
        hasher.wf(),
    ensures
        password.spec_bytes().len() <= MAX_PASSWORD_BYTES ==> (r matches Ok(b) && b),
{
    let h = match hasher.hash_password(password) {
        Ok(h) => h,
        Err(e) => {
            return Err(e);
        },
    };
    Hasher::verify(password, h.as_str())
}

/// Law: one password hashed under two distinct salts yields two distinct
/// stored hash strings, and each of them verifies against the password.
pub fn hash_distinct_salts(password: &str, salt1: &Vec<u8>, salt2: &Vec<u8>) -> (r: Result<
    (String, String),
    HashError,
>)
    requires
        salt1@ != salt2@,
    ensures
        r matches Ok(p) ==> p.0@ != p.1@,
        r matches Ok(p) ==> argon2_matches(password.spec_bytes(), p.0@) && argon2_matches(
            password.spec_bytes(),
            p.1@,
        ),
        (8 <= salt1@.len() <= 48 && 8 <= salt2@.len() <= 48 && password.spec_bytes().len()
            <= MAX_PASSWORD_BYTES) ==> r is Ok,
{
    let h1 = match Hasher::hash_with_salt(password, salt1) {
        Ok(h) => h,
        Err(e) => {
            return Err(e);
        },
    };
    let h2 = match Hasher::hash_with_salt(password, salt2) {
        Ok(h) => h,
        Err(e) => {
            return Err(e);
        },
    };
    assert(argon2_digest(password.spec_bytes(), salt2@) != h1@);
    Ok((h1, h2))
}

} // verus!
