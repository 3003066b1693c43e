use vstd::prelude::*;
use vstd::utf8::{encode_utf8, is_ascii_chars};
use vstd::string::StringSliceAdditionalSpecFns;
use base64::Engine;
use sha2::Digest;

verus! {

/// The bcrypt cost factor of every stored password hash.
pub const BCRYPT_COST: u32 = 10;

#[verifier::external_type_specification]
#[verifier::external_body]
pub struct ExBcryptError(bcrypt::BcryptError);

/// The SHA-512/256 digest of a byte string.
pub uninterp spec fn sha512_256_of(data: Seq<u8>) -> Seq<u8>;

/// The standard, padded base64 encoding of a byte string.
pub uninterp spec fn base64_of(data: Seq<u8>) -> Seq<char>;

/// The bcrypt hash of `password` at `cost` with `salt`, in its `$2b$` string form.
pub uninterp spec fn bcrypt_of(password: Seq<u8>, cost: u32, salt: Seq<u8>) -> Seq<char>;

/// `stored` is the bcrypt hash of `password` at a valid cost under some 16-byte salt.
pub open spec fn bcrypt_made(stored: Seq<char>, password: Seq<u8>) -> bool {
    exists|cost: u32, salt: Seq<u8>|
        4 <= cost <= 31 && salt.len() == 16 && stored == #[trigger] bcrypt_of(password, cost, salt)
}

/// `stored` is a hash string that bcrypt made, at a valid cost under a 16-byte salt.
pub open spec fn bcrypt_well_formed(stored: Seq<char>) -> bool {
    exists|password: Seq<u8>, cost: u32, salt: Seq<u8>|
        4 <= cost <= 31 && salt.len() == 16 && stored == #[trigger] bcrypt_of(password, cost, salt)
}

/// `stored` is what `hash` gives for some password, 16-byte salt and pepper.
pub open spec fn hash_made(stored: Seq<char>) -> bool {
    exists|password: Seq<char>, salt: Seq<u8>, pepper: Seq<char>|
        salt.len() == 16 && stored == #[trigger] derived(password, salt, pepper)
}

/// What bcrypt's check of `password` against the hash string `stored` gives:
/// `None` when `stored` is not a well-formed bcrypt hash string.
pub uninterp spec fn bcrypt_check_of(password: Seq<u8>, stored: Seq<char>) -> Option<bool>;

/// The length-normalised input that is fed to bcrypt: the base64 text of
/// SHA-512/256 over the password followed by the pepper.
pub open spec fn prehash(password: Seq<char>, pepper: Seq<char>) -> Seq<char> {
    base64_of(sha512_256_of(encode_utf8(password) + encode_utf8(pepper)))
}

/// The stored form of `password` under `salt` and `pepper`.
pub open spec fn derived(password: Seq<char>, salt: Seq<u8>, pepper: Seq<char>) -> Seq<char> {
    bcrypt_of(encode_utf8(prehash(password, pepper)), BCRYPT_COST, salt)
}

/// `stored` is the hash of `password` with `pepper` under some 16-byte salt.
pub open spec fn hash_matches(stored: Seq<char>, password: Seq<char>, pepper: Seq<char>) -> bool {
    exists|salt: Seq<u8>| salt.len() == 16 && stored == #[trigger] derived(password, salt, pepper)
}

/// Relies on sha2's `Sha512_256`: fed the password and then the pepper, it
/// digests their concatenation into 32 bytes.
#[verifier::external_body]
fn sha512_256(input: &str, pepper: &str) -> (r: Vec<u8>)
    ensures
        r@ == sha512_256_of(input.spec_bytes() + pepper.spec_bytes()),
        r@.len() == 32,
{
    let mut hasher = sha2::Sha512_256::new();
    hasher.update(input);
    hasher.update(pepper);
    hasher.finalize().to_vec()
}

/// Relies on base64's `STANDARD` engine `encode`.
#[verifier::external_body]
fn base64_standard(data: &[u8]) -> (r: String)
    requires
        data@.len() == 32,
    ensures
        r@ == base64_of(data@),
        r@.len() == 4 * ((data@.len() + 2) / 3),
        is_ascii_chars(r@),
{
    base64::prelude::BASE64_STANDARD.encode(data)
}

/// Relies on `bcrypt::hash_with_salt` and `HashParts::format_for_version` with
/// `Version::TwoB`: it fails only on a cost outside 4..=31.
#[verifier::external_body]
fn bcrypt_hash(password: &str, cost: u32, salt: &[u8]) -> (r: Result<String, bcrypt::BcryptError>)
    requires
        4 <= cost <= 31,
        salt@.len() == 16,
    ensures
        r is Ok,
        r is Ok ==> r->Ok_0@ == bcrypt_of(password.spec_bytes(), cost, salt@),
        r is Ok ==> r->Ok_0@.len() == 60 && "$2b$"@.is_prefix_of(r->Ok_0@),
{
    let mut salt_arr = [0u8; 16];
    salt_arr.copy_from_slice(salt);
    bcrypt::hash_with_salt(password, cost, salt_arr).map(|p| p.format_for_version(bcrypt::Version::TwoB))
}

/// Relies on `bcrypt::verify`: its result depends on its arguments alone; a hash
/// string that `bcrypt_hash` made (prefix `2b`, a two-digit cost, salt and hash) is
/// parsed without error whatever password is checked, and is accepted for the
/// password it was made from.
#[verifier::external_body]
fn bcrypt_verify(password: &str, stored: &str) -> (r: Result<bool, bcrypt::BcryptError>)
    ensures
        r is Ok <==> bcrypt_check_of(password.spec_bytes(), stored@) is Some,
        bcrypt_well_formed(stored@) ==> r is Ok,
        r is Ok ==> r->Ok_0 == bcrypt_check_of(password.spec_bytes(), stored@)->0,
        bcrypt_made(stored@, password.spec_bytes()) ==> (r is Ok && r->Ok_0),
{
    bcrypt::verify(password, stored)
}

/// Why hashing or verification failed.
#[derive(Debug)]
pub enum HashingError {
    /// The stored hash is not a bcrypt hash string, or bcrypt refused its parameters.
    BCrypt,
}

/// Hashes `input` with a 16-byte `salt` and the server-wide `pepper`. The pepper
/// is digested together with the password (SHA-512/256, then base64) so that
/// bcrypt's 72-byte input limit never truncates it.
pub fn hash(input: &str, salt: &str, pepper: &str) -> (r: Result<String, HashingError>)
    requires
        salt.spec_bytes().len() == 16,
    ensures
        r is Ok,
        r is Ok ==> r->Ok_0@ == derived(input@, salt.spec_bytes(), pepper@),
        r is Ok ==> r->Ok_0@.len() == 60,
        encode_utf8(prehash(input@, pepper@)).len() == 44,
{
    let digest = sha512_256(input, pepper);
    let encoded = base64_standard(digest.as_slice());
    proof {
        vstd::utf8::is_ascii_chars_encode_utf8(encoded@);
    }
    match bcrypt_hash(encoded.as_str(), BCRYPT_COST, salt.as_bytes()) {
        Ok(h) => Ok(h),
        Err(_) => Err(HashingError::BCrypt),
    }
}

/// What checking `input` with `pepper` against `stored_hash` gives: bcrypt's check of
/// the length-normalised input, and an error when the stored hash is malformed.
pub open spec fn verify_result(stored_hash: Seq<char>, input: Seq<char>, pepper: Seq<char>) -> Result<bool, HashingError> {
    match bcrypt_check_of(encode_utf8(prehash(input, pepper)), stored_hash) {
        Some(b) => Ok(b),
        None => Err(HashingError::BCrypt),
    }
}

/// Whether `input` with `pepper` is the password that `stored_hash` was derived from.
/// A malformed stored hash is an error.
pub fn verify(stored_hash: &str, input: &str, pepper: &str) -> (r: Result<bool, HashingError>)
    ensures
        r == verify_result(stored_hash@, input@, pepper@),
        hash_made(stored_hash@) ==> r is Ok,
        hash_matches(stored_hash@, input@, pepper@) ==> r == Ok::<bool, HashingError>(true),
{
    let digest = sha512_256(input, pepper);
    let encoded = base64_standard(digest.as_slice());
    let enc: &str = encoded.as_str();
    let res = bcrypt_verify(enc, stored_hash);
    proof {
        if hash_made(stored_hash@) {
            let (p, salt, q) = choose|p: Seq<char>, salt: Seq<u8>, q: Seq<char>|
                salt.len() == 16 && stored_hash@ == #[trigger] derived(p, salt, q);
            assert(bcrypt_well_formed(stored_hash@)) by {
                let pw = encode_utf8(prehash(p, q));
                assert(stored_hash@ == bcrypt_of(pw, BCRYPT_COST, salt));
            }
        }
        if hash_matches(stored_hash@, input@, pepper@) {
            let salt = choose|salt: Seq<u8>| salt.len() == 16 && stored_hash@ == #[trigger] derived(input@, salt, pepper@);
            assert(stored_hash@ == bcrypt_of(enc.spec_bytes(), BCRYPT_COST, salt));
            assert(bcrypt_made(stored_hash@, enc.spec_bytes()));
        }
    }
    match res {
        Ok(b) => Ok(b),
        Err(_) => Err(HashingError::BCrypt),
    }
}

/// A password always verifies against its own hash, whatever the salt and pepper.
pub proof fn lemma_verify_derived(password: Seq<char>, salt: Seq<u8>, pepper: Seq<char>)
    requires
        salt.len() == 16,
    ensures
        hash_matches(derived(password, salt, pepper), password, pepper),
{
}

} // verus!
