//! Password hashing with bcrypt, so hashes are interchangeable with the engine's.
use vstd::prelude::*;

verus! {

/// What `bcrypt::verify` answers: whether a password matches a hash, or nothing where
/// the hash is malformed.
pub uninterp spec fn bcrypt_verified(password: Seq<char>, hash: Seq<char>) -> Option<bool>;

/// `bcrypt::verify`.
#[verifier::external_body]
fn bcrypt_verify(password: &str, hash: &str) -> (matches: Option<bool>)
    ensures
        matches == bcrypt_verified(password@, hash@),
{
    bcrypt::verify(password, hash).ok()
}

/// `bcrypt::hash` at the default cost. The salt is random: any hash may come out, but
/// the password matches it. It fails where the system has no randomness to give.
#[verifier::external_body]
fn bcrypt_hash(password: &str) -> (hash: Option<String>)
    ensures
        hash matches Some(h) ==> bcrypt_verified(password@, h@) == Some(true) && h@.len() == 60,
{
    bcrypt::hash(password, bcrypt::DEFAULT_COST).ok()
}

/// The text of a hash that was made; empty where none could be.
pub open spec fn hash_text(hash: Option<Seq<char>>) -> Seq<char> {
    match hash {
        Some(h) => h,
        None => Seq::empty(),
    }
}

/// What a hashing attempt is answered with: the hash, or an empty text.
pub fn hash_or_empty(hash: Option<String>) -> (text: String)
    ensures
        text@ == hash_text(crate::state_bag::optional(hash)),
{
    match hash {
        Some(h) => h,
        None => {
            let none = String::new();
            assert(none@ =~= Seq::empty());
            none
        },
    }
}

/// Hash a password; empty where that fails. Which hash comes out is left to chance.
pub fn password_hash(password: &str) -> (text: String)
    ensures
        text@.len() == 0 || text@.len() == 60 && password_matches(password@, text@),
{
    hash_or_empty(bcrypt_hash(password))
}

/// Whether a password matches a hash. A malformed hash matches nothing: the question is
/// "does this password match", and the answer for a hash that cannot be read is no.
pub open spec fn password_matches(password: Seq<char>, hash: Seq<char>) -> bool {
    bcrypt_verified(password, hash) == Some(true)
}

/// What a verification is answered with.
pub fn matched(verified: Option<bool>) -> (yes: bool)
    ensures
        yes == (verified == Some(true)),
{
    match verified {
        Some(yes) => yes,
        None => false,
    }
}

/// Whether a password matches a hash.
pub fn verify_password(password: &str, hash: &str) -> (yes: bool)
    ensures
        yes == password_matches(password@, hash@),
{
    matched(bcrypt_verify(password, hash))
}

} // verus!
