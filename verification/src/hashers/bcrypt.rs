//! The bcrypt presets. The hashing itself is the `bcrypt` crate's.

use vstd::prelude::*;
use crate::error::HashError;
use crate::hashers::Hasher;
use crate::text::digit_char;

verus! {

/// The work factors that bcrypt accepts.
pub open spec fn cost_accepted(cost: u32) -> bool {
    4 <= cost <= 31
}

/// The shape of a bcrypt hash string of work factor `cost`: 60 characters,
/// of which the first seven are `$2b$`, the work factor in two decimal
/// digits, and `$`.
pub open spec fn bcrypt_shape(hash: Seq<char>, cost: u32) -> bool {
    &&& hash.len() == 60
    &&& hash[0] == '$'
    &&& hash[1] == '2'
    &&& hash[2] == 'b'
    &&& hash[3] == '$'
    &&& hash[4] == digit_char((cost / 10) as nat)
    &&& hash[5] == digit_char((cost % 10) as nat)
    &&& hash[6] == '$'
}

/// What holds of every outcome of a bcrypt hash computation: a hash string
/// comes only of an accepted work factor and has the shape of that work
/// factor, and a failure is bcrypt's.
pub open spec fn bcrypt_outcome(cost: u32, r: Result<String, HashError>) -> bool {
    match r {
        Ok(hash) => cost_accepted(cost) && bcrypt_shape(hash@, cost),
        Err(e) => e is Bcrypt,
    }
}

/// Calls `hash` of `bcrypt`, which draws its own random salt: a hash string
/// comes only of a work factor between 4 and 31 and has the shape of that
/// work factor. The error is the text that the crate gives for it.
#[verifier::external_body]
fn bcrypt_hash(input: &str, cost: u32) -> (r: Result<String, String>)
    ensures
        r matches Ok(hash) ==> cost_accepted(cost) && bcrypt_shape(hash@, cost),
{
    ::bcrypt::hash(input, cost).map_err(|e| e.to_string())
}

/// Hashes `input` with bcrypt at work factor `cost`.
pub fn hash_with_cost(input: &str, cost: u32) -> (r: Result<String, HashError>)
    ensures
        bcrypt_outcome(cost, r),
        !cost_accepted(cost) ==> r is Err,
{
    match bcrypt_hash(input, cost) {
        Ok(hash) => Ok(hash),
        Err(detail) => Err(HashError::Bcrypt(detail)),
    }
}

/// bcrypt with work factor 10.
pub struct HasherBcrypt10;

/// bcrypt with work factor 12.
pub struct HasherBcrypt12;

/// bcrypt with work factor 14.
pub struct HasherBcrypt14;

impl Hasher for HasherBcrypt10 {
    fn hash(input: &str) -> (r: Result<String, HashError>)
        ensures
            bcrypt_outcome(10, r),
    {
        hash_with_cost(input, 10)
    }
}

impl Hasher for HasherBcrypt12 {
    fn hash(input: &str) -> (r: Result<String, HashError>)
        ensures
            bcrypt_outcome(12, r),
    {
        hash_with_cost(input, 12)
    }
}

impl Hasher for HasherBcrypt14 {
    fn hash(input: &str) -> (r: Result<String, HashError>)
        ensures
            bcrypt_outcome(14, r),
    {
        hash_with_cost(input, 14)
    }
}

} // verus!
