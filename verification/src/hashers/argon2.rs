//! The Argon2 presets. The hashing itself is the `argon2` crate's.

use vstd::prelude::*;
use crate::error::HashError;
use crate::hashers::Hasher;
use crate::text::decimal;

verus! {

/// Argon2 cost parameters, as the `argon2` crate holds them once it has
/// accepted them.
#[verifier::external_type_specification]
#[verifier::external_body]
pub struct ExParams(::argon2::Params);

/// A salt in the text form that the `argon2` crate takes.
#[verifier::external_type_specification]
#[verifier::external_body]
pub struct ExSaltString(::argon2::password_hash::SaltString);

/// The number of random bytes in a salt.
pub const SALT_LENGTH: usize = 16;

/// The variants of Argon2.
#[derive(Debug, Clone, Copy, PartialEq, Eq, Structural)]
pub enum Argon2Variant {
    Argon2d,
    Argon2i,
    Argon2id,
}

/// The versions of Argon2.
#[derive(Debug, Clone, Copy, PartialEq, Eq, Structural)]
pub enum Argon2Version {
    V0x10,
    V0x13,
}

/// Whether Argon2 accepts the cost parameters: at least 8 KiB of memory and
/// at least 8 KiB for each lane, at least one pass, and between 1 and
/// 2^24 - 1 lanes.
pub open spec fn params_accepted(m_cost: u32, t_cost: u32, p_cost: u32) -> bool {
    &&& m_cost >= 8
    &&& m_cost >= 8 * p_cost
    &&& t_cost >= 1
    &&& 1 <= p_cost <= 0xFF_FFFF
}

/// How every hash string of the given variant and version begins: the
/// variant's identifier and the version's number, each after a `$`, and a
/// `$` after them.
pub open spec fn phc_header(variant: Argon2Variant, version: Argon2Version) -> Seq<char> {
    let ident = match variant {
        Argon2Variant::Argon2d => "$argon2d"@,
        Argon2Variant::Argon2i => "$argon2i"@,
        Argon2Variant::Argon2id => "$argon2id"@,
    };
    let number = match version {
        Argon2Version::V0x10 => "$v=16$"@,
        Argon2Version::V0x13 => "$v=19$"@,
    };
    ident + number
}

/// How the cost parameters stand in a hash string: memory, passes and
/// lanes, in this order and in decimal, and a `$` after them.
pub open spec fn phc_costs(m_cost: u32, t_cost: u32, p_cost: u32) -> Seq<char> {
    "m="@ + decimal(m_cost as nat) + ",t="@ + decimal(t_cost as nat) + ",p="@ + decimal(
        p_cost as nat,
    ) + "$"@
}

/// How every hash string of the given variant, version and cost parameters
/// begins: the header, then the cost parameters. The salt and the hash
/// follow.
pub open spec fn phc_prefix(
    variant: Argon2Variant,
    version: Argon2Version,
    m_cost: u32,
    t_cost: u32,
    p_cost: u32,
) -> Seq<char> {
    phc_header(variant, version) + phc_costs(m_cost, t_cost, p_cost)
}

/// What holds of every outcome of an Argon2 hash computation with accepted
/// cost parameters: a hash string begins with its variant, its version and
/// its cost parameters, and a failure is one of the salt or of the hashing.
pub open spec fn argon2_outcome(
    variant: Argon2Variant,
    version: Argon2Version,
    m_cost: u32,
    t_cost: u32,
    p_cost: u32,
    r: Result<String, HashError>,
) -> bool {
    match r {
        Ok(hash) => phc_prefix(variant, version, m_cost, t_cost, p_cost).is_prefix_of(hash@),
        Err(e) => e is Salt || e is Hashing,
    }
}

/// Calls `OsRng::try_fill_bytes` of `rand_core` on the whole buffer: the
/// buffer keeps its length, and what it holds afterwards is not stated. The
/// error is the text that `rand_core` gives for it.
#[verifier::external_body]
fn fill_random(buffer: &mut Vec<u8>) -> (r: Result<(), String>)
    ensures
        final(buffer)@.len() == old(buffer)@.len(),
{
    ::rand_core::RngCore::try_fill_bytes(&mut ::rand_core::OsRng, buffer.as_mut_slice())
        .map_err(|e| e.to_string())
}

/// Calls `SaltString::encode_b64` of `password_hash` on the bytes. Salts
/// of other lengths than `SALT_LENGTH` are left out: the crate panics later
/// on a salt of fewer than three bytes.
#[verifier::external_body]
fn encode_salt(bytes: &Vec<u8>) -> (r: Result<::argon2::password_hash::SaltString, String>)
    requires
        bytes@.len() == SALT_LENGTH,
{
    ::argon2::password_hash::SaltString::encode_b64(bytes.as_slice()).map_err(|e| e.to_string())
}

/// Calls `Params::new` of `argon2` without an output length: the parameters
/// are accepted exactly when `params_accepted` holds of them. Lane counts
/// whose eightfold does not fit in `u32` are left out: the crate multiplies
/// before it compares.
#[verifier::external_body]
fn checked_params(m_cost: u32, t_cost: u32, p_cost: u32) -> (r: Result<::argon2::Params, String>)
    requires
        8 * p_cost <= u32::MAX,
    ensures
        r is Ok <==> params_accepted(m_cost, t_cost, p_cost),
{
    ::argon2::Params::new(m_cost, t_cost, p_cost, None).map_err(|e| e.to_string())
}

/// Calls `Params::new`, `Argon2::new` and `PasswordHasher::hash_password`
/// of `argon2` with these plain values and writes the hash out as a string:
/// it begins with the variant, the version and the cost parameters that were
/// handed in. Cost parameters that Argon2 refuses are left out;
/// `checked_params` tells them. The error is the text that the crate gives
/// for it.
#[verifier::external_body]
fn hash_password(
    variant: Argon2Variant,
    version: Argon2Version,
    m_cost: u32,
    t_cost: u32,
    p_cost: u32,
    password: &str,
    salt: &::argon2::password_hash::SaltString,
) -> (r: Result<String, String>)
    requires
        params_accepted(m_cost, t_cost, p_cost),
    ensures
        r matches Ok(hash) ==> phc_prefix(variant, version, m_cost, t_cost, p_cost).is_prefix_of(
            hash@,
        ),
{
    let algorithm = match variant {
        Argon2Variant::Argon2d => ::argon2::Algorithm::Argon2d,
        Argon2Variant::Argon2i => ::argon2::Algorithm::Argon2i,
        Argon2Variant::Argon2id => ::argon2::Algorithm::Argon2id,
    };
    let number = match version {
        Argon2Version::V0x10 => ::argon2::Version::V0x10,
        Argon2Version::V0x13 => ::argon2::Version::V0x13,
    };
    let params = ::argon2::Params::new(m_cost, t_cost, p_cost, None).map_err(|e| e.to_string())?;
    let context = ::argon2::Argon2::new(algorithm, number, params);
    ::argon2::PasswordHasher::hash_password(&context, password.as_bytes(), salt)
        .map(|hash| hash.to_string())
        .map_err(|e| e.to_string())
}

/// What becomes of one step of making a salt: what the step gave stays as it
/// is, and the text of a failure becomes a failure of the salt with that
/// text.
pub open spec fn salt_step<T>(outcome: Result<T, String>) -> Result<T, HashError> {
    match outcome {
        Ok(value) => Ok(value),
        Err(detail) => Err(HashError::Salt(detail)),
    }
}

/// Takes the outcome of one step of making a salt: what the step gave is
/// handed on, and the text of a failure is handed on as a failure of the
/// salt.
pub fn or_salt_failure<T>(outcome: Result<T, String>) -> (r: Result<T, HashError>)
    ensures
        r == salt_step(outcome),
{
    match outcome {
        Ok(value) => Ok(value),
        Err(detail) => Err(HashError::Salt(detail)),
    }
}

/// A fresh random salt: `SALT_LENGTH` bytes of the random source, in the
/// text form that Argon2 takes. Whether there is one lies with the random
/// source; where there is none, the failure is one of the salt.
pub fn generate_salt() -> (r: Result<::argon2::password_hash::SaltString, HashError>)
    ensures
        r matches Err(e) ==> e is Salt,
{
    let mut bytes: Vec<u8> = Vec::new();
    while bytes.len() < SALT_LENGTH
        invariant
            bytes.len() <= SALT_LENGTH,
        decreases SALT_LENGTH - bytes.len(),
    {
        bytes.push(0u8);
    }
    match or_salt_failure(fill_random(&mut bytes)) {
        Ok(()) => {},
        Err(e) => {
            return Err(e);
        },
    }
    or_salt_failure(encode_salt(&bytes))
}

/// Hashes `input` with Argon2 under a fresh random salt.
///
/// A hash string begins with the variant, the version and the cost
/// parameters that were asked for. Cost parameters that Argon2 refuses give
/// no hash: the failure is `InvalidParams`, unless the salt failed before.
/// Accepted cost parameters never give `InvalidParams`.
pub fn hash_with(
    variant: Argon2Variant,
    version: Argon2Version,
    m_cost: u32,
    t_cost: u32,
    p_cost: u32,
    input: &str,
) -> (r: Result<String, HashError>)
    requires
        8 * p_cost <= u32::MAX,
    ensures
        params_accepted(m_cost, t_cost, p_cost) ==> argon2_outcome(
            variant,
            version,
            m_cost,
            t_cost,
            p_cost,
            r,
        ),
        !params_accepted(m_cost, t_cost, p_cost) ==> (r matches Err(e) && (e is InvalidParams
            || e is Salt)),
{
    let salt = match generate_salt() {
        Ok(salt) => salt,
        Err(e) => {
            return Err(e);
        },
    };
    match checked_params(m_cost, t_cost, p_cost) {
        Ok(_) => {},
        Err(detail) => {
            return Err(HashError::InvalidParams(detail));
        },
    }
    match hash_password(variant, version, m_cost, t_cost, p_cost, input, &salt) {
        Ok(hash) => Ok(hash),
        Err(detail) => Err(HashError::Hashing(detail)),
    }
}

/// How the hash strings of the four Argon2 presets begin, letter by letter.
pub proof fn lemma_preset_prefixes()
    ensures
        phc_prefix(Argon2Variant::Argon2id, Argon2Version::V0x13, 65536, 2, 1)
            == "$argon2id$v=19$m=65536,t=2,p=1$"@,
        phc_prefix(Argon2Variant::Argon2id, Argon2Version::V0x13, 262144, 4, 2)
            == "$argon2id$v=19$m=262144,t=4,p=2$"@,
        phc_prefix(Argon2Variant::Argon2i, Argon2Version::V0x13, 131072, 3, 1)
            == "$argon2i$v=19$m=131072,t=3,p=1$"@,
        phc_prefix(Argon2Variant::Argon2d, Argon2Version::V0x13, 131072, 3, 1)
            == "$argon2d$v=19$m=131072,t=3,p=1$"@,
{
    reveal_with_fuel(decimal, 7);
    reveal_strlit("$argon2id$v=19$m=65536,t=2,p=1$");
    reveal_strlit("$argon2id$v=19$m=262144,t=4,p=2$");
    reveal_strlit("$argon2i$v=19$m=131072,t=3,p=1$");
    reveal_strlit("$argon2d$v=19$m=131072,t=3,p=1$");
    reveal_strlit("$argon2id");
    reveal_strlit("$argon2i");
    reveal_strlit("$argon2d");
    reveal_strlit("$v=19$");
    reveal_strlit("m=");
    reveal_strlit(",t=");
    reveal_strlit(",p=");
    reveal_strlit("$");
    assert(decimal(65536) =~= seq!['6', '5', '5', '3', '6']);
    assert(decimal(262144) =~= seq!['2', '6', '2', '1', '4', '4']);
    assert(decimal(131072) =~= seq!['1', '3', '1', '0', '7', '2']);
    assert(decimal(1) =~= seq!['1']);
    assert(decimal(2) =~= seq!['2']);
    assert(decimal(3) =~= seq!['3']);
    assert(decimal(4) =~= seq!['4']);
    assert(phc_prefix(Argon2Variant::Argon2id, Argon2Version::V0x13, 65536, 2, 1)
        =~= "$argon2id$v=19$m=65536,t=2,p=1$"@);
    assert(phc_prefix(Argon2Variant::Argon2id, Argon2Version::V0x13, 262144, 4, 2)
        =~= "$argon2id$v=19$m=262144,t=4,p=2$"@);
    assert(phc_prefix(Argon2Variant::Argon2i, Argon2Version::V0x13, 131072, 3, 1)
        =~= "$argon2i$v=19$m=131072,t=3,p=1$"@);
    assert(phc_prefix(Argon2Variant::Argon2d, Argon2Version::V0x13, 131072, 3, 1)
        =~= "$argon2d$v=19$m=131072,t=3,p=1$"@);
}

/// Argon2id with 64 MiB of memory, 2 passes and 1 lane.
pub struct HasherArgon2idFast;

/// Argon2id with 256 MiB of memory, 4 passes and 2 lanes.
pub struct HasherArgon2idSecure;

/// Argon2i with 128 MiB of memory, 3 passes and 1 lane.
pub struct HasherArgon2i;

/// Argon2d with 128 MiB of memory, 3 passes and 1 lane.
pub struct HasherArgon2d;

impl Hasher for HasherArgon2idFast {
    fn hash(input: &str) -> (r: Result<String, HashError>)
        ensures
            argon2_outcome(Argon2Variant::Argon2id, Argon2Version::V0x13, 65536, 2, 1, r),
    {
        hash_with(Argon2Variant::Argon2id, Argon2Version::V0x13, 64 * 1024, 2, 1, input)
    }
}

impl Hasher for HasherArgon2idSecure {
    fn hash(input: &str) -> (r: Result<String, HashError>)
        ensures
            argon2_outcome(Argon2Variant::Argon2id, Argon2Version::V0x13, 262144, 4, 2, r),
    {
        hash_with(Argon2Variant::Argon2id, Argon2Version::V0x13, 256 * 1024, 4, 2, input)
    }
}

impl Hasher for HasherArgon2i {
    fn hash(input: &str) -> (r: Result<String, HashError>)
        ensures
            argon2_outcome(Argon2Variant::Argon2i, Argon2Version::V0x13, 131072, 3, 1, r),
    {
        hash_with(Argon2Variant::Argon2i, Argon2Version::V0x13, 128 * 1024, 3, 1, input)
    }
}

impl Hasher for HasherArgon2d {
    fn hash(input: &str) -> (r: Result<String, HashError>)
        ensures
            argon2_outcome(Argon2Variant::Argon2d, Argon2Version::V0x13, 131072, 3, 1, r),
    {
        hash_with(Argon2Variant::Argon2d, Argon2Version::V0x13, 128 * 1024, 3, 1, input)
    }
}

} // verus!
