use hashbench::error::HashError;
use hashbench::hashers::argon2::{
    generate_salt, hash_with, Argon2Variant, Argon2Version, HasherArgon2idFast,
};
use hashbench::hashers::bcrypt::{hash_with_cost, HasherBcrypt10};
use hashbench::hashers::{Hasher, Preset};

#[test]
fn bcrypt_hash_has_the_shape_of_its_work_factor() {
    let hash = Preset::Bcrypt10.hash("examplestringForHash12312033$$$").expect("bcrypt hashes");
    assert_eq!(hash.chars().count(), 60);
    assert!(hash.starts_with("$2b$10$"));
    assert_ne!(hash, "examplestringForHash12312033$$$");
}

#[test]
fn bcrypt_hasher_agrees_with_its_preset() {
    let hash = HasherBcrypt10::hash("secret").expect("bcrypt hashes");
    assert_eq!(hash.len(), 60);
    assert!(hash.starts_with("$2b$10$"));
}

#[test]
fn bcrypt_work_factor_is_written_in_two_digits() {
    let hash = hash_with_cost("secret", 4).expect("the least work factor");
    assert_eq!(hash.len(), 60);
    assert!(hash.starts_with("$2b$04$"));
}

#[test]
fn bcrypt_refuses_a_work_factor_out_of_range() {
    for cost in [0u32, 3, 32, 1000] {
        match hash_with_cost("secret", cost) {
            Err(HashError::Bcrypt(detail)) => {
                assert_eq!(detail, format!("Cost needs to be between 4 and 31, got {}", cost));
            }
            other => panic!("expected a refusal, got {:?}", other),
        }
    }
}

#[test]
fn bcrypt_salts_differ() {
    let first = hash_with_cost("secret", 4).expect("bcrypt hashes");
    let second = hash_with_cost("secret", 4).expect("bcrypt hashes");
    assert_ne!(first, second);
}

#[test]
fn argon2_hash_begins_with_variant_and_version() {
    let hash = Preset::Argon2idFast.hash("examplestringForHash12312033$$$").expect("argon2 hashes");
    assert!(hash.starts_with("$argon2id$v=19$"));
    assert!(hash.starts_with("$argon2id$v=19$m=65536,t=2,p=1$"));
    assert_ne!(hash, "examplestringForHash12312033$$$");
}

#[test]
fn argon2_hasher_agrees_with_its_preset() {
    let hash = HasherArgon2idFast::hash("secret").expect("argon2 hashes");
    assert!(hash.starts_with("$argon2id$v=19$m=65536,t=2,p=1$"));
}

#[test]
fn argon2_variants_and_versions_are_told_apart() {
    let d = hash_with(Argon2Variant::Argon2d, Argon2Version::V0x13, 8, 1, 1, "secret")
        .expect("argon2 hashes");
    assert!(d.starts_with("$argon2d$v=19$m=8,t=1,p=1$"));
    let i = hash_with(Argon2Variant::Argon2i, Argon2Version::V0x10, 16, 2, 2, "secret")
        .expect("argon2 hashes");
    assert!(i.starts_with("$argon2i$v=16$m=16,t=2,p=2$"));
    let id = hash_with(Argon2Variant::Argon2id, Argon2Version::V0x13, 32, 3, 4, "secret")
        .expect("argon2 hashes");
    assert!(id.starts_with("$argon2id$v=19$m=32,t=3,p=4$"));
}

#[test]
fn argon2_salts_differ() {
    let first = hash_with(Argon2Variant::Argon2id, Argon2Version::V0x13, 8, 1, 1, "secret")
        .expect("argon2 hashes");
    let second = hash_with(Argon2Variant::Argon2id, Argon2Version::V0x13, 8, 1, 1, "secret")
        .expect("argon2 hashes");
    assert_ne!(first, second);
}

#[test]
fn argon2_refuses_bad_cost_parameters() {
    let cases: Vec<(u32, u32, u32, &str)> = vec![
        (7, 1, 1, "memory cost is too small"),
        (8, 1, 2, "memory cost is too small"),
        (15, 1, 2, "memory cost is too small"),
        (8, 0, 1, "time cost is too small"),
        (8, 1, 0, "not enough threads"),
        (u32::MAX, 1, 0x100_0000, "too many threads"),
    ];
    for (m_cost, t_cost, p_cost, text) in cases {
        match hash_with(Argon2Variant::Argon2id, Argon2Version::V0x13, m_cost, t_cost, p_cost, "secret") {
            Err(HashError::InvalidParams(detail)) => assert_eq!(detail, text),
            other => panic!("expected a refusal, got {:?}", other),
        }
    }
}

#[test]
fn argon2_accepts_the_least_cost_parameters() {
    assert!(hash_with(Argon2Variant::Argon2id, Argon2Version::V0x13, 8, 1, 1, "secret").is_ok());
    assert!(hash_with(Argon2Variant::Argon2id, Argon2Version::V0x13, 16, 1, 2, "secret").is_ok());
}

#[test]
fn generated_salts_are_fresh() {
    let first = generate_salt().expect("the random source answers");
    let second = generate_salt().expect("the random source answers");
    assert_eq!(first.as_str().len(), 22);
    assert_ne!(first.as_str(), second.as_str());
}

#[test]
fn every_bcrypt_preset_names_its_work_factor() {
    let hash = Preset::Bcrypt12.hash("secret").expect("bcrypt hashes");
    assert!(hash.starts_with("$2b$12$"));
}

#[test]
fn salt_step_failure_becomes_a_salt_failure_with_its_text() {
    let failed = hashbench::hashers::argon2::or_salt_failure::<u8>(Err("no entropy".to_string()));
    assert!(matches!(failed, Err(HashError::Salt(ref detail)) if detail == "no entropy"));
    assert_eq!(
        HashError::Salt("no entropy".to_string()).message(),
        "Salt error: no entropy"
    );
}

#[test]
fn salt_step_success_is_handed_on() {
    let kept = hashbench::hashers::argon2::or_salt_failure(Ok::<u8, String>(7));
    assert!(matches!(kept, Ok(7)));
    let unit = hashbench::hashers::argon2::or_salt_failure(Ok::<(), String>(()));
    assert!(unit.is_ok());
}

#[test]
fn argon2_hash_shows_the_cost_parameters_that_were_asked_for() {
    let cases: Vec<(u32, u32, u32, &str)> = vec![
        (8, 1, 1, "$argon2id$v=19$m=8,t=1,p=1$"),
        (9, 10, 1, "$argon2id$v=19$m=9,t=10,p=1$"),
        (100, 2, 3, "$argon2id$v=19$m=100,t=2,p=3$"),
        (1024, 1, 16, "$argon2id$v=19$m=1024,t=1,p=16$"),
    ];
    for (m_cost, t_cost, p_cost, prefix) in cases {
        let hash = hash_with(Argon2Variant::Argon2id, Argon2Version::V0x13, m_cost, t_cost, p_cost, "secret")
            .expect("argon2 hashes");
        assert!(hash.starts_with(prefix), "{} for {}", hash, prefix);
        let rest = &hash[prefix.len()..];
        assert_eq!(rest.split('$').count(), 2);
    }
}
