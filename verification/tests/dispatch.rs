use passivized_htpasswd::crypt_format::{
    BCRYPT_DEFAULT_COST, BCRYPT_MAX_COST, BCRYPT_MIN_COST, SHA512_MAX_ROUNDS, SHA512_MIN_ROUNDS,
};
use passivized_htpasswd::errors::HtpasswdError;
use passivized_htpasswd::hashing::{
    hash_bcrypt, hash_password, hash_sha512, is_printable_ascii, matches_bcrypt,
    matches_sha512_crypt,
};
use passivized_htpasswd::Algo;

const KNOWN_HASH: &str = "$6$G/gkPn17kHYo0gTF$xhDFU0QYExdMH2ghOWKrrVtu1BuTpNMSJURCXk43.EYekmK8iwV6RNqftUUC8mqDel1J7m3JEbUkbu4YyqSyv/";

const KNOWN_HASH_WITH_ROUNDS: &str = "$6$rounds=11531$G/gkPn17kHYo0gTF$Kq.uZBHlSBXyzsOJXtxJruOOH4yc0Is13uY7yK0PvAvXxbvc1w8DO1RzREMhKsc82K/Jh8OquV8FZUlreYPJk1";

#[test]
fn work_factors_are_those_of_the_primitives() {
    assert_eq!(bcrypt::DEFAULT_COST, BCRYPT_DEFAULT_COST);
    assert_eq!(pwhash::bcrypt::MIN_COST, BCRYPT_MIN_COST);
    assert_eq!(pwhash::bcrypt::MAX_COST, BCRYPT_MAX_COST);
    assert_eq!(pwhash::sha512_crypt::MIN_ROUNDS, SHA512_MIN_ROUNDS);
    assert_eq!(pwhash::sha512_crypt::MAX_ROUNDS, SHA512_MAX_ROUNDS);
    assert_eq!(12, BCRYPT_DEFAULT_COST);
    assert_eq!(4, BCRYPT_MIN_COST);
    assert_eq!(31, BCRYPT_MAX_COST);
    assert_eq!(1000, SHA512_MIN_ROUNDS);
    assert_eq!(999_999_999, SHA512_MAX_ROUNDS);
}

#[test]
fn resolve_names_the_work_factor() {
    assert!(matches!(Algo::BCryptDefault.resolve(), Algo::Bcrypt { cost: 12 }));
    assert!(matches!(Algo::BcryptMinCost.resolve(), Algo::Bcrypt { cost: 4 }));
    assert!(matches!(Algo::Sha512MinRounds.resolve(), Algo::Sha512 { rounds: 1000 }));
}

#[test]
fn resolve_keeps_a_resolved_choice() {
    assert!(matches!(Algo::Bcrypt { cost: 7 }.resolve(), Algo::Bcrypt { cost: 7 }));
    assert!(matches!(Algo::Bcrypt { cost: 99 }.resolve(), Algo::Bcrypt { cost: 99 }));
    assert!(matches!(Algo::Sha512 { rounds: 2000 }.resolve(), Algo::Sha512 { rounds: 2000 }));
    assert!(matches!(Algo::Sha512Default.resolve(), Algo::Sha512Default));
}

#[test]
fn hash_password_follows_the_choice() {
    let h = hash_password(Algo::BcryptMinCost, "pw").unwrap();
    assert!(h.starts_with("$2a$04$"));
    assert_eq!(60, h.len());
    assert!(bcrypt::verify("pw", &h).unwrap());

    let h = hash_password(Algo::Bcrypt { cost: 6 }, "pw").unwrap();
    assert!(h.starts_with("$2a$06$"));

    let h = hash_password(Algo::Sha512MinRounds, "pw").unwrap();
    assert!(h.starts_with("$6$rounds=1000$"));
    assert!(pwhash::sha512_crypt::verify("pw", &h));

    let h = hash_password(Algo::Sha512 { rounds: 1001 }, "pw").unwrap();
    assert!(h.starts_with("$6$rounds=1001$"));

    let h = hash_password(Algo::Sha512Default, "pw").unwrap();
    assert!(h.starts_with("$6$"));
    assert!(!h.starts_with("$6$rounds="));
    assert!(pwhash::sha512_crypt::verify("pw", &h));
}

#[test]
fn hash_password_at_default_cost() {
    let h = hash_password(Algo::BCryptDefault, "pw").unwrap();
    assert!(h.starts_with("$2a$12$"));
    assert_eq!(60, h.len());
}

#[test]
fn hash_password_refuses_a_work_factor_out_of_range() {
    assert!(matches!(
        hash_password(Algo::Bcrypt { cost: 3 }, "pw"),
        Err(HtpasswdError::BCrypt(bcrypt::BcryptError::CostNotAllowed(3)))
    ));
    assert!(matches!(
        hash_password(Algo::Bcrypt { cost: 32 }, "pw"),
        Err(HtpasswdError::BCrypt(bcrypt::BcryptError::CostNotAllowed(32)))
    ));
    assert!(matches!(
        hash_password(Algo::Sha512 { rounds: 999 }, "pw"),
        Err(HtpasswdError::PwHash(pwhash::error::Error::InvalidRounds))
    ));
    assert!(matches!(
        hash_password(Algo::Sha512 { rounds: 1_000_000_000 }, "pw"),
        Err(HtpasswdError::PwHash(pwhash::error::Error::InvalidRounds))
    ));
}

#[test]
fn hash_bcrypt_writes_the_cost_in_two_digits() {
    assert!(hash_bcrypt("pw", 4).unwrap().starts_with("$2a$04$"));
    assert!(hash_bcrypt("pw", 9).unwrap().starts_with("$2a$09$"));
    assert!(matches!(hash_bcrypt("pw", 2), Err(HtpasswdError::BCrypt(_))));
}

#[test]
fn hash_sha512_with_and_without_rounds() {
    let with = hash_sha512("pw", Some(1500)).unwrap();
    assert!(with.starts_with("$6$rounds=1500$"));
    assert_eq!(15 + 16 + 1 + 86, with.len());

    let without = hash_sha512("pw", None).unwrap();
    assert!(!without.contains("rounds"));
    assert_eq!(3 + 16 + 1 + 86, without.len());

    assert!(matches!(hash_sha512("pw", Some(10)), Err(HtpasswdError::PwHash(_))));
}

#[test]
fn matches_sha512_crypt_on_known_hashes() {
    assert!(matches_sha512_crypt("test", KNOWN_HASH));
    assert!(!matches_sha512_crypt("tess", KNOWN_HASH));
    assert!(matches_sha512_crypt("test", KNOWN_HASH_WITH_ROUNDS));
    assert!(!matches_sha512_crypt("", KNOWN_HASH_WITH_ROUNDS));
    assert!(!matches_sha512_crypt("test", ""));
    assert!(!matches_sha512_crypt("test", "test"));
    assert!(!matches_sha512_crypt("test", "$6$\n$x"));
    assert!(!matches_sha512_crypt("test", "$6$\u{1f}\u{0}$x"));
}

#[test]
fn matches_sha512_crypt_refuses_what_is_not_printable_ascii() {
    assert!(!matches_sha512_crypt("b", "$6$\u{80}$x"));
    assert!(!matches_sha512_crypt("b", "$6$\u{80}"));
    assert!(!matches_sha512_crypt("b", "$6$\u{7f}$x"));
    assert!(!matches_sha512_crypt("b", "$6$\u{e9}$x"));
    assert!(!matches_sha512_crypt("b", "$6$rounds=1000$\u{80}\u{80}$x"));
}

#[test]
fn printable_ascii_is_told_apart() {
    assert!(is_printable_ascii(""));
    assert!(is_printable_ascii(" "));
    assert!(is_printable_ascii("~"));
    assert!(is_printable_ascii("$6$ab c~./09AZaz"));
    assert!(!is_printable_ascii("ab\ncd"));
    assert!(!is_printable_ascii("\u{1f}"));
    assert!(!is_printable_ascii("abc\u{0}"));
    assert!(!is_printable_ascii("\u{7f}"));
    assert!(!is_printable_ascii("$6$\u{80}"));
    assert!(!is_printable_ascii("caf\u{e9}"));
}

#[test]
fn matches_bcrypt_on_known_hashes() {
    let two_a = "$2a$04$UuTkLRZZ6QofpDOlMz32MuuxEHA43WOemOYHPz6.SjsVsyO1tDU96";
    assert!(matches_bcrypt("password", two_a));
    assert!(!matches_bcrypt("passwore", two_a));
    assert!(!matches_bcrypt("", two_a));

    let two_b = "$2b$04$EGdrhbKUv8Oc9vGiXX0HQOxSg445d458Muh7DAHskb6QbtCvdxcie";
    assert!(matches_bcrypt("correctbatteryhorsestapler", two_b));
    assert!(!matches_bcrypt("wrong", two_b));
}

#[test]
fn matches_bcrypt_refuses_what_it_cannot_read() {
    assert!(!matches_bcrypt("password", ""));
    assert!(!matches_bcrypt("password", "password"));
    assert!(!matches_bcrypt("password", "$6$G/gkPn17kHYo0gTF$x"));
    assert!(!matches_bcrypt(
        "password",
        "$2a$03$UuTkLRZZ6QofpDOlMz32MuuxEHA43WOemOYHPz6.SjsVsyO1tDU96"
    ));
    assert!(!matches_bcrypt(
        "password",
        "$2a$04$UuTkLRZZ6QofpDOlMz32MuuxEHA43WOemOYHPz6.SjsVsyO1tDU\u{e9}"
    ));
}

#[test]
fn a_bcrypt_hash_is_a_hash_of_its_password() {
    let h = hash_bcrypt("pw", 4).unwrap();
    assert!(matches_bcrypt("pw", &h));
    assert!(!matches_bcrypt("", &h));
    assert!(!matches_bcrypt("pW", &h));

    let h = hash_password(Algo::BcryptMinCost, "another").unwrap();
    assert!(matches_bcrypt("another", &h));
    assert!(!matches_bcrypt("pw", &h));
}
