//! The validated field types and the credential checks.

use intake::config::Config;
use intake::errors::{BaseError, ErrorKind};
use intake::auth_service::{AuthService, CreateInputData};
use intake::store::Store;
use intake::types::{validate_date_not_past, Name, Passport, Phone, Region};

#[test]
fn cyrillic_names_pass_latin_names_fail() {
    let ok = Name::parse("Іван").unwrap();
    assert_eq!(ok.0, "Іван");
    assert!(Name::parse("Марія-Олена").is_ok());
    assert!(Name::parse("John").is_err());
    assert!(Name::parse("І").is_err()); // a single letter is too short
    assert!(Name::parse("").is_err());
    assert!(Name::parse("Іван7").is_err());
}

#[test]
fn passport_accepts_two_letters_six_digits_or_nine_digits() {
    assert!(Passport::parse("АБ123456").is_ok());
    assert!(Passport::parse("123456789").is_ok());
    assert!(Passport::parse("AB123456").is_err()); // Latin letters
    assert!(Passport::parse("АБ12345").is_err()); // five digits
    assert!(Passport::parse("12345678").is_err()); // eight digits
    assert!(Passport::parse("").is_err());
}

#[test]
fn phone_accepts_ten_digits_with_optional_prefix() {
    assert!(Phone::parse("0671234567").is_ok());
    assert!(Phone::parse("+380671234567").is_ok());
    assert!(Phone::parse("067123456").is_err()); // nine digits
    assert!(Phone::parse("+390671234567").is_err()); // wrong prefix
    assert!(Phone::parse("067123456a").is_err());
}

#[test]
fn region_list_is_closed() {
    assert_eq!(Region::parse("Київська").unwrap().0, "Київська");
    assert!(Region::parse("Львівська").is_ok());
    assert!(Region::parse("АР Крим").is_ok());
    let e = Region::parse("Аркхем").unwrap_err();
    assert_eq!(e, "Region is not valid");
    assert!(Region::parse("київська").is_err()); // case matters
    assert!(Region::parse("").is_err());
}

#[test]
fn signup_rejects_bad_email_and_short_password() {
    let config = Config { jwt_secret_key: "unit-test-signing-secret".to_string() };
    let service = AuthService::new(&config);
    let mut store = Store::new();
    let e = service
        .create(
            &mut store,
            CreateInputData {
                email: "not-an-email".to_string(),
                password: "longenough".to_string(),
            },
            "argon2id".to_string(),
            "hash-1".to_string(),
            1_700_000_000,
        )
        .unwrap_err();
    assert_eq!(e.kind, ErrorKind::ValidationFailure);
    let e = service
        .create(
            &mut store,
            CreateInputData {
                email: "admin@example.com".to_string(),
                password: "short".to_string(),
            },
            "argon2id".to_string(),
            "hash-1".to_string(),
            1_700_000_000,
        )
        .unwrap_err();
    assert_eq!(e.kind, ErrorKind::ValidationFailure);
    let fields = e.fields.unwrap();
    assert_eq!(fields.len(), 1);
    assert_eq!(fields[0].field, "password");
    assert!(service
        .create(
            &mut store,
            CreateInputData {
                email: "admin@example.com".to_string(),
                password: "longenough".to_string(),
            },
            "argon2id".to_string(),
            "hash-1".to_string(),
            1_700_000_000,
        )
        .is_ok());
}

#[test]
fn duplicate_email_is_a_conflict_case_insensitively() {
    let config = Config { jwt_secret_key: "unit-test-signing-secret".to_string() };
    let service = AuthService::new(&config);
    let mut store = Store::new();
    service
        .create(
            &mut store,
            CreateInputData {
                email: "Admin@Example.com".to_string(),
                password: "longenough".to_string(),
            },
            "argon2id".to_string(),
            "hash-1".to_string(),
            1_700_000_000,
        )
        .unwrap();
    let e = service
        .create(
            &mut store,
            CreateInputData {
                email: "admin@example.COM".to_string(),
                password: "otherpass".to_string(),
            },
            "argon2id".to_string(),
            "hash-2".to_string(),
            1_700_000_100,
        )
        .unwrap_err();
    assert_eq!(e.kind, ErrorKind::Conflict);
    assert_eq!(e.message, "The email already using");
}

#[test]
fn error_constructors_carry_their_kind() {
    let e = BaseError::new("backing store went away".to_string());
    assert_eq!(e.kind, ErrorKind::StoreFailure);
    assert_eq!(e.message, "backing store went away");
    assert!(e.fields.is_none());
    let e = BaseError::forbidden();
    assert_eq!(e.kind, ErrorKind::Forbidden);
    assert_eq!(e.message, "Forbidden");
}

#[test]
fn past_dates_are_rejected() {
    assert!(validate_date_not_past(100, 100));
    assert!(validate_date_not_past(101, 100));
    assert!(!validate_date_not_past(99, 100));
}
