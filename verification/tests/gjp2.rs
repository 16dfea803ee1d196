use bcrypt::BcryptError;
use gd_account::gjp2::{verdict_from_bcrypt, verify_gjp2, Gjp2, Gjp2Generator, Sha1, SUFFIX};
use gd_account::user::Password;

#[test]
fn suffix_is_the_games() {
    assert_eq!(SUFFIX, "mI29fmAnxgTs");
    assert_eq!(SUFFIX.len(), 12);
}

#[test]
fn digest_is_sha1_of_text_and_suffix() {
    let mut generator = Gjp2Generator::new(Sha1::new());
    assert_eq!(
        generator.digest_of("_deez-nuts"),
        vec![
            206, 44, 229, 228, 73, 171, 211, 102, 59, 116, 101, 161, 124, 54, 43, 162, 163, 244,
            85, 214
        ]
    );
    assert_eq!(
        generator.digest_of(""),
        vec![
            151, 225, 76, 148, 24, 20, 222, 50, 194, 166, 173, 100, 13, 36, 42, 198, 206, 189,
            33, 176
        ]
    );
    assert_eq!(
        generator.digest_of("pässword1"),
        vec![
            160, 126, 105, 102, 149, 71, 71, 17, 129, 243, 179, 88, 59, 66, 60, 159, 203, 220,
            184, 97
        ]
    );
}

#[test]
fn digest_does_not_depend_on_earlier_derivations() {
    let mut used = Gjp2Generator::new(Sha1::new());
    used.digest_of("abcdef");
    used.digest_of("something else");
    let mut fresh = Gjp2Generator::new(Sha1::new());
    let expected = vec![
        81, 6, 49, 214, 162, 69, 186, 217, 86, 80, 0, 168, 54, 58, 34, 142, 35, 209, 14, 243,
    ];
    assert_eq!(used.digest_of("abcdef"), expected);
    assert_eq!(fresh.digest_of("abcdef"), expected);
}

#[test]
fn generated_verifier_accepts_its_password() {
    let mut generator = Gjp2Generator::new(Sha1::new());
    let password = Password::parse("_deez-nuts").unwrap();
    let gjp2 = match generator.generate_gjp2(password) {
        Ok(gjp2) => gjp2,
        Err(_) => panic!("bcrypt failed"),
    };
    assert_eq!(gjp2.as_str().len(), 60);
    assert!(gjp2.as_str().starts_with("$2b$12$"));
    assert!(matches!(verify_gjp2("_deez-nuts", gjp2), Ok(true)));
}

#[test]
fn generated_verifier_refuses_another_password() {
    let mut generator = Gjp2Generator::new(Sha1::new());
    let password = Password::parse("_deez-nuts").unwrap();
    let gjp2 = match generator.generate_gjp2(password) {
        Ok(gjp2) => gjp2,
        Err(_) => panic!("bcrypt failed"),
    };
    assert!(matches!(verify_gjp2("_deez-nutz", gjp2), Ok(false)));
}

#[test]
fn two_derivations_differ_and_both_verify() {
    let mut generator = Gjp2Generator::new(Sha1::new());
    let first = match generator.generate_gjp2(Password::parse("hunter22").unwrap()) {
        Ok(gjp2) => gjp2,
        Err(_) => panic!("bcrypt failed"),
    };
    let second = match generator.generate_gjp2(Password::parse("hunter22").unwrap()) {
        Ok(gjp2) => gjp2,
        Err(_) => panic!("bcrypt failed"),
    };
    assert_ne!(first.as_str(), second.as_str());
    assert!(matches!(verify_gjp2("hunter22", second), Ok(true)));
}

#[test]
fn reused_generator_derives_as_a_fresh_one() {
    let mut generator = Gjp2Generator::new(Sha1::new());
    let first = generator.generate_gjp2(Password::parse("first-password").unwrap());
    assert!(first.is_ok());
    let second = match generator.generate_gjp2(Password::parse("second_password").unwrap()) {
        Ok(gjp2) => gjp2,
        Err(_) => panic!("bcrypt failed"),
    };
    assert!(matches!(verify_gjp2("second_password", second), Ok(true)));
}

#[test]
fn stored_verifier_is_read_back() {
    let stored = "$2b$12$L6Bc/AlTQHyd9liGgGEZyOFLPHNgyxeEPfgYfBCVxJ7JIlwxyVU3u";
    let gjp2 = Gjp2::new(stored);
    assert_eq!(gjp2.as_str(), stored);
}

#[test]
fn unreadable_verifier_is_an_error() {
    assert!(verify_gjp2("_deez-nuts", Gjp2::new("not a verifier")).is_err());
    assert!(verify_gjp2("_deez-nuts", Gjp2::new("")).is_err());
    assert!(verify_gjp2("_deez-nuts", Gjp2::new("$2b$12$tooshort")).is_err());
}

#[test]
fn bcrypt_hash_becomes_the_verifier() {
    let hash = "$2b$12$L6Bc/AlTQHyd9liGgGEZyOFLPHNgyxeEPfgYfBCVxJ7JIlwxyVU3u";
    match Gjp2::from_bcrypt(Ok(hash.to_string())) {
        Ok(gjp2) => assert_eq!(gjp2.as_str(), hash),
        Err(_) => panic!("a hash was refused"),
    }
}

#[test]
fn bcrypt_error_is_handed_on() {
    match Gjp2::from_bcrypt(Err(BcryptError::InvalidSaltLen(3))) {
        Err(error) => assert!(matches!(error.0, BcryptError::InvalidSaltLen(3))),
        Ok(_) => panic!("an error became a verifier"),
    }
    match verdict_from_bcrypt(Err(BcryptError::CostNotAllowed(99))) {
        Err(error) => assert!(matches!(error.0, BcryptError::CostNotAllowed(99))),
        Ok(_) => panic!("an error became an answer"),
    }
}

#[test]
fn bcrypt_answer_is_handed_on() {
    assert!(matches!(verdict_from_bcrypt(Ok(true)), Ok(true)));
    assert!(matches!(verdict_from_bcrypt(Ok(false)), Ok(false)));
}
