use stackpedia::auth::{
    format_recovery_code, generate_recovery_code, hash_recovery_code, match_recovery_code,
    nickname_available, normalize_nickname, normalize_recovery_code, require_user,
    verify_recovery_code,
};

#[test]
fn nickname_is_trimmed() {
    assert_eq!(normalize_nickname("  marcelo \n").ok().unwrap(), "marcelo");
}

#[test]
fn nickname_length_rules() {
    let e = normalize_nickname("   ").err().unwrap();
    assert_eq!(e.status, 400);
    assert_eq!(e.body.error, "nickname must be 1-30 chars");
    assert!(normalize_nickname(&"n".repeat(30)).is_ok());
    assert!(normalize_nickname(&"n".repeat(31)).is_err());
    // Eleven three-byte characters are 33 bytes.
    assert!(normalize_nickname(&"€".repeat(11)).is_err());
    assert!(normalize_nickname(&"€".repeat(10)).is_ok());
}

#[test]
fn taken_nickname_conflicts() {
    assert!(nickname_available(false).is_ok());
    let e = nickname_available(true).err().unwrap();
    assert_eq!(e.status, 409);
    assert_eq!(e.body.error, "nickname already taken");
}

#[test]
fn recovery_code_format() {
    assert_eq!(format_recovery_code(7, 1234), "STACK-0007-1234");
    assert_eq!(format_recovery_code(0, 9999), "STACK-0000-9999");
}

#[test]
fn generated_recovery_code_has_the_form() {
    let code = generate_recovery_code();
    assert_eq!(code.len(), 15);
    assert!(code.starts_with("STACK-"));
    assert_eq!(&code[10..11], "-");
    assert!(code[6..10].chars().all(|c| c.is_ascii_digit()));
    assert!(code[11..15].chars().all(|c| c.is_ascii_digit()));
}

#[test]
fn hashed_code_verifies_and_others_do_not() {
    let hash = hash_recovery_code("STACK-0001-0002").unwrap();
    assert_ne!(hash, "STACK-0001-0002");
    assert!(hash.starts_with("$argon2"));
    assert!(verify_recovery_code("STACK-0001-0002", &hash));
    assert!(!verify_recovery_code("STACK-0001-0003", &hash));
    assert!(!verify_recovery_code("STACK-0001-0002", "not a hash"));
}

#[test]
fn recovery_finds_the_first_matching_account() {
    let a = hash_recovery_code("STACK-1111-1111").unwrap();
    let b = hash_recovery_code("STACK-2222-2222").unwrap();
    let hashes = vec![a.clone(), b.clone(), b.clone()];
    assert_eq!(match_recovery_code("STACK-2222-2222", &hashes).ok(), Some(1));
    assert_eq!(match_recovery_code("STACK-1111-1111", &hashes).ok(), Some(0));
    let e = match_recovery_code("STACK-3333-3333", &hashes).err().unwrap();
    assert_eq!(e.status, 401);
    assert_eq!(e.body.error, "invalid recovery code");
    assert!(match_recovery_code("STACK-1111-1111", &vec![]).is_err());
}

#[test]
fn recovery_code_is_required() {
    assert_eq!(normalize_recovery_code(" STACK-1-2 ").ok().unwrap(), "STACK-1-2");
    let e = normalize_recovery_code(" \t ").err().unwrap();
    assert_eq!(e.status, 400);
    assert_eq!(e.body.error, "recovery_code is required");
}

#[test]
fn missing_user_is_unauthorized() {
    assert_eq!(require_user(Some(5)).ok(), Some(5));
    let e = require_user::<u8>(None).err().unwrap();
    assert_eq!(e.status, 401);
    assert_eq!(e.body.error, "user not found");
}

#[test]
fn issued_code_recovers_its_account() {
    let code = generate_recovery_code();
    let typed = normalize_recovery_code(&code).unwrap();
    assert_eq!(typed, code);
    let other = hash_recovery_code("STACK-9999-9999").unwrap();
    let mine = hash_recovery_code(&code).unwrap();
    let hashes = vec![other, mine];
    let found = match_recovery_code(&typed, &hashes).ok().unwrap();
    assert!(found <= 1);
    assert!(verify_recovery_code(&typed, &hashes[found]));
}

#[test]
fn text_that_is_not_a_phc_string_never_verifies() {
    let hash = hash_recovery_code("STACK-0005-0006").unwrap();
    assert!(hash.starts_with('$'));
    assert!(!verify_recovery_code("STACK-0005-0006", ""));
    assert!(!verify_recovery_code("STACK-0005-0006", &hash[1..]));
    assert!(!verify_recovery_code("", "argon2id"));
}

#[test]
fn malformed_phc_strings_never_verify() {
    assert!(!verify_recovery_code("STACK-0005-0006", "$"));
    assert!(!verify_recovery_code("STACK-0005-0006", "$argon2id$v=19$m=bad$salt$hash"));
    assert!(!verify_recovery_code("STACK-0005-0006", "$argon2id$$$$$$"));
}
