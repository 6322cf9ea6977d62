use redirect_service::errors::DomainError;
use redirect_service::short_key::ShortKey;

#[test]
fn valid_short_key_is_accepted() {
    let result = ShortKey::new("aB3kR9".to_string());
    assert!(result.is_ok());
}

#[test]
fn short_key_longer_than_six_is_accepted() {
    let result = ShortKey::new("aB3kR9XyZ".to_string());
    assert!(result.is_ok());
}

#[test]
fn short_key_under_6_chars_is_rejected() {
    let result = ShortKey::new("abc".to_string());
    assert!(matches!(result, Err(DomainError::InvalidShortKey)));
}

#[test]
fn short_key_of_5_chars_is_rejected() {
    let result = ShortKey::new("abcde".to_string());
    assert!(matches!(result, Err(DomainError::InvalidShortKey)));
}

#[test]
fn empty_short_key_is_rejected() {
    let result = ShortKey::new("".to_string());
    assert!(matches!(result, Err(DomainError::InvalidShortKey)));
}

#[test]
fn short_key_with_special_chars_is_rejected() {
    let result = ShortKey::new("aB3k!9".to_string());
    assert!(matches!(result, Err(DomainError::InvalidShortKey)));
}

#[test]
fn short_key_with_spaces_is_rejected() {
    let result = ShortKey::new("aB3k 9".to_string());
    assert!(matches!(result, Err(DomainError::InvalidShortKey)));
}

#[test]
fn accepted_key_keeps_its_text() {
    let key = ShortKey::new("Zz09aA".to_string()).unwrap();
    assert_eq!(key.as_str(), "Zz09aA");
}

#[test]
fn non_ascii_key_is_rejected() {
    // six characters, but one is a letter outside ASCII
    let result = ShortKey::new("abcdeé".to_string());
    assert!(matches!(result, Err(DomainError::InvalidShortKey)));
    let result = ShortKey::new("abcdé1".to_string());
    assert!(matches!(result, Err(DomainError::InvalidShortKey)));
}

#[test]
fn key_with_punctuation_at_either_end_is_rejected() {
    assert!(matches!(ShortKey::new("-abcdef".to_string()), Err(DomainError::InvalidShortKey)));
    assert!(matches!(ShortKey::new("abcdef_".to_string()), Err(DomainError::InvalidShortKey)));
}

#[test]
fn keys_compare_by_text() {
    let a = ShortKey::new("abc123".to_string()).unwrap();
    let b = ShortKey::new("abc123".to_string()).unwrap();
    let c = ShortKey::new("abc124".to_string()).unwrap();
    assert!(a.same_as(&b));
    assert!(!a.same_as(&c));
    assert_eq!(a.clone(), b);
}
