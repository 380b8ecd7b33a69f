use qwq::commit::{validate_message, CommitError};

#[test]
fn valid_messages() {
    assert!(validate_message("add(qwq): implement commit subcommand").is_ok());
    assert!(validate_message("fix(my-crate): handle empty input").is_ok());
    assert!(validate_message("spec(foundation): add vcs rules").is_ok());
    assert!(validate_message("chore(workspace): update dependencies").is_ok());
}

#[test]
fn invalid_type() {
    assert!(validate_message("init(qwq): first commit").is_err());
}

#[test]
fn trailing_period() {
    assert!(validate_message("add(qwq): implement commit.").is_err());
}

#[test]
fn uppercase_description() {
    assert!(validate_message("add(qwq): Implement commit").is_err());
}

#[test]
fn too_long() {
    let long = format!("add(qwq): {}", "a".repeat(63));
    assert!(validate_message(&long).is_err());
}

#[test]
fn footer_rejected() {
    assert!(validate_message("add(qwq): something\n\nSigned-off-by: someone").is_err());
}

#[test]
fn error_kinds_are_distinguished() {
    assert_eq!(validate_message("nonsense"), Err(CommitError::BadFormat));
    assert_eq!(validate_message(""), Err(CommitError::BadFormat));
    assert_eq!(validate_message("add(Qwq): x"), Err(CommitError::BadFormat));
    assert_eq!(validate_message("add(): x"), Err(CommitError::BadFormat));
    let long = format!("add(qwq): {}", "a".repeat(63));
    assert_eq!(validate_message(&long), Err(CommitError::TooLong));
    assert_eq!(validate_message("add(qwq): x\n\nFixes #12"), Err(CommitError::Footer));
    assert_eq!(validate_message("add(qwq): x\n\nplain body text"), Ok(()));
}

#[test]
fn subject_length_limit_is_in_bytes() {
    let exact = format!("add(qwq): {}", "a".repeat(62));
    assert_eq!(exact.len(), 72);
    assert_eq!(validate_message(&exact), Ok(()));
    let wide = format!("add(qwq): a{}", "é".repeat(32));
    assert_eq!(validate_message(&wide), Err(CommitError::TooLong));
}
