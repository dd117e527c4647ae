use blather::types::validators::{validate_param_key, validate_topic};
use blather::Error;

#[test]
fn ok_topic_1() {
    assert!(validate_topic("Foobar").is_ok());
}

#[test]
fn empty_topic() {
    assert_eq!(
        validate_topic(""),
        Err(Error::BadFormat("Empty or broken topic".to_string()))
    );
}

#[test]
fn broken_topic_1() {
    assert_eq!(
        validate_topic("foo bar"),
        Err(Error::BadFormat("Invalid topic character".to_string()))
    );
}

#[test]
fn broken_topic_2() {
    assert_eq!(
        validate_topic(" foobar"),
        Err(Error::BadFormat("Invalid leading topic character".to_string()))
    );
}

#[test]
fn topic_with_dash_underscore_and_digits() {
    assert_eq!(validate_topic("a-b_c9"), Ok(()));
    assert_eq!(validate_topic("\u{e9}t\u{e9}"), Ok(()));
    assert_eq!(
        validate_topic("9lives"),
        Err(Error::BadFormat("Invalid leading topic character".to_string()))
    );
    assert_eq!(
        validate_topic("a.b"),
        Err(Error::BadFormat("Invalid topic character".to_string()))
    );
}

#[test]
fn key_rules() {
    assert_eq!(validate_param_key("len"), Ok(()));
    assert_eq!(validate_param_key("a/b:c~"), Ok(()));
    assert_eq!(
        validate_param_key(""),
        Err(Error::BadFormat("Empty or broken key".to_string()))
    );
    assert_eq!(
        validate_param_key(" x"),
        Err(Error::BadFormat("Invalid key character".to_string()))
    );
    assert_eq!(
        validate_param_key("x y"),
        Err(Error::BadFormat("Invalid key character".to_string()))
    );
}

#[test]
fn error_lines() {
    assert_eq!(
        Error::KeyNotFound("ford".to_string()).to_string(),
        "Parameter 'ford' not found"
    );
    assert_eq!(Error::BadFormat("x".to_string()).to_string(), "Bad format; x");
    assert_eq!(
        Error::SerializeError("x".to_string()).to_string(),
        "Unable to serialize; x"
    );
    assert_eq!(Error::IO("x".to_string()).to_string(), "I/O error; x");
    assert_eq!(
        Error::BadState("x".to_string()).to_string(),
        "Encountred an unexpected/bad state: x"
    );
    assert_eq!(Error::InvalidSize("x".to_string()).to_string(), "Invalid size; x");
}
