use blather::{Error, Params};

#[test]
fn string() {
    let mut msg = Params::new();

    msg.add_str("Foo", "bar").unwrap();
    assert_eq!(msg.get_str("Foo").unwrap(), "bar");

    assert_eq!(msg.get_str("Moo"), None);
}

#[test]
fn params_exists() {
    let mut params = Params::new();

    params.add_str("foo", "bar").unwrap();
    assert_eq!(params.have("foo"), true);

    assert_eq!(params.have("nonexistent"), false);
}

#[test]
fn params_integer() {
    let mut msg = Params::new();

    msg.add_str("Num", "64").unwrap();
    assert_eq!(msg.get_int::<u16>("Num").unwrap(), 64);
}

#[test]
fn params_size() {
    let mut msg = Params::new();

    msg.add_param("Num", 7 as usize).unwrap();
    assert_eq!(msg.get_int::<usize>("Num").unwrap(), 7);
}

#[test]
fn params_intoparams() {
    let mut msg = Params::new();

    msg.add_str("Foo", "bar").unwrap();
    assert_eq!(msg.get_str("Foo").unwrap(), "bar");
    assert_eq!(msg.get_str("Moo"), None);

    let entries = msg.into_inner();
    let kv = entries.iter().find(|kv| kv.key() == "Foo");
    assert!(kv.is_some());
    if let Some(kv) = kv {
        assert_eq!(kv.value(), "bar");
    }
}

#[test]
fn params_display() {
    let mut params = Params::new();

    params.add_str("foo", "bar").unwrap();
    let s = params.to_string();
    assert_eq!(s, "{foo=bar}");
}

#[test]
fn params_ser_size() {
    let mut params = Params::new();

    params.add_str("foo", "bar").unwrap();
    params.add_str("moo", "cow").unwrap();

    let sz = params.calc_buf_size();

    assert_eq!(sz, 8 + 8 + 1);
}

#[test]
fn params_def_int() {
    let params = Params::new();

    let num = params.get_int_def::<u32>("nonexistent", 42).unwrap();

    assert_eq!(num, 42);
}

#[test]
fn broken_key() {
    let mut param = Params::new();
    assert_eq!(
        param.add_str("hell o", "world"),
        Err(Error::BadFormat("Invalid key character".to_string()))
    );
}

#[test]
fn empty_key() {
    let mut param = Params::new();
    assert_eq!(
        param.add_str("", "world"),
        Err(Error::BadFormat("Empty or broken key".to_string()))
    );
}

#[test]
fn duplicate_key_overwrites_in_place() {
    let mut params = Params::new();
    params.add_str("a", "1").unwrap();
    params.add_str("b", "2").unwrap();
    params.add_str("a", "3").unwrap();
    assert_eq!(params.len(), 2);
    assert_eq!(params.get_str("a"), Some("3"));
    assert_eq!(params.get_str("b"), Some("2"));
    assert_eq!(params.serialize().unwrap(), b"a 3\nb 2\n\n".to_vec());
}

#[test]
fn refused_key_changes_nothing() {
    let mut params = Params::new();
    params.add_str("a", "1").unwrap();
    assert!(params.add_str("b c", "2").is_err());
    assert_eq!(params.len(), 1);
    assert_eq!(params.to_string(), "{a=1}");
}

#[test]
fn key_may_hold_punctuation_and_letters_of_any_script() {
    let mut params = Params::new();
    params.add_str("a.b-c_d!", "1").unwrap();
    params.add_str("k\u{e9}y", "2").unwrap();
    assert_eq!(params.len(), 2);
    assert_eq!(
        params.add_str("tab\there", "x"),
        Err(Error::BadFormat("Invalid key character".to_string()))
    );
}

#[test]
fn set_takes_any_key() {
    let mut params = Params::new();
    params.set("two words", "v");
    assert_eq!(params.get_str("two words"), Some("v"));
    assert!(params.have("two words"));
}

#[test]
fn clear_and_len() {
    let mut params = Params::new();
    assert_eq!(params.len(), 0);
    params.add_str("a", "1").unwrap();
    params.add_str("b", "2").unwrap();
    assert_eq!(params.len(), 2);
    assert_eq!(params.get_inner().len(), 2);
    params.clear();
    assert_eq!(params.len(), 0);
    assert_eq!(params.to_string(), "{}");
}

#[test]
fn display_of_two_entries() {
    let mut params = Params::new();
    params.add_str("foo", "bar").unwrap();
    params.add_str("moo", "cow").unwrap();
    assert_eq!(params.to_string(), "{foo=bar,moo=cow}");
}

#[test]
fn get_str_def_falls_back() {
    let mut params = Params::new();
    params.add_str("a", "1").unwrap();
    assert_eq!(params.get_str_def("a", "x"), "1");
    assert_eq!(params.get_str_def("nonexist", "elena"), "elena");
}

#[test]
fn get_param_reports_missing_and_unparsable() {
    let mut params = Params::new();
    params.add_param("arthur", 42).unwrap();
    params.add_str("word", "fortytwo").unwrap();
    assert_eq!(params.get_param::<u32>("arthur"), Ok(42));
    assert_eq!(
        params.get_param::<u32>("ford"),
        Err(Error::KeyNotFound("ford".to_string()))
    );
    assert_eq!(
        params.get_param::<u32>("word"),
        Err(Error::BadFormat(
            "Unable to parse value from parameter 'word'".to_string()
        ))
    );
    assert_eq!(params.get_param_def::<u32>("nonexist", 11), Ok(11));
    assert_eq!(params.get_param_def::<u32>("arthur", 11), Ok(42));
    assert_eq!(
        params.get_param_def::<u32>("word", 11),
        Err(Error::BadFormat(
            "Unable to parse value from parameter 'word'".to_string()
        ))
    );
}

#[test]
fn get_int_reports_missing_and_unparsable() {
    let mut params = Params::new();
    params.add_str("num", "11").unwrap();
    params.add_str("word", "eleven").unwrap();
    assert_eq!(params.get_int_def::<u32>("num", 5), Ok(11));
    assert_eq!(params.get_int_def::<u32>("nonexistent", 17), Ok(17));
    assert_eq!(
        params.get_int::<u32>("nonexistent"),
        Err(Error::KeyNotFound("nonexistent".to_string()))
    );
    assert_eq!(
        params.get_int::<u32>("word"),
        Err(Error::BadFormat(
            "Unable to parse numeric value from parameter 'word'".to_string()
        ))
    );
    assert_eq!(
        params.get_int_def::<u32>("word", 1),
        Err(Error::BadFormat(
            "Unable to parse numeric value from parameter 'word'".to_string()
        ))
    );
}

#[test]
fn booleans() {
    let mut params = Params::new();
    params.add_bool("should_be_true", true).unwrap();
    params.add_bool("should_be_false", false).unwrap();
    assert_eq!(params.get_str("should_be_true"), Some("True"));
    assert_eq!(params.get_str("should_be_false"), Some("False"));
    assert_eq!(params.get_bool("should_be_true"), Ok(true));
    assert_eq!(params.get_bool("should_be_false"), Ok(false));
    for word in ["y", "YES", "t", "TrUe", "1"] {
        params.add_str("k", word).unwrap();
        assert_eq!(params.get_bool("k"), Ok(true));
    }
    for word in ["n", "No", "F", "FALSE", "0"] {
        params.add_str("k", word).unwrap();
        assert_eq!(params.get_bool("k"), Ok(false));
    }
    params.add_str("k", "maybe").unwrap();
    assert_eq!(
        params.get_bool("k"),
        Err(Error::BadFormat("Unrecognized boolean value".to_string()))
    );
    assert_eq!(
        params.get_bool("missing"),
        Err(Error::KeyNotFound("missing".to_string()))
    );
    assert_eq!(params.get_bool_def("missing", true), Ok(true));
    assert_eq!(params.get_bool_def("should_be_false", true), Ok(false));
    assert_eq!(
        params.get_bool_def("k", true),
        Err(Error::BadFormat("Unrecognized boolean value".to_string()))
    );
}

#[test]
fn serialize_writes_lines_in_order() {
    let mut params = Params::new();
    params.add_str("foo", "bar").unwrap();
    params.add_str("moo", "cow").unwrap();
    assert_eq!(params.serialize().unwrap(), b"foo bar\nmoo cow\n\n".to_vec());
    assert_eq!(Params::new().serialize().unwrap(), b"\n".to_vec());
    assert_eq!(Params::new().calc_buf_size(), 1);
}

#[test]
fn encoder_write_appends() {
    let mut params = Params::new();
    params.add_str("foo", "bar").unwrap();
    let mut buf = bytes::BytesMut::new();
    buf.extend_from_slice(b"xy");
    params.encoder_write(&mut buf).unwrap();
    assert_eq!(&buf[..], b"xyfoo bar\n\n");
}

#[test]
fn clone_keeps_entries() {
    let mut params = Params::new();
    params.add_str("foo", "bar").unwrap();
    let copy = params.clone();
    params.add_str("foo", "baz").unwrap();
    assert_eq!(copy.get_str("foo"), Some("bar"));
    assert_eq!(Params::default().len(), 0);
}
