use std::collections::HashSet;

use blather::Params;

#[test]
fn strvec_empty() {
    let mut params = Params::new();
    params.add_str("hello", "").unwrap();

    let sv = params.get_strvec("hello").unwrap();
    assert_eq!(sv.len(), 0);
}

#[test]
fn strvec_single() {
    let mut params = Params::new();
    params.add_str("hello", "foo").unwrap();

    let sv = params.get_strvec("hello").unwrap();
    assert_eq!(sv.len(), 1);
    assert_eq!(sv[0], "foo");
}

#[test]
fn strvec_two() {
    let mut params = Params::new();
    params.add_str("hello", "foo,bar").unwrap();

    let sv = params.get_strvec("hello").unwrap();
    assert_eq!(sv.len(), 2);
    assert_eq!(sv[0], "foo");
    assert_eq!(sv[1], "bar");
}

#[test]
fn strvec_single_add() {
    let mut params = Params::new();

    let mut sv = Vec::new();
    sv.push("foo");
    params.add_strit("hello", &sv).unwrap();

    assert_eq!(params.get_str("hello"), Some("foo"));

    let sv = params.get_strvec("hello").unwrap();
    assert_eq!(sv.len(), 1);
    assert_eq!(sv[0], "foo");
}

#[test]
fn strvec_two_add() {
    let mut params = Params::new();

    let mut sv = Vec::new();
    sv.push("foo");
    sv.push("bar");
    params.add_strit("hello", &sv).unwrap();

    assert_eq!(params.get_str("hello"), Some("foo,bar"));

    let sv = params.get_strvec("hello").unwrap();
    assert_eq!(sv.len(), 2);
    assert_eq!(sv[0], "foo");
    assert_eq!(sv[1], "bar");
}

#[test]
fn slice_two_add() {
    let mut params = Params::new();

    let slice = &["foo", "bar"];
    params.add_strit("hello", slice).unwrap();

    assert_eq!(params.get_str("hello"), Some("foo,bar"));

    let sv = params.get_strvec("hello").unwrap();
    assert_eq!(sv.len(), 2);
    assert_eq!(sv[0], "foo");
    assert_eq!(sv[1], "bar");
}

#[test]
fn add_hashset() {
    let mut params = Params::new();

    let mut hs = HashSet::new();
    hs.insert("foo");
    hs.insert("bar");

    params.add_strit("hello", hs).unwrap();

    let sv = params.get_strvec("hello").unwrap();
    assert_eq!(sv.len(), 2);

    if sv[0] == "foo" {
        assert_eq!(sv[1], "bar");
    } else {
        assert_eq!(sv[0], "bar");
        assert_eq!(sv[1], "foo");
    }
}

#[test]
fn strvec_skips_empty_pieces() {
    let mut params = Params::new();
    params.add_str("csv", ",elena,,chloe,drake,").unwrap();
    let sv = params.get_strvec("csv").unwrap();
    assert_eq!(sv, vec!["elena", "chloe", "drake"]);
    assert_eq!(params.get_strvec("missing").unwrap().len(), 0);
}

#[test]
fn add_joined_writes_commas() {
    let mut params = Params::new();
    let items = vec!["meow".to_string(), "paws".to_string(), "tail".to_string()];
    params.add_joined("Cat", &items).unwrap();
    assert_eq!(params.get_str("Cat"), Some("meow,paws,tail"));
    params.add_joined("None", &Vec::new()).unwrap();
    assert_eq!(params.get_str("None"), Some(""));
    assert!(params.add_joined("", &items).is_err());
}

#[test]
fn hashset_holds_each_piece_once() {
    let mut params = Params::new();
    params.add_str("set", "elena,chloe,elena,").unwrap();
    let set = params.get_hashset("set").unwrap();
    assert_eq!(set.len(), 2);
    assert_eq!(set.contains("elena"), true);
    assert_eq!(set.contains("chloe"), true);
    assert_eq!(set.contains("drake"), false);
    assert_eq!(params.get_hashset("missing").unwrap().len(), 0);
}
