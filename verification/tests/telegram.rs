use blather::{Error, Params, Telegram};

#[test]
fn simple() {
    let mut msg = Telegram::new();

    msg.set_topic("SomeTopic").unwrap();
    assert_eq!(msg.get_topic().unwrap(), "SomeTopic");

    msg.add_str("Foo", "bar").unwrap();
    assert_eq!(msg.get_str("Foo").unwrap(), "bar");

    assert_eq!(msg.get_str("Moo"), None);
}

#[test]
fn exist() {
    let mut tg = Telegram::new();

    tg.add_str("foo", "bar").unwrap();
    assert_eq!(tg.have_param("foo"), true);

    assert_eq!(tg.have_param("nonexistent"), false);
}

#[test]
fn telegram_integer() {
    let mut msg = Telegram::new();

    msg.set_topic("SomeTopic").unwrap();
    assert_eq!(msg.get_topic().unwrap(), "SomeTopic");

    msg.add_str("Num", "64").unwrap();
    assert_eq!(msg.get_int::<u16>("Num").unwrap(), 64);
}

#[test]
fn telegram_size() {
    let mut msg = Telegram::new();

    msg.add_param("Num", 7 as usize).unwrap();
    assert_eq!(msg.get_int::<usize>("Num").unwrap(), 7);
}

#[test]
fn telegram_intoparams() {
    let mut msg = Telegram::new();

    msg.add_str("Foo", "bar").unwrap();
    assert_eq!(msg.get_str("Foo").unwrap(), "bar");
    assert_eq!(msg.get_str("Moo"), None);

    let params = msg.into_params();
    let val = params.get_str("Foo");
    assert_eq!(val.unwrap(), "bar");
}

#[test]
fn telegram_display() {
    let mut tg = Telegram::new_topic("hello").unwrap();

    tg.add_param("foo", "bar").unwrap();
    let s = tg.to_string();
    assert_eq!(s, "hello:{foo=bar}");
}

#[test]
fn telegram_ser_size() {
    let mut tg = Telegram::new_topic("hello").unwrap();

    tg.add_str("foo", "bar").unwrap();
    tg.add_str("moo", "cow").unwrap();

    let sz = tg.calc_buf_size();

    assert_eq!(sz, 6 + 8 + 8 + 1);
}

#[test]
fn telegram_def_int() {
    let mut tg = Telegram::new();

    tg.add_str("Num", "11").unwrap();
    assert_eq!(tg.get_int_def::<u16>("Num", 17).unwrap(), 11);

    let num = tg.get_int_def::<u32>("nonexistent", 42).unwrap();

    assert_eq!(num, 42);
}

#[test]
fn bad_topic_leading() {
    let mut tg = Telegram::new();
    assert_eq!(
        tg.set_topic(" SomeTopic"),
        Err(Error::BadFormat(
            "Invalid leading topic character".to_string()
        ))
    );
}

#[test]
fn bad_topic() {
    let mut tg = Telegram::new();
    assert_eq!(
        tg.set_topic("Some Topic"),
        Err(Error::BadFormat("Invalid topic character".to_string()))
    );
}

#[test]
fn refused_topic_keeps_the_old_one() {
    let mut tg = Telegram::new_topic("Hello").unwrap();
    assert!(tg.set_topic("Hell o").is_err());
    assert_eq!(tg.get_topic(), Some("Hello"));
    assert_eq!(tg.set_topic("shoe0n-he_ad"), Ok(()));
    assert_eq!(tg.get_topic(), Some("shoe0n-he_ad"));
    assert!(Telegram::new_topic("0day").is_err());
    assert!(Telegram::new_topic("").is_err());
    assert_eq!(Telegram::new().get_topic(), None);
}

#[test]
fn clear_and_count() {
    let mut tg = Telegram::new_topic("Hello").unwrap();
    assert_eq!(tg.num_params(), 0);
    tg.add_param("cat", "meow").unwrap();
    assert_eq!(tg.num_params(), 1);
    assert_eq!(tg.get_params().len(), 1);
    assert_eq!(tg.get_params_inner().len(), 1);
    tg.get_params_mut().clear();
    assert_eq!(tg.num_params(), 0);
    tg.add_param("cat", "meow").unwrap();
    tg.clear();
    assert_eq!(tg.num_params(), 0);
    assert_eq!(tg.get_topic(), None);
}

#[test]
fn serialize_needs_a_topic() {
    let mut tg = Telegram::new();
    tg.add_str("foo", "bar").unwrap();
    assert_eq!(
        tg.serialize(),
        Err(Error::SerializeError("Missing heading".to_string()))
    );
    assert_eq!(tg.calc_buf_size(), 9);
    let mut buf = bytes::BytesMut::new();
    assert_eq!(
        tg.encoder_write(&mut buf),
        Err(Error::SerializeError("Missing Telegram topic".to_string()))
    );
    assert!(buf.is_empty());
    assert_eq!(tg.to_string(), "<None>:{foo=bar}");
}

#[test]
fn serialize_writes_topic_then_lines() {
    let mut tg = Telegram::new_topic("hello").unwrap();
    tg.add_str("foo", "bar").unwrap();
    tg.add_str("moo", "cow").unwrap();
    assert_eq!(tg.serialize().unwrap(), b"hello\nfoo bar\nmoo cow\n\n".to_vec());
    let mut buf = bytes::BytesMut::new();
    tg.encoder_write(&mut buf).unwrap();
    assert_eq!(&buf[..], b"hello\nfoo bar\nmoo cow\n\n");
    assert_eq!(buf.len(), tg.calc_buf_size());
}

#[test]
fn getters_pass_through() {
    let mut tg = Telegram::new_topic("AddUser").unwrap();
    tg.add_param("Name", "Frank Foobar").unwrap();
    tg.add_param("Age", "42").unwrap();
    tg.add_bool("Agent", true).unwrap();
    tg.add_strit("Cat", &["meow", "paws", "tail"]).unwrap();
    assert_eq!(tg.get_str("Name").unwrap(), "Frank Foobar");
    assert_eq!(tg.get_param::<u8>("Age").unwrap(), 42);
    assert_eq!(tg.get_param_def::<u8>("Height", 180), Ok(180));
    assert_eq!(tg.get_str_def("Job", "none"), "none");
    assert_eq!(tg.get_bool("Agent"), Ok(true));
    assert_eq!(tg.get_bool_def("Double", false), Ok(false));
    assert_eq!(tg.get_str("Cat"), Some("meow,paws,tail"));
    assert_eq!(tg.get_strvec("Cat").unwrap(), vec!["meow", "paws", "tail"]);
    assert_eq!(tg.get_hashset("Cat").unwrap().len(), 3);
    assert_eq!(
        tg.get_int::<u8>("Name"),
        Err(Error::BadFormat(
            "Unable to parse numeric value from parameter 'Name'".to_string()
        ))
    );
}

#[test]
fn conversions() {
    let tg = Telegram::from("any topic".to_string());
    assert_eq!(tg.get_topic(), Some("any topic"));
    assert_eq!(tg.num_params(), 0);
    let mut params = Params::new();
    params.add_str("foo", "bar").unwrap();
    let tg = Telegram::from(params);
    assert_eq!(tg.get_topic(), None);
    assert_eq!(tg.get_str("foo"), Some("bar"));
    let copy = tg.clone();
    assert_eq!(copy.get_str("foo"), Some("bar"));
    assert_eq!(Telegram::default().num_params(), 0);
}
