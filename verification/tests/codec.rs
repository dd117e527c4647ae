use std::path::PathBuf;
use std::sync::{Arc, Mutex};

use blather::codec::{BoxedSink, Codec, CodecState, Input, Sink};
use blather::{Error, KVLines, Params, Telegram};
use bytes::{Bytes, BytesMut};

/// A sink that keeps what it is given where the test can see it.
struct Shared(Arc<Mutex<Vec<u8>>>);

impl Sink for Shared {
    fn write_all(&mut self, data: &[u8]) -> Result<(), Error> {
        self.0.lock().unwrap().extend_from_slice(data);
        Ok(())
    }
}

/// A sink that takes a number of writes and then fails.
struct Failing(usize);

impl Sink for Failing {
    fn write_all(&mut self, _data: &[u8]) -> Result<(), Error> {
        if self.0 == 0 {
            return Err(Error::IO("disk full".to_string()));
        }
        self.0 -= 1;
        Ok(())
    }
}

fn telegram_of(input: Option<Input>) -> Telegram {
    match input {
        Some(Input::Telegram(tg)) => tg,
        _ => panic!("Not a Telegram"),
    }
}

fn params_of(input: Option<Input>) -> Params {
    match input {
        Some(Input::Params(params)) => params,
        _ => panic!("Not a Params"),
    }
}

fn kvlines_of(input: Option<Input>) -> KVLines {
    match input {
        Some(Input::KVLines(kvlines)) => kvlines,
        _ => panic!("Not a KVLines"),
    }
}

fn pairs(kvlines: &KVLines) -> Vec<(String, String)> {
    kvlines
        .get_inner()
        .iter()
        .map(|kv| (kv.key().to_string(), kv.value().to_string()))
        .collect()
}

#[test]
fn tg_followed_by_buf() {
    let mut codec = Codec::new();
    let mut buf = BytesMut::from(&b"hello\nlen 4\n\n1234"[..]);

    let tg = telegram_of(codec.decode(&mut buf).unwrap());
    assert_eq!(tg.get_topic(), Some("hello"));
    assert_eq!(tg.get_int::<usize>("len").unwrap(), 4);
    assert_eq!(&buf[..], b"1234");
    codec.expect_bytesmut(4).unwrap();

    match codec.decode(&mut buf).unwrap() {
        Some(Input::BytesMut(bm)) => assert_eq!(&bm[..], b"1234"),
        _ => panic!("Not a Buf"),
    }
    assert!(buf.is_empty());
    assert_eq!(codec.state(), CodecState::Telegram);
    assert!(codec.decode(&mut buf).unwrap().is_none());
}

#[test]
fn params_frame_then_back_to_telegram() {
    let mut codec = Codec::new();
    codec.expect_params();
    assert_eq!(codec.state(), CodecState::Params);
    let mut buf = BytesMut::from(&b"foo bar\nmoo cow\n\n"[..]);
    let params = params_of(codec.decode(&mut buf).unwrap());
    assert_eq!(params.len(), 2);
    assert_eq!(params.get_str("foo"), Some("bar"));
    assert_eq!(params.get_str("moo"), Some("cow"));
    assert_eq!(codec.state(), CodecState::Telegram);
    assert!(buf.is_empty());
}

#[test]
fn kvlines_frame_keeps_repeated_keys() {
    let mut codec = Codec::new();
    codec.expect_kvlines();
    let mut buf = BytesMut::from(&b"a 1\na 2\n\n"[..]);
    let kvlines = kvlines_of(codec.decode(&mut buf).unwrap());
    assert_eq!(
        pairs(&kvlines),
        vec![
            ("a".to_string(), "1".to_string()),
            ("a".to_string(), "2".to_string())
        ]
    );
    assert_eq!(codec.state(), CodecState::Telegram);
}

#[test]
fn params_frame_overwrites_repeated_keys() {
    let mut codec = Codec::new();
    codec.expect_params();
    let mut buf = BytesMut::from(&b"a 1\na 2\n\n"[..]);
    let params = params_of(codec.decode(&mut buf).unwrap());
    assert_eq!(params.len(), 1);
    assert_eq!(params.get_str("a"), Some("2"));
}

#[test]
fn zero_size_is_refused_and_changes_nothing() {
    let mut codec = Codec::new();
    codec.expect_params();
    let zero = Err(Error::InvalidSize("The size must not be zero".to_string()));
    assert_eq!(codec.expect_bytes(0), zero);
    assert_eq!(codec.state(), CodecState::Params);
    assert_eq!(codec.expect_bytesmut(0), zero);
    assert_eq!(codec.expect_chunks(0), zero);
    assert_eq!(codec.skip(0), zero);
    assert_eq!(codec.expect_writer(BoxedSink::new(Vec::new()), 0), zero);
    assert_eq!(
        codec.expect_file(PathBuf::from("unused"), BoxedSink::new(Vec::new()), 0),
        zero
    );
    assert_eq!(codec.state(), CodecState::Params);
    assert_eq!(codec.remaining(), 0);
}

#[test]
fn a_frame_byte_by_byte_is_the_frame_at_once() {
    let wire = b"hello\r\nlen 4\nname Frank Foobar\n\nnext";
    let mut at_once = Codec::new();
    let mut all = BytesMut::from(&wire[..]);
    let whole = telegram_of(at_once.decode(&mut all).unwrap());

    let mut codec = Codec::new();
    let mut buf = BytesMut::new();
    let mut got = None;
    for (i, byte) in wire.iter().enumerate() {
        buf.extend_from_slice(&[*byte]);
        assert!(codec.searched() <= buf.len());
        match codec.decode(&mut buf).unwrap() {
            Some(input) => {
                assert_eq!(i, 31);
                got = Some(telegram_of(Some(input)));
                break;
            }
            None => assert_eq!(codec.searched(), buf.len()),
        }
    }
    let tg = got.unwrap();
    assert_eq!(tg.to_string(), whole.to_string());
    assert_eq!(tg.to_string(), "hello:{len=4,name=Frank Foobar}");
    assert!(buf.is_empty());
    assert_eq!(&all[..], b"next");
}

#[test]
fn every_split_in_two_gives_the_same_telegram() {
    let wire = b"topic\nk v\nk2 v 2\n\n";
    for cut in 0..=wire.len() {
        let mut codec = Codec::new();
        let mut buf = BytesMut::from(&wire[..cut]);
        let first = codec.decode(&mut buf).unwrap();
        let tg = if cut == wire.len() {
            telegram_of(first)
        } else {
            assert!(first.is_none());
            buf.extend_from_slice(&wire[cut..]);
            telegram_of(codec.decode(&mut buf).unwrap())
        };
        assert_eq!(tg.to_string(), "topic:{k=v,k2=v 2}");
    }
}

#[test]
fn two_frames_in_one_buffer_come_one_by_one() {
    let mut codec = Codec::new();
    let mut buf = BytesMut::from(&b"one\n\ntwo\na b\n\n"[..]);
    let tg = telegram_of(codec.decode(&mut buf).unwrap());
    assert_eq!(tg.get_topic(), Some("one"));
    assert_eq!(&buf[..], b"two\na b\n\n");
    let tg = telegram_of(codec.decode(&mut buf).unwrap());
    assert_eq!(tg.get_topic(), Some("two"));
    assert_eq!(tg.get_str("a"), Some("b"));
    assert!(codec.decode(&mut buf).unwrap().is_none());
}

#[test]
fn line_without_space_is_passed_over() {
    let mut codec = Codec::new();
    let mut buf = BytesMut::from(&b"topic\nnospace\nk v\n\n"[..]);
    let tg = telegram_of(codec.decode(&mut buf).unwrap());
    assert_eq!(tg.num_params(), 1);
    assert_eq!(tg.get_str("k"), Some("v"));
}

#[test]
fn value_keeps_its_spaces_and_may_be_empty() {
    let mut codec = Codec::new();
    let mut buf = BytesMut::from(&b"topic\nk  two  spaces \ne \n\n"[..]);
    let tg = telegram_of(codec.decode(&mut buf).unwrap());
    assert_eq!(tg.get_str("k"), Some(" two  spaces "));
    assert_eq!(tg.get_str("e"), Some(""));
}

#[test]
fn empty_frame_is_a_telegram_without_topic() {
    let mut codec = Codec::new();
    let mut buf = BytesMut::from(&b"\n"[..]);
    let tg = telegram_of(codec.decode(&mut buf).unwrap());
    assert_eq!(tg.get_topic(), None);
    assert_eq!(tg.num_params(), 0);
}

#[test]
fn bad_lines_are_format_errors() {
    let mut codec = Codec::new();
    let mut buf = BytesMut::from(&b"9topic\n\n"[..]);
    assert_eq!(
        codec.decode(&mut buf).err(),
        Some(Error::BadFormat("Invalid leading topic character".to_string()))
    );

    let mut codec = Codec::new();
    let mut buf = BytesMut::from(&b"to.pic\n\n"[..]);
    assert_eq!(
        codec.decode(&mut buf).err(),
        Some(Error::BadFormat("Invalid topic character".to_string()))
    );

    let mut codec = Codec::new();
    let mut buf = BytesMut::from(&b"topic\n\tkey v\n\n"[..]);
    assert_eq!(
        codec.decode(&mut buf).err(),
        Some(Error::BadFormat("Invalid key character".to_string()))
    );

    let mut codec = Codec::new();
    let mut buf = BytesMut::from(&b"topic\n v\n\n"[..]);
    assert_eq!(
        codec.decode(&mut buf).err(),
        Some(Error::BadFormat("Empty or broken key".to_string()))
    );

    let mut codec = Codec::new();
    codec.expect_params();
    let mut buf = BytesMut::from(&b"k\xff v\n\n"[..]);
    assert_eq!(
        codec.decode(&mut buf).err(),
        Some(Error::BadFormat("Unable to decode input as UTF8".to_string()))
    );
}

#[test]
fn kvlines_take_any_key() {
    let mut codec = Codec::new();
    codec.expect_kvlines();
    let mut buf = BytesMut::from(&"\tk\u{e9} v\u{e9}\n\n".as_bytes()[..]);
    let kvlines = kvlines_of(codec.decode(&mut buf).unwrap());
    assert_eq!(
        pairs(&kvlines),
        vec![("\tk\u{e9}".to_string(), "v\u{e9}".to_string())]
    );
}

#[test]
fn line_length_limit() {
    assert_eq!(Codec::new().max_line_length(), usize::MAX);
    assert_eq!(Codec::default().max_line_length(), usize::MAX);
    assert_eq!(Codec::new_with_max_length(5).max_line_length(), 5);
    let too_long = Some(Error::BadFormat("Exceeded maximum line length.".to_string()));

    // Five bytes and the line end: the longest line that passes.
    let mut codec = Codec::new_with_max_length(5);
    let mut buf = BytesMut::from(&b"topic\n\n"[..]);
    assert_eq!(telegram_of(codec.decode(&mut buf).unwrap()).get_topic(), Some("topic"));

    // Six bytes before the line end.
    let mut codec = Codec::new_with_max_length(5);
    let mut buf = BytesMut::from(&b"topics\n\n"[..]);
    assert_eq!(codec.decode(&mut buf).err(), too_long);

    // No line end yet, and already too many bytes.
    let mut codec = Codec::new_with_max_length(5);
    let mut buf = BytesMut::from(&b"topics"[..]);
    assert_eq!(codec.decode(&mut buf).err(), too_long);

    // As many bytes as a line may have: more may come.
    let mut codec = Codec::new_with_max_length(5);
    let mut buf = BytesMut::from(&b"topic"[..]);
    assert!(codec.decode(&mut buf).unwrap().is_none());
    assert_eq!(codec.searched(), 5);
}

#[test]
fn long_line_is_refused_however_it_arrives() {
    let wire = b"abcdefghij\n\n";
    for step in 1..wire.len() {
        let mut codec = Codec::new_with_max_length(4);
        let mut buf = BytesMut::new();
        let mut refused = false;
        for piece in wire.chunks(step) {
            buf.extend_from_slice(piece);
            match codec.decode(&mut buf) {
                Ok(None) => assert!(buf.len() <= 4),
                Ok(Some(_)) => panic!("a long line passed"),
                Err(e) => {
                    assert_eq!(
                        e,
                        Error::BadFormat("Exceeded maximum line length.".to_string())
                    );
                    assert!(buf.len() > 4);
                    refused = true;
                    break;
                }
            }
        }
        assert!(refused);
    }
}

#[test]
fn chunks_add_up_to_the_size() {
    let data = b"0123456789after";
    for step in 1..=data.len() {
        let mut codec = Codec::new();
        codec.expect_chunks(10).unwrap();
        let mut buf = BytesMut::new();
        let mut got = Vec::new();
        let mut last = None;
        for piece in data.chunks(step) {
            buf.extend_from_slice(piece);
            if codec.state() != CodecState::Chunks {
                continue;
            }
            match codec.decode(&mut buf).unwrap() {
                Some(Input::Chunk(chunk, remain)) => {
                    got.extend_from_slice(&chunk[..]);
                    assert_eq!(remain, 10 - got.len());
                    assert_eq!(codec.remaining(), remain);
                    last = Some(remain);
                }
                _ => panic!("Not a Chunk"),
            }
        }
        assert_eq!(got, b"0123456789".to_vec());
        assert_eq!(last, Some(0));
        assert_eq!(codec.state(), CodecState::Telegram);
        assert_eq!(&buf[..], b"after");
    }
}

#[test]
fn chunk_of_an_empty_buffer_waits() {
    let mut codec = Codec::new();
    codec.expect_chunks(3).unwrap();
    let mut buf = BytesMut::new();
    assert!(codec.decode(&mut buf).unwrap().is_none());
    assert_eq!(codec.remaining(), 3);
    assert_eq!(codec.state(), CodecState::Chunks);
}

#[test]
fn bytes_come_when_all_are_there() {
    let mut codec = Codec::new();
    codec.expect_bytes(6).unwrap();
    assert_eq!(codec.state(), CodecState::Bytes);
    assert_eq!(codec.remaining(), 6);
    let mut buf = BytesMut::from(&b"ab"[..]);
    assert!(codec.decode(&mut buf).unwrap().is_none());
    assert!(buf.is_empty());
    assert_eq!(codec.remaining(), 4);
    assert!(codec.decode(&mut buf).unwrap().is_none());
    buf.extend_from_slice(b"cd");
    assert!(codec.decode(&mut buf).unwrap().is_none());
    buf.extend_from_slice(b"efgh");
    match codec.decode(&mut buf).unwrap() {
        Some(Input::Bytes(b)) => assert_eq!(b, Bytes::from_static(b"abcdef")),
        _ => panic!("Not a Bytes"),
    }
    assert_eq!(&buf[..], b"gh");
    assert_eq!(codec.state(), CodecState::Telegram);
    assert_eq!(codec.remaining(), 0);
}

#[test]
fn skip_drops_the_bytes() {
    let mut codec = Codec::new();
    codec.skip(5).unwrap();
    let mut buf = BytesMut::from(&b"abc"[..]);
    assert!(codec.decode(&mut buf).unwrap().is_none());
    buf.extend_from_slice(b"dehello\n\n");
    assert!(matches!(codec.decode(&mut buf).unwrap(), Some(Input::SkipDone)));
    assert_eq!(codec.state(), CodecState::Telegram);
    let tg = telegram_of(codec.decode(&mut buf).unwrap());
    assert_eq!(tg.get_topic(), Some("hello"));
}

#[test]
fn writer_gets_the_bytes_in_order() {
    let seen = Arc::new(Mutex::new(Vec::new()));
    let mut codec = Codec::new();
    codec
        .expect_writer(BoxedSink::new(Shared(seen.clone())), 7)
        .unwrap();
    assert_eq!(codec.state(), CodecState::Writer);
    let mut buf = BytesMut::from(&b"abc"[..]);
    assert!(codec.decode(&mut buf).unwrap().is_none());
    assert_eq!(seen.lock().unwrap().as_slice(), b"abc");
    buf.extend_from_slice(b"defghij");
    assert!(matches!(codec.decode(&mut buf).unwrap(), Some(Input::WriteDone)));
    assert_eq!(seen.lock().unwrap().as_slice(), b"abcdefg");
    assert_eq!(&buf[..], b"hij");
    assert_eq!(codec.state(), CodecState::Telegram);
    // The sink was dropped with the last write.
    assert_eq!(Arc::strong_count(&seen), 1);
}

#[test]
fn file_transfer_returns_the_path() {
    let seen = Arc::new(Mutex::new(Vec::new()));
    let mut codec = Codec::new();
    codec
        .expect_file(
            PathBuf::from("some/where"),
            BoxedSink::new(Shared(seen.clone())),
            4,
        )
        .unwrap();
    assert_eq!(codec.state(), CodecState::File);
    let mut buf = BytesMut::from(&b"12"[..]);
    assert!(codec.decode(&mut buf).unwrap().is_none());
    buf.extend_from_slice(b"34");
    match codec.decode(&mut buf).unwrap() {
        Some(Input::File(path)) => assert_eq!(path, PathBuf::from("some/where")),
        _ => panic!("Not a File"),
    }
    assert_eq!(seen.lock().unwrap().as_slice(), b"1234");
    assert_eq!(Arc::strong_count(&seen), 1);
    assert_eq!(codec.state(), CodecState::Telegram);
}

#[test]
fn a_failing_sink_fails_the_call() {
    let mut codec = Codec::new();
    codec.expect_writer(BoxedSink::new(Failing(1)), 4).unwrap();
    let mut buf = BytesMut::from(&b"ab"[..]);
    assert!(codec.decode(&mut buf).unwrap().is_none());
    buf.extend_from_slice(b"cd");
    assert_eq!(
        codec.decode(&mut buf).err(),
        Some(Error::IO("disk full".to_string()))
    );
}

#[test]
fn a_vector_is_a_sink() {
    let mut sink: Vec<u8> = vec![1];
    sink.write_all(&[2, 3]).unwrap();
    sink.write_all(&[]).unwrap();
    assert_eq!(sink, vec![1, 2, 3]);
    let mut boxed = BoxedSink::new(sink);
    assert_eq!(boxed.write_all(&[4]), Ok(()));
}

#[test]
fn encoders_append_the_wire_form() {
    let codec = Codec::new();
    let mut buf = BytesMut::new();

    let mut tg = Telegram::new_topic("hello").unwrap();
    tg.add_str("len", "4").unwrap();
    codec.encode_telegram(&tg, &mut buf).unwrap();
    assert_eq!(&buf[..], b"hello\nlen 4\n\n");

    let mut params = Params::new();
    params.add_str("foo", "bar").unwrap();
    codec.encode_params(&params, &mut buf).unwrap();
    assert_eq!(&buf[..], b"hello\nlen 4\n\nfoo bar\n\n");

    let mut kvlines = KVLines::new();
    kvlines.append("a", 1);
    kvlines.append_str("a", "2");
    codec.encode_kvlines(&kvlines, &mut buf).unwrap();
    assert_eq!(&buf[..], b"hello\nlen 4\n\nfoo bar\n\na 1\na 2\n\n");

    let mut raw = BytesMut::new();
    codec.encode_bytes(Bytes::from_static(b"12"), &mut raw).unwrap();
    codec.encode_slice(b"34", &mut raw).unwrap();
    assert_eq!(&raw[..], b"1234");

    assert_eq!(
        codec.encode_telegram(&Telegram::new(), &mut raw),
        Err(Error::SerializeError("Missing Telegram topic".to_string()))
    );
    assert_eq!(&raw[..], b"1234");
}

#[test]
fn what_is_encoded_decodes_to_the_same() {
    let codec = Codec::new();
    let mut tg = Telegram::new_topic("AddUser").unwrap();
    tg.add_str("Name", "Frank Foobar").unwrap();
    tg.add_str("Age", "42").unwrap();
    let mut buf = BytesMut::new();
    codec.encode_telegram(&tg, &mut buf).unwrap();
    let mut decoder = Codec::new();
    let back = telegram_of(decoder.decode(&mut buf).unwrap());
    assert_eq!(back.to_string(), tg.to_string());
    assert_eq!(back.serialize().unwrap(), tg.serialize().unwrap());
}

#[test]
fn kvlines_basics() {
    let mut kvlines = KVLines::new();
    kvlines.append("k", "v");
    kvlines.append("k", 2);
    assert_eq!(kvlines.to_string(), "{k=v,k=2}");
    assert_eq!(kvlines.calc_buf_size(), 4 + 4 + 1);
    assert_eq!(kvlines.serialize().unwrap(), b"k v\nk 2\n\n".to_vec());
    let mut buf = BytesMut::new();
    kvlines.encoder_write(&mut buf).unwrap();
    assert_eq!(&buf[..], b"k v\nk 2\n\n");
    let copy = kvlines.clone();
    let inner = kvlines.into_inner();
    assert_eq!(inner.len(), 2);
    assert_eq!(inner[1].key(), "k");
    assert_eq!(inner[1].value(), "2");
    assert_eq!(inner[0], blather::KeyValue::new("k", "v"));
    let mut copy = copy;
    copy.clear();
    assert_eq!(copy.get_inner().len(), 0);
    assert_eq!(copy.to_string(), "{}");
    assert_eq!(KVLines::default().calc_buf_size(), 1);
}

#[test]
fn kvlines_from_pairs() {
    let kvlines = KVLines::from(vec![
        ("b".to_string(), "1".to_string()),
        ("a".to_string(), "2".to_string()),
        ("b".to_string(), "3".to_string()),
    ]);
    assert_eq!(kvlines.to_string(), "{b=1,a=2,b=3}");
    let kvlines = KVLines::from(vec![
        blather::KeyValue::new("x", "y"),
        blather::KeyValue::new("x", "z"),
    ]);
    assert_eq!(kvlines.serialize().unwrap(), b"x y\nx z\n\n".to_vec());
}
