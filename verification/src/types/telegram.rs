//! Telegrams are objects that contain a _topic_ and a set of zero or more
//! parameters. They can be serialized into a line-based format for
//! transmission over a network link.
use crate::buf::{buffered, put_byte};
use crate::err::{Error, ErrorView};
use crate::types::kvlines::{entries_of, KeyValue};
use crate::types::params::{
    bool_text, bool_word, entries_map, joined, pieces, texts_of, unparsable, unparsable_bool,
    unparsable_number, upsert, Params,
};
use crate::types::validators::{key_verdict, topic_verdict, valid_key, valid_topic, validate_topic};
use crate::wire::{braced_text, frame_wire, push_bytes, telegram_wire, Entry, NEWLINE};
use bytes::{BufMut, BytesMut};
use core::str::FromStr;
use std::fmt::Display;
use vstd::hash_set::StringHashSet;
use vstd::prelude::*;
use vstd::std_specs::convert::FromSpecImpl;
use vstd::string::*;
use vstd::utf8::*;

verus! {

/// What a [`Telegram`] holds: its topic, if it has one, and its entries in
/// the order in which they go on the wire.
pub struct TelegramView {
    pub topic: Option<Seq<char>>,
    pub entries: Seq<Entry>,
}

/// A telegram without topic and without parameters.
pub open spec fn empty_telegram() -> TelegramView {
    TelegramView { topic: None, entries: Seq::empty() }
}

/// The number of bytes that a telegram takes on the wire. A missing topic
/// takes none.
pub open spec fn telegram_size(t: TelegramView) -> nat {
    (match t.topic {
        Some(topic) => encode_utf8(topic).len() + 1,
        None => 0,
    }) + frame_wire(t.entries).len()
}

/// A telegram as a reader sees it: the topic, a colon, the parameters
/// between braces.
pub open spec fn telegram_text(t: TelegramView) -> Seq<char> {
    (match t.topic {
        Some(topic) => topic,
        None => "<None>"@,
    }) + seq![':'] + braced_text(t.entries)
}

/// The error for a telegram that is serialized without a topic.
pub open spec fn missing_heading() -> ErrorView {
    ErrorView::SerializeError("Missing heading"@)
}

/// The error for a telegram that is written to a buffer without a topic.
pub open spec fn missing_topic() -> ErrorView {
    ErrorView::SerializeError("Missing Telegram topic"@)
}

/// Representation of a Telegram; a buffer which contains a _topic_ and a set
/// of key/value parameters.
///
/// Internally the key/value parameters are represented by a [`Params`]
/// structure.
#[derive(Debug)]
pub struct Telegram {
    topic: Option<String>,
    params: Params,
}

impl View for Telegram {
    type V = TelegramView;

    closed spec fn view(&self) -> TelegramView {
        TelegramView {
            topic: match self.topic {
                Some(t) => Some(t@),
                None => None,
            },
            entries: self.params.entries(),
        }
    }
}

impl Clone for Telegram {
    fn clone(&self) -> (r: Self)
        ensures
            r@ == self@,
    {
        Telegram { topic: self.topic.clone(), params: self.params.clone() }
    }
}

impl Default for Telegram {
    fn default() -> (r: Self)
        ensures
            r@ == empty_telegram(),
    {
        Telegram::new()
    }
}

impl FromSpecImpl<String> for Telegram {
    open spec fn obeys_from_spec() -> bool {
        false
    }

    open spec fn from_spec(topic: String) -> Telegram {
        choose|t: Telegram| t@ == (TelegramView { topic: Some(topic@), entries: Seq::empty() })
    }
}

impl From<String> for Telegram {
    /// A telegram with the given topic, taken as it is, and no parameters.
    fn from(topic: String) -> (r: Telegram)
        ensures
            r@ == (TelegramView { topic: Some(topic@), entries: Seq::empty() }),
    {
        Telegram { topic: Some(topic), params: Params::new() }
    }
}

impl FromSpecImpl<Params> for Telegram {
    open spec fn obeys_from_spec() -> bool {
        false
    }

    open spec fn from_spec(params: Params) -> Telegram {
        choose|t: Telegram| t@ == (TelegramView { topic: None, entries: params.entries() })
    }
}

impl From<Params> for Telegram {
    /// A telegram with the given parameters and no topic.
    fn from(params: Params) -> (r: Telegram)
        ensures
            r@ == (TelegramView { topic: None, entries: params.entries() }),
            r.params() == params,
    {
        Telegram { topic: None, params }
    }
}

impl Telegram {
    /// The parameters of the telegram.
    pub closed spec fn params(&self) -> Params {
        self.params
    }

    /// The mapping that the parameters stand for.
    pub open spec fn map(&self) -> Map<Seq<char>, Seq<char>> {
        entries_map(self@.entries)
    }

    /// The view shows the parameters' entries, and the mapping is theirs.
    pub proof fn lemma_params(&self)
        ensures
            self@.entries == self.params().entries(),
            self.map() == self.params()@,
    {
        self.params.lemma_view();
    }

    /// Create a new telegram object, with an unset topic.
    ///
    /// Note that a telegram object without a topic is invalid.
    /// [`set_topic()`](Self::set_topic) must be called to set a topic to make
    /// the object valid. Use [`new_topic()`](Self::new_topic) to create a new
    /// Telegram object with a topic.
    pub fn new() -> (r: Self)
        ensures
            r@ == empty_telegram(),
    {
        Telegram { topic: None, params: Params::new() }
    }

    /// Create a new telegram object with a topic.
    pub fn new_topic(topic: &str) -> (r: Result<Self, Error>)
        ensures
            r is Ok <==> valid_topic(topic@),
            match r {
                Ok(t) => t@ == (TelegramView { topic: Some(topic@), entries: Seq::empty() }),
                Err(e) => topic_verdict(topic@) == Some(e@),
            },
    {
        match validate_topic(topic) {
            Ok(_) => Ok(Telegram { topic: Some(topic.to_string()), params: Params::new() }),
            Err(e) => Err(e),
        }
    }

    /// Clear topic and internal parameters buffer.
    pub fn clear(&mut self)
        ensures
            final(self)@ == empty_telegram(),
    {
        self.topic = None;
        self.params.clear();
    }

    /// Return the number of key/value parameters in the Telegram object.
    pub fn num_params(&self) -> (n: usize)
        ensures
            n == self@.entries.len(),
    {
        self.params.len()
    }

    /// Get a reference to the internal parameters object.
    pub fn get_params(&self) -> (r: &Params)
        ensures
            *r == self.params(),
            r.entries() == self@.entries,
    {
        &self.params
    }

    /// Get a mutable reference to the inner [`Params`](crate::Params) object.
    pub fn get_params_mut(&mut self) -> (r: &mut Params)
        ensures
            *r == old(self).params(),
            final(self).params() == *final(r),
            final(self)@.topic == old(self)@.topic,
            final(self)@.entries == final(r).entries(),
    {
        &mut self.params
    }

    /// Get a reference the the parameter's entries.
    pub fn get_params_inner(&self) -> (r: &Vec<KeyValue>)
        ensures
            entries_of(r@) == self@.entries,
    {
        self.params.get_inner()
    }

    /// Set topic for telegram.
    ///
    /// Overwrites current topic is one has already been set. An invalid
    /// topic is refused and nothing changes.
    pub fn set_topic(&mut self, topic: &str) -> (r: Result<(), Error>)
        ensures
            r is Ok <==> valid_topic(topic@),
            match r {
                Ok(_) => final(self)@ == (TelegramView { topic: Some(topic@), ..old(self)@ }),
                Err(e) => topic_verdict(topic@) == Some(e@) && final(self)@ == old(self)@,
            },
    {
        match validate_topic(topic) {
            Ok(_) => {
                self.topic = Some(topic.to_string());
                Ok(())
            },
            Err(e) => Err(e),
        }
    }

    /// Get a reference to the topic string, or None if topic is not been set.
    pub fn get_topic(&self) -> (r: Option<&str>)
        ensures
            match r {
                Some(t) => self@.topic == Some(t@),
                None => self@.topic is None,
            },
    {
        if let Some(t) = &self.topic {
            Some(t.as_str())
        } else {
            None
        }
    }

    /// Add a string parameter to the telegram. A valid key gets the value,
    /// whether or not it had one; any other key is refused and nothing
    /// changes.
    pub fn add_str(&mut self, key: &str, value: &str) -> (r: Result<(), Error>)
        ensures
            r is Ok <==> valid_key(key@),
            final(self)@.topic == old(self)@.topic,
            match r {
                Ok(_) => final(self)@.entries == upsert(old(self)@.entries, key@, value@),
                Err(e) => key_verdict(key@) == Some(e@) && final(self)@.entries == old(
                    self,
                )@.entries,
            },
    {
        self.params.add_str(key, value)
    }

    /// Add a parameter to the telegram.
    ///
    /// The `key` and `value` parameters are generic over the trait `Display`,
    /// allowing a polymorphic behavior: each is stored in the form in which it
    /// displays itself.
    pub fn add_param<T: Display, U: Display>(&mut self, key: T, value: U) -> (r: Result<
        (),
        Error,
    >)
        ensures
            final(self)@.topic == old(self)@.topic,
            exists|k: String, v: String|
                #![trigger to_string_from_display_ensures::<T>(&key, k), to_string_from_display_ensures::<U>(&value, v)]
                {
                    &&& to_string_from_display_ensures::<T>(&key, k)
                    &&& to_string_from_display_ensures::<U>(&value, v)
                    &&& r is Ok <==> valid_key(k@)
                    &&& match r {
                        Ok(_) => final(self)@.entries == upsert(old(self)@.entries, k@, v@),
                        Err(e) => key_verdict(k@) == Some(e@) && final(self)@.entries == old(
                            self,
                        )@.entries,
                    }
                },
    {
        self.params.add_param(key, value)
    }

    /// Add parameter where the value is generated from an iterator over a
    /// string container, where entries will be comma-separated.
    pub fn add_strit<I>(&mut self, key: &str, c: I) -> (r: Result<(), Error>) where
        I: IntoIterator,
        I::Item: AsRef<str>,

        ensures
            r is Ok <==> valid_key(key@),
            final(self)@.topic == old(self)@.topic,
            match r {
                Ok(_) => exists|items: Seq<Seq<char>>|
                    final(self)@.entries == upsert(
                        old(self)@.entries,
                        key@,
                        #[trigger] joined(items, ","@),
                    ),
                Err(e) => key_verdict(key@) == Some(e@) && final(self)@.entries == old(
                    self,
                )@.entries,
            },
    {
        self.params.add_strit(key, c)
    }

    /// Add a boolean value to Telegram object.
    pub fn add_bool<K: Display>(&mut self, key: K, value: bool) -> (r: Result<(), Error>)
        ensures
            final(self)@.topic == old(self)@.topic,
            exists|k: String|
                {
                    &&& to_string_from_display_ensures::<K>(&key, k)
                    &&& r is Ok <==> valid_key(k@)
                    &&& match r {
                        Ok(_) => final(self)@.entries == upsert(
                            old(self)@.entries,
                            k@,
                            bool_text(value),
                        ),
                        Err(e) => key_verdict(k@) == Some(e@) && final(self)@.entries == old(
                            self,
                        )@.entries,
                    }
                },
    {
        self.params.add_bool(key, value)
    }

    /// Check whether a parameter exists in Telegram object.
    ///
    /// Returns `true` is the key exists, and `false` otherwise.
    pub fn have_param(&self, key: &str) -> (r: bool)
        ensures
            r == self.map().contains_key(key@),
    {
        proof {
            self.params.lemma_view();
        }
        self.params.have(key)
    }

    /// Get a parameter. Fail if the parameter does not exist.
    pub fn get_param<T: FromStr>(&self, key: &str) -> (r: Result<T, Error>)
        ensures
            match r {
                Ok(_) => self.map().contains_key(key@),
                Err(e) => e@ == (if self.map().contains_key(key@) {
                    unparsable(key@)
                } else {
                    ErrorView::KeyNotFound(key@)
                }),
            },
    {
        proof {
            self.params.lemma_view();
        }
        self.params.get_param(key)
    }

    /// Get a parameter. Return a default value if the parameter does not
    /// exist.
    pub fn get_param_def<T: FromStr>(&self, key: &str, def: T) -> (r: Result<T, Error>)
        ensures
            !self.map().contains_key(key@) ==> r == Ok::<T, Error>(def),
            r matches Err(e) ==> self.map().contains_key(key@) && e@ == unparsable(key@),
    {
        proof {
            self.params.lemma_view();
        }
        self.params.get_param_def(key, def)
    }

    /// Get a string representation of a parameter. Return `None` is parameter
    /// does not exist.
    pub fn get_str(&self, key: &str) -> (r: Option<&str>)
        ensures
            match r {
                Some(s) => self.map().contains_key(key@) && s@ == self.map()[key@],
                None => !self.map().contains_key(key@),
            },
    {
        proof {
            self.params.lemma_view();
        }
        self.params.get_str(key)
    }

    /// Get a string representation of a parameter. Returns a default value is
    /// the parameter does not exist.
    pub fn get_str_def<'a>(&'a self, key: &str, def: &'a str) -> (r: &'a str)
        ensures
            r@ == (if self.map().contains_key(key@) {
                self.map()[key@]
            } else {
                def@
            }),
    {
        proof {
            self.params.lemma_view();
        }
        self.params.get_str_def(key, def)
    }

    /// Get an integer representation of a parameter.
    ///
    /// This function uses the `FromStr` trait on the return-type so it
    /// technically isn't limited to integers.
    pub fn get_int<T: FromStr>(&self, key: &str) -> (r: Result<T, Error>)
        ensures
            match r {
                Ok(_) => self.map().contains_key(key@),
                Err(e) => e@ == (if self.map().contains_key(key@) {
                    unparsable_number(key@)
                } else {
                    ErrorView::KeyNotFound(key@)
                }),
            },
    {
        proof {
            self.params.lemma_view();
        }
        self.params.get_int(key)
    }

    /// Try to get the parameter value of a key and interpret it as an integer.
    /// If the key does not exist then return a default value supplied by the
    /// caller.
    pub fn get_int_def<T: FromStr>(&self, key: &str, def: T) -> (r: Result<T, Error>)
        ensures
            !self.map().contains_key(key@) ==> r == Ok::<T, Error>(def),
            r matches Err(e) ==> self.map().contains_key(key@) && e@ == unparsable_number(key@),
    {
        proof {
            self.params.lemma_view();
        }
        self.params.get_int_def(key, def)
    }

    /// Return a boolean value. Return error if parameter does not exist.
    ///
    /// If a value exist but can not be parsed as a boolean value the error
    /// `Error::BadFormat` will be returned.
    pub fn get_bool(&self, key: &str) -> (r: Result<bool, Error>)
        ensures
            match r {
                Ok(b) => self.map().contains_key(key@) && bool_word(self.map()[key@]) == Some(b),
                Err(e) => if self.map().contains_key(key@) {
                    bool_word(self.map()[key@]) is None && e@ == unparsable_bool()
                } else {
                    e@ == ErrorView::KeyNotFound(key@)
                },
            },
    {
        proof {
            self.params.lemma_view();
        }
        self.params.get_bool(key)
    }

    /// Return a boolean value. Return a default value if parameter does not
    /// exist.
    pub fn get_bool_def(&self, key: &str, def: bool) -> (r: Result<bool, Error>)
        ensures
            match r {
                Ok(b) => if self.map().contains_key(key@) {
                    bool_word(self.map()[key@]) == Some(b)
                } else {
                    b == def
                },
                Err(e) => self.map().contains_key(key@) && bool_word(self.map()[key@]) is None
                    && e@ == unparsable_bool(),
            },
    {
        proof {
            self.params.lemma_view();
        }
        self.params.get_bool_def(key, def)
    }

    /// Parse the value of a key as a comma-separated list of strings and return
    /// it as a `Vec<String>`. Only non-empty entries are returned.
    pub fn get_strvec(&self, key: &str) -> (r: Result<Vec<String>, Error>)
        ensures
            r matches Ok(v) && texts_of(v@) == (if self.map().contains_key(key@) {
                pieces(self.map()[key@], ',')
            } else {
                Seq::empty()
            }),
    {
        proof {
            self.params.lemma_view();
        }
        self.params.get_strvec(key)
    }

    /// Parse the value of a key as a comma-separated list of strings and return
    /// it as a set. Only non-empty entries are returned.
    pub fn get_hashset(&self, key: &str) -> (r: Result<StringHashSet, Error>)
        ensures
            r matches Ok(set) && set@ == (if self.map().contains_key(key@) {
                pieces(self.map()[key@], ',').to_set()
            } else {
                Set::empty()
            }),
    {
        proof {
            self.params.lemma_view();
        }
        self.params.get_hashset(key)
    }

    /// Calculate the size of a serialized version of this Telegram object.
    /// If no topic has been set it is simply ignored.
    ///
    /// Each line is terminated by a newline character.
    /// The last line consists of a single newline character.
    pub fn calc_buf_size(&self) -> (size: usize)
        requires
            telegram_size(self@) <= usize::MAX,
        ensures
            size == telegram_size(self@),
    {
        let mut size: usize = 0;
        if let Some(ref h) = self.topic {
            size = h.as_str().as_bytes().len() + 1;
        }
        size + self.params.calc_buf_size()
    }

    /// Serialize `Telegram` into a vector of bytes for transmission. A
    /// telegram without a topic cannot be serialized.
    pub fn serialize(&self) -> (r: Result<Vec<u8>, Error>)
        ensures
            match r {
                Ok(buf) => self@.topic matches Some(topic) && buf@ == telegram_wire(
                    topic,
                    self@.entries,
                ),
                Err(e) => self@.topic is None && e@ == missing_heading(),
            },
    {
        let mut buf: Vec<u8> = Vec::new();
        if let Some(ref h) = self.topic {
            push_bytes(&mut buf, h.as_str().as_bytes());
            buf.push(NEWLINE);
        } else {
            return Err(Error::SerializeError("Missing heading".to_string()));
        }
        let ghost head = buf@;
        crate::types::kvlines::push_entries(&mut buf, self.params.get_inner());
        buf.push(NEWLINE);
        assert(buf@ =~= head + frame_wire(self@.entries));
        Ok(buf)
    }

    /// Write the Telegram to a buffer. A telegram without a topic is refused
    /// and the buffer is left as it is.
    pub fn encoder_write(&self, buf: &mut BytesMut) -> (r: Result<(), Error>)
        requires
            buffered(*old(buf)).len() + telegram_size(self@) <= isize::MAX,
        ensures
            match r {
                Ok(_) => self@.topic matches Some(topic) && buffered(*final(buf)) == buffered(
                    *old(buf),
                ) + telegram_wire(topic, self@.entries),
                Err(e) => self@.topic is None && e@ == missing_topic() && buffered(*final(buf))
                    == buffered(*old(buf)),
            },
    {
        if self.topic.is_none() {
            return Err(Error::SerializeError("Missing Telegram topic".to_string()));
        }
        let size = self.calc_buf_size();
        buf.reserve(size);
        if let Some(ref b) = self.topic {
            buf.put_slice(b.as_str().as_bytes());
        }
        put_byte(buf, NEWLINE);
        let ghost head = buffered(*buf);
        crate::types::kvlines::put_entries(buf, self.params.get_inner());
        put_byte(buf, NEWLINE);
        assert(buffered(*buf) =~= head + frame_wire(self@.entries));
        Ok(())
    }

    /// Consume the Telegram buffer and return the internal parameters object.
    pub fn into_params(self) -> (r: Params)
        ensures
            r == self.params(),
            r.entries() == self@.entries,
    {
        self.params
    }

    /// Show the telegram to a reader: the topic, or `<None>` where it has
    /// none, then a colon and the parameters.
    pub fn to_string(&self) -> (s: String)
        ensures
            s@ == telegram_text(self@),
    {
        let mut out = match &self.topic {
            Some(t) => t.clone(),
            None => "<None>".to_string(),
        };
        out.append(":");
        let p = self.params.to_string();
        out.append(p.as_str());
        proof {
            reveal_strlit(":");
            assert((":"@) == seq![':']);
        }
        out
    }
}

} // verus!
