//! The `Params` buffer is a set of key/value pairs with unique keys. It has
//! constraints on key names and offers conventions for value layouts, such
//! as comma-separated values for lists.
use crate::buf::{buffered, put_byte};
use crate::err::{Error, ErrorView};
use crate::text::{
    ascii_lowercase, collect_strings, find_char, index_of, lemma_index_of, parse_value, str_eq,
};
use crate::types::kvlines::{
    braced, clone_pairs, entries_of, entries_size, push_entries, put_entries, KeyValue,
};
use crate::types::validators::{key_verdict, valid_key, validate_param_key};
use crate::wire::{braced_text, frame_wire, Entry, NEWLINE};
use bytes::BytesMut;
use core::str::FromStr;
use std::fmt::Display;
use vstd::hash_set::StringHashSet;
use vstd::prelude::*;
use vstd::string::*;

verus! {

/// The index of the first entry with the given key, or the number of
/// entries where there is none.
pub open spec fn key_position(entries: Seq<Entry>, key: Seq<char>) -> int
    decreases entries.len(),
{
    if entries.len() == 0 {
        0
    } else if entries[0].0 == key {
        0
    } else {
        1 + key_position(entries.drop_first(), key)
    }
}

/// Whether some entry has the given key.
pub open spec fn has_key(entries: Seq<Entry>, key: Seq<char>) -> bool {
    key_position(entries, key) < entries.len()
}

/// The value that the entries give to a key; meaningful where [`has_key`].
pub open spec fn value_of(entries: Seq<Entry>, key: Seq<char>) -> Seq<char> {
    entries[key_position(entries, key)].1
}

/// No two entries share a key.
pub open spec fn distinct_keys(entries: Seq<Entry>) -> bool {
    forall|i: int, j: int|
        0 <= i < j < entries.len() ==> (#[trigger] entries[i]).0 != (#[trigger] entries[j]).0
}

/// The mapping that the entries stand for.
pub open spec fn entries_map(entries: Seq<Entry>) -> Map<Seq<char>, Seq<char>> {
    Map::new(|k: Seq<char>| has_key(entries, k), |k: Seq<char>| value_of(entries, k))
}

/// The entries after `key` is given `value`: the entry with that key is
/// replaced where it stands, or a new entry comes last.
pub open spec fn upsert(entries: Seq<Entry>, key: Seq<char>, value: Seq<char>) -> Seq<Entry> {
    if has_key(entries, key) {
        entries.update(key_position(entries, key), (key, value))
    } else {
        entries.push((key, value))
    }
}

/// [`key_position`] is the least index whose entry has the key.
pub proof fn lemma_key_position(entries: Seq<Entry>, key: Seq<char>)
    ensures
        0 <= key_position(entries, key) <= entries.len(),
        has_key(entries, key) ==> entries[key_position(entries, key)].0 == key,
        forall|j: int| 0 <= j < key_position(entries, key) ==> (#[trigger] entries[j]).0 != key,
    decreases entries.len(),
{
    if entries.len() != 0 && entries[0].0 != key {
        let t = entries.drop_first();
        lemma_key_position(t, key);
        assert forall|j: int| 0 <= j < key_position(entries, key) implies (#[trigger] entries[j]).0
            != key by {
            if j > 0 {
                assert(entries[j] == t[j - 1]);
            }
        }
    }
}

/// An index whose entry has the key, with none before it, is
/// [`key_position`].
pub proof fn lemma_key_position_is(entries: Seq<Entry>, key: Seq<char>, i: int)
    requires
        0 <= i <= entries.len(),
        i < entries.len() ==> entries[i].0 == key,
        forall|j: int| 0 <= j < i ==> (#[trigger] entries[j]).0 != key,
    ensures
        key_position(entries, key) == i,
{
    lemma_key_position(entries, key);
    let k = key_position(entries, key);
    if k < i {
        assert(entries[k].0 != key);
    }
}

/// Giving a key a value is an insertion into the mapping: the key now maps
/// to the value, whatever it mapped to, and no other key changes.
pub proof fn lemma_upsert_map(entries: Seq<Entry>, key: Seq<char>, value: Seq<char>)
    ensures
        entries_map(upsert(entries, key, value)) == entries_map(entries).insert(key, value),
{
    let after = upsert(entries, key, value);
    let p = key_position(entries, key);
    lemma_key_position(entries, key);
    assert forall|k: Seq<char>|
        has_key(after, k) == (k == key || has_key(entries, k)) && (has_key(after, k) ==> value_of(
            after,
            k,
        ) == (if k == key {
            value
        } else {
            value_of(entries, k)
        })) by {
        let q = key_position(entries, k);
        lemma_key_position(entries, k);
        if k == key {
            assert(after[p].0 == key);
            assert forall|j: int| 0 <= j < p implies (#[trigger] after[j]).0 != key by {
                assert(after[j] == entries[j]);
            }
            lemma_key_position_is(after, key, p);
        } else if q < entries.len() {
            assert(after[q] == entries[q]);
            assert forall|j: int| 0 <= j < q implies (#[trigger] after[j]).0 != k by {
                if j != p {
                    assert(after[j] == entries[j]);
                }
            }
            lemma_key_position_is(after, k, q);
        } else {
            assert forall|j: int| 0 <= j < after.len() implies (#[trigger] after[j]).0 != k by {
                if j < entries.len() && j != p {
                    assert(after[j] == entries[j]);
                }
            }
            lemma_key_position_is(after, k, after.len() as int);
        }
    }
    assert(entries_map(after) =~= entries_map(entries).insert(key, value));
}

/// Giving a key a value keeps the keys distinct.
pub proof fn lemma_upsert_distinct(entries: Seq<Entry>, key: Seq<char>, value: Seq<char>)
    requires
        distinct_keys(entries),
    ensures
        distinct_keys(upsert(entries, key, value)),
{
    let after = upsert(entries, key, value);
    let p = key_position(entries, key);
    lemma_key_position(entries, key);
    assert forall|i: int, j: int| 0 <= i < j < after.len() implies (#[trigger] after[i]).0 != (
    #[trigger] after[j]).0 by {
        if has_key(entries, key) {
            assert(after[i].0 == entries[i].0);
            assert(after[j].0 == entries[j].0);
        } else {
            if j < entries.len() {
                assert(after[i] == entries[i]);
                assert(after[j] == entries[j]);
            } else {
                assert(after[i] == entries[i]);
            }
        }
    }
}

/// Entries with distinct keys stand for a mapping of as many keys.
pub proof fn lemma_distinct_count(entries: Seq<Entry>)
    requires
        distinct_keys(entries),
    ensures
        entries_map(entries).dom().finite(),
        entries_map(entries).dom().len() == entries.len(),
    decreases entries.len(),
{
    if entries.len() == 0 {
        assert(entries_map(entries).dom() =~= Set::<Seq<char>>::empty());
    } else {
        let init = entries.drop_last();
        let e = entries.last();
        assert forall|i: int, j: int| 0 <= i < j < init.len() implies (#[trigger] init[i]).0 != (
        #[trigger] init[j]).0 by {
            assert(init[i] == entries[i]);
            assert(init[j] == entries[j]);
        }
        lemma_distinct_count(init);
        lemma_key_position(init, e.0);
        if has_key(init, e.0) {
            let p = key_position(init, e.0);
            assert(init[p] == entries[p]);
            assert(entries[p].0 != entries[entries.len() - 1].0);
        }
        assert(upsert(init, e.0, e.1) =~= entries);
        lemma_upsert_map(init, e.0, e.1);
        assert(entries_map(entries).dom() =~= entries_map(init).dom().insert(e.0));
    }
}

/// The non-empty pieces of a text between separators, in their order.
pub open spec fn pieces(s: Seq<char>, sep: char) -> Seq<Seq<char>>
    decreases s.len(),
{
    let i = index_of(s, sep);
    let head = s.take(i);
    let tail = if 0 <= i < s.len() {
        pieces(s.skip(i + 1), sep)
    } else {
        Seq::empty()
    };
    if head.len() > 0 {
        seq![head] + tail
    } else {
        tail
    }
}

/// Texts put one after another with a separator between each two.
pub open spec fn joined(items: Seq<Seq<char>>, sep: Seq<char>) -> Seq<char>
    decreases items.len(),
{
    if items.len() == 0 {
        Seq::empty()
    } else if items.len() == 1 {
        items[0]
    } else {
        joined(items.drop_last(), sep) + sep + items.last()
    }
}

/// The texts that a vector of strings holds.
pub open spec fn texts_of(items: Seq<String>) -> Seq<Seq<char>> {
    Seq::new(items.len(), |i: int| items[i]@)
}

/// The truth value that a text spells, whatever its case: `y`, `yes`, `t`,
/// `true` and `1` are true, `n`, `no`, `f`, `false` and `0` are false.
pub open spec fn bool_word(s: Seq<char>) -> Option<bool> {
    let l = ascii_lowercase(s);
    if l == "y"@ || l == "yes"@ || l == "t"@ || l == "true"@ || l == "1"@ {
        Some(true)
    } else if l == "n"@ || l == "no"@ || l == "f"@ || l == "false"@ || l == "0"@ {
        Some(false)
    } else {
        None
    }
}

/// The text that stands for a truth value in a buffer.
pub open spec fn bool_text(b: bool) -> Seq<char> {
    if b {
        "True"@
    } else {
        "False"@
    }
}

/// The error for a value that does not parse as the requested type.
pub open spec fn unparsable(key: Seq<char>) -> ErrorView {
    ErrorView::BadFormat("Unable to parse value from parameter '"@ + key + "'"@)
}

/// The error for a value that does not parse as a number.
pub open spec fn unparsable_number(key: Seq<char>) -> ErrorView {
    ErrorView::BadFormat("Unable to parse numeric value from parameter '"@ + key + "'"@)
}

/// The error for a value that spells no truth value.
pub open spec fn unparsable_bool() -> ErrorView {
    ErrorView::BadFormat("Unrecognized boolean value"@)
}

/// Join strings with a separator between each two.
pub fn join(items: &Vec<String>, sep: &str) -> (s: String)
    ensures
        s@ == joined(texts_of(items@), sep@),
{
    let ghost all = texts_of(items@);
    let mut out = String::new();
    let mut i: usize = 0;
    while i < items.len()
        invariant
            i <= items.len(),
            all == texts_of(items@),
            out@ == joined(all.take(i as int), sep@),
        decreases items.len() - i,
    {
        if i > 0 {
            out.append(sep);
        }
        out.append(items[i].as_str());
        proof {
            let next = all.take(i + 1);
            assert(next.drop_last() == all.take(i as int));
            assert(next.last() == items@[i as int]@);
            if i == 0 {
                assert(joined(all.take(0), sep@) == Seq::<char>::empty());
                assert(next[0] == next.last());
                assert(out@ == next[0]);
            }
        }
        i += 1;
    }
    assert(all.take(i as int) == all);
    out
}

/// What a found value parses to, or the error that names the key.
pub fn parsed_or<T>(parsed: Option<T>, key: &str, what: &str) -> (r: Result<T, Error>)
    ensures
        match parsed {
            Some(v) => r == Ok::<T, Error>(v),
            None => r matches Err(e) && e@ == ErrorView::BadFormat(what@ + key@ + "'"@),
        },
{
    match parsed {
        Some(v) => Ok(v),
        None => {
            let mut msg = what.to_string();
            msg.append(key);
            msg.append("'");
            Err(Error::BadFormat(msg))
        },
    }
}

/// Key/value parameters storage with helper methods to make adding and
/// getting common value types slightly more ergonomic.
///
/// Keys and values are strings. The entries keep the order in which their
/// keys first came, and no key occurs twice.
#[derive(Debug)]
pub struct Params {
    entries: Vec<KeyValue>,
}

impl View for Params {
    type V = Map<Seq<char>, Seq<char>>;

    closed spec fn view(&self) -> Map<Seq<char>, Seq<char>> {
        entries_map(entries_of(self.entries@))
    }
}

impl Clone for Params {
    fn clone(&self) -> (r: Self)
        ensures
            r.entries() == self.entries(),
            r@ == self@,
    {
        proof {
            use_type_invariant(self);
        }
        Params { entries: clone_pairs(&self.entries) }
    }
}

impl Default for Params {
    fn default() -> (r: Self)
        ensures
            r.entries() == Seq::<Entry>::empty(),
            r@ == Map::<Seq<char>, Seq<char>>::empty(),
    {
        Params::new()
    }
}

impl Params {
    #[verifier::type_invariant]
    spec fn keys_are_distinct(self) -> bool {
        distinct_keys(entries_of(self.entries@))
    }

    /// The entries in the order in which they are written to the wire.
    pub closed spec fn entries(&self) -> Seq<Entry> {
        entries_of(self.entries@)
    }

    /// The mapping is the one that the entries stand for.
    pub proof fn lemma_view(&self)
        ensures
            self@ == entries_map(self.entries()),
    {
    }

    /// Create a new empty parameters object.
    pub fn new() -> (r: Self)
        ensures
            r.entries() == Seq::<Entry>::empty(),
            r@ == Map::<Seq<char>, Seq<char>>::empty(),
    {
        let r = Params { entries: Vec::new() };
        assert(r@ =~= Map::<Seq<char>, Seq<char>>::empty());
        r
    }

    /// Reset all the key/values in `Params` object.
    pub fn clear(&mut self)
        ensures
            final(self).entries() == Seq::<Entry>::empty(),
            final(self)@ == Map::<Seq<char>, Seq<char>>::empty(),
    {
        self.entries = Vec::new();
        assert(self@ =~= Map::<Seq<char>, Seq<char>>::empty());
    }

    /// Return the number of key/value pairs in the parameter buffer. No two
    /// of them share a key.
    pub fn len(&self) -> (n: usize)
        ensures
            n == self.entries().len(),
            n == self@.dom().len(),
            distinct_keys(self.entries()),
    {
        proof {
            use_type_invariant(self);
            lemma_distinct_count(self.entries());
        }
        self.entries.len()
    }

    /// Return reference to the inner entries.
    pub fn get_inner(&self) -> (r: &Vec<KeyValue>)
        ensures
            entries_of(r@) == self.entries(),
    {
        &self.entries
    }

    /// Where the entry with the given key stands, if there is one.
    fn position(&self, key: &str) -> (r: Option<usize>)
        ensures
            match r {
                Some(i) => has_key(self.entries(), key@) && i == key_position(
                    self.entries(),
                    key@,
                ),
                None => !has_key(self.entries(), key@),
            },
    {
        let ghost all = self.entries();
        let mut i: usize = 0;
        while i < self.entries.len()
            invariant
                i <= self.entries.len(),
                all == entries_of(self.entries@),
                forall|j: int| 0 <= j < i ==> (#[trigger] all[j]).0 != key@,
            decreases self.entries.len() - i,
        {
            if str_eq(self.entries[i].key(), key) {
                proof {
                    lemma_key_position_is(all, key@, i as int);
                }
                return Some(i);
            }
            i += 1;
        }
        proof {
            lemma_key_position_is(all, key@, i as int);
        }
        None
    }

    /// Give a key a value without looking at the key's characters.
    pub fn set(&mut self, key: &str, value: &str)
        ensures
            final(self).entries() == upsert(old(self).entries(), key@, value@),
            final(self)@ == old(self)@.insert(key@, value@),
    {
        proof {
            use_type_invariant(&*self);
            lemma_upsert_distinct(self.entries(), key@, value@);
            lemma_upsert_map(self.entries(), key@, value@);
        }
        let kv = KeyValue::new(key, value);
        let found = self.position(key);
        let mut entries: Vec<KeyValue> = Vec::new();
        core::mem::swap(&mut self.entries, &mut entries);
        match found {
            Some(i) => {
                entries[i] = kv;
            },
            None => {
                entries.push(kv);
            },
        }
        assert(entries_of(entries@) =~= upsert(old(self).entries(), key@, value@));
        self.entries = entries;
    }

    /// Add a string parameter to the parameter. A valid key gets the value,
    /// whether or not it had one; any other key is refused and nothing
    /// changes.
    pub fn add_str(&mut self, key: &str, value: &str) -> (r: Result<(), Error>)
        ensures
            r is Ok <==> valid_key(key@),
            match r {
                Ok(_) => {
                    &&& final(self).entries() == upsert(old(self).entries(), key@, value@)
                    &&& final(self)@ == old(self)@.insert(key@, value@)
                },
                Err(e) => {
                    &&& key_verdict(key@) == Some(e@)
                    &&& final(self).entries() == old(self).entries()
                    &&& final(self)@ == old(self)@
                },
            },
    {
        match validate_param_key(key) {
            Ok(_) => {
                self.set(key, value);
                Ok(())
            },
            Err(e) => Err(e),
        }
    }

    /// Add a parameter to the parameter.
    ///
    /// The `key` and `value` parameters are generic over the trait `Display`,
    /// allowing a polymorphic behavior: each is stored in the form in which it
    /// displays itself.
    pub fn add_param<T: Display, U: Display>(&mut self, key: T, value: U) -> (r: Result<
        (),
        Error,
    >)
        ensures
            exists|k: String, v: String|
                #![trigger to_string_from_display_ensures::<T>(&key, k), to_string_from_display_ensures::<U>(&value, v)]
                {
                    &&& to_string_from_display_ensures::<T>(&key, k)
                    &&& to_string_from_display_ensures::<U>(&value, v)
                    &&& r is Ok <==> valid_key(k@)
                    &&& match r {
                        Ok(_) => final(self).entries() == upsert(old(self).entries(), k@, v@),
                        Err(e) => key_verdict(k@) == Some(e@) && final(self).entries() == old(
                            self,
                        ).entries(),
                    }
                },
    {
        let k = key.to_string();
        let v = value.to_string();
        let r = self.add_str(k.as_str(), v.as_str());
        assert(to_string_from_display_ensures::<T>(&key, k) && to_string_from_display_ensures::<U>(
            &value,
            v,
        ));
        r
    }

    /// Add parameter where the value is the given strings, comma-separated.
    pub fn add_joined(&mut self, key: &str, items: &Vec<String>) -> (r: Result<(), Error>)
        ensures
            r is Ok <==> valid_key(key@),
            match r {
                Ok(_) => final(self).entries() == upsert(
                    old(self).entries(),
                    key@,
                    joined(texts_of(items@), ","@),
                ),
                Err(e) => key_verdict(key@) == Some(e@) && final(self).entries() == old(
                    self,
                ).entries(),
            },
    {
        let value = join(items, ",");
        self.add_str(key, value.as_str())
    }

    /// Add parameter where the value is generated from an iterator over
    /// strings, where entries are comma-separated.
    pub fn add_strit<I>(&mut self, key: &str, c: I) -> (r: Result<(), Error>) where
        I: IntoIterator,
        I::Item: AsRef<str>,

        ensures
            r is Ok <==> valid_key(key@),
            match r {
                Ok(_) => exists|items: Seq<Seq<char>>|
                    final(self).entries() == upsert(
                        old(self).entries(),
                        key@,
                        #[trigger] joined(items, ","@),
                    ),
                Err(e) => key_verdict(key@) == Some(e@) && final(self).entries() == old(
                    self,
                ).entries(),
            },
    {
        let sv = collect_strings(c);
        self.add_joined(key, &sv)
    }

    /// Add a boolean parameter.
    ///
    /// Applications should not make assumptions about the specific string
    /// value added by this function. Do not treat boolean values as strings;
    /// use the [`get_bool()`](Self::get_bool) method instead.
    pub fn add_bool<K: Display>(&mut self, key: K, value: bool) -> (r: Result<(), Error>)
        ensures
            exists|k: String|
                {
                    &&& to_string_from_display_ensures::<K>(&key, k)
                    &&& r is Ok <==> valid_key(k@)
                    &&& match r {
                        Ok(_) => final(self).entries() == upsert(
                            old(self).entries(),
                            k@,
                            bool_text(value),
                        ),
                        Err(e) => key_verdict(k@) == Some(e@) && final(self).entries() == old(
                            self,
                        ).entries(),
                    }
                },
    {
        let v = match value {
            true => "True",
            false => "False",
        };
        let k = key.to_string();
        self.add_str(k.as_str(), v)
    }

    /// Returns `true` if the parameter with `key` exists. Returns `false`
    /// otherwise.
    pub fn have(&self, key: &str) -> (r: bool)
        ensures
            r == self@.contains_key(key@),
    {
        self.position(key).is_some()
    }

    /// Get string representation of a value for a requested key.
    /// Returns `None` if the key is not found in the inner storage. Returns
    /// `Some(&str)` if parameter exists.
    pub fn get_str(&self, key: &str) -> (r: Option<&str>)
        ensures
            match r {
                Some(s) => self@.contains_key(key@) && s@ == self@[key@],
                None => !self@.contains_key(key@),
            },
    {
        match self.position(key) {
            Some(i) => Some(self.entries[i].value()),
            None => None,
        }
    }

    /// Get string representation of a value for a requested key. Returns a
    /// default value if key does not exist in parameter buffer.
    pub fn get_str_def<'a>(&'a self, key: &str, def: &'a str) -> (r: &'a str)
        ensures
            r@ == (if self@.contains_key(key@) {
                self@[key@]
            } else {
                def@
            }),
    {
        match self.get_str(key) {
            Some(v) => v,
            None => def,
        }
    }

    /// Get a parameter and convert it to a requested type, fail if key isn't
    /// found. A value that the type does not accept is a format error.
    pub fn get_param<T: FromStr>(&self, key: &str) -> (r: Result<T, Error>)
        ensures
            match r {
                Ok(_) => self@.contains_key(key@),
                Err(e) => e@ == (if self@.contains_key(key@) {
                    unparsable(key@)
                } else {
                    ErrorView::KeyNotFound(key@)
                }),
            },
    {
        if let Some(val) = self.get_str(key) {
            return parsed_or(parse_value::<T>(val), key, "Unable to parse value from parameter '");
        }
        Err(Error::key_not_found(key))
    }

    /// Get a parameter and convert it to a requested type, return a default
    /// value if key isn't found.
    pub fn get_param_def<T: FromStr>(&self, key: &str, def: T) -> (r: Result<T, Error>)
        ensures
            !self@.contains_key(key@) ==> r == Ok::<T, Error>(def),
            r matches Err(e) ==> self@.contains_key(key@) && e@ == unparsable(key@),
    {
        if let Some(val) = self.get_str(key) {
            return parsed_or(parse_value::<T>(val), key, "Unable to parse value from parameter '");
        }
        Ok(def)
    }

    /// Get a parameter and convert it to an integer type.
    ///
    /// This method exists primarily to achive some sort of parity with a
    /// corresponding C++ library. It is recommended that applications use
    /// [`Params::get_param()`](Self::get_param) instead.
    pub fn get_int<T: FromStr>(&self, key: &str) -> (r: Result<T, Error>)
        ensures
            match r {
                Ok(_) => self@.contains_key(key@),
                Err(e) => e@ == (if self@.contains_key(key@) {
                    unparsable_number(key@)
                } else {
                    ErrorView::KeyNotFound(key@)
                }),
            },
    {
        if let Some(val) = self.get_str(key) {
            return parsed_or(
                parse_value::<T>(val),
                key,
                "Unable to parse numeric value from parameter '",
            );
        }
        Err(Error::key_not_found(key))
    }

    /// Try to get the value of a key and interpret it as an integer. If the key
    /// does not exist then return a default value supplied by the caller.
    pub fn get_int_def<T: FromStr>(&self, key: &str, def: T) -> (r: Result<T, Error>)
        ensures
            !self@.contains_key(key@) ==> r == Ok::<T, Error>(def),
            r matches Err(e) ==> self@.contains_key(key@) && e@ == unparsable_number(key@),
    {
        if let Some(val) = self.get_str(key) {
            return parsed_or(
                parse_value::<T>(val),
                key,
                "Unable to parse numeric value from parameter '",
            );
        }
        Ok(def)
    }

    /// Get a boolean value; return error if key wasn't found.
    pub fn get_bool(&self, key: &str) -> (r: Result<bool, Error>)
        ensures
            match r {
                Ok(b) => self@.contains_key(key@) && bool_word(self@[key@]) == Some(b),
                Err(e) => if self@.contains_key(key@) {
                    bool_word(self@[key@]) is None && e@ == unparsable_bool()
                } else {
                    e@ == ErrorView::KeyNotFound(key@)
                },
            },
    {
        if let Some(v) = self.get_str(key) {
            let v = v.to_ascii_lowercase();
            let w = v.as_str();
            if str_eq(w, "y") || str_eq(w, "yes") || str_eq(w, "t") || str_eq(w, "true") || str_eq(
                w,
                "1",
            ) {
                return Ok(true);
            }
            if str_eq(w, "n") || str_eq(w, "no") || str_eq(w, "f") || str_eq(w, "false") || str_eq(
                w,
                "0",
            ) {
                return Ok(false);
            }
            return Err(Error::bad_format("Unrecognized boolean value"));
        }
        Err(Error::key_not_found(key))
    }

    /// Get a boolean value; return a default value if key wasn't found.
    pub fn get_bool_def(&self, key: &str, def: bool) -> (r: Result<bool, Error>)
        ensures
            match r {
                Ok(b) => if self@.contains_key(key@) {
                    bool_word(self@[key@]) == Some(b)
                } else {
                    b == def
                },
                Err(e) => self@.contains_key(key@) && bool_word(self@[key@]) is None && e@
                    == unparsable_bool(),
            },
    {
        match self.get_bool(key) {
            Ok(v) => Ok(v),
            Err(Error::KeyNotFound(_)) => Ok(def),
            Err(e) => Err(e),
        }
    }

    /// Parse the value of a key as a comma-separated list of strings and return
    /// it. Only non-empty entries are returned, and a key that is not found
    /// gives none.
    pub fn get_strvec(&self, key: &str) -> (r: Result<Vec<String>, Error>)
        ensures
            r matches Ok(v) && texts_of(v@) == (if self@.contains_key(key@) {
                pieces(self@[key@], ',')
            } else {
                Seq::empty()
            }),
    {
        let mut ret: Vec<String> = Vec::new();
        if let Some(v) = self.get_str(key) {
            let mut rest: &str = v;
            loop
                invariant_except_break
                    pieces(v@, ',') == texts_of(ret@) + pieces(rest@, ','),
                ensures
                    pieces(v@, ',') == texts_of(ret@),
                decreases rest@.len(),
            {
                let n = rest.unicode_len();
                proof {
                    lemma_index_of(rest@, ',');
                }
                match find_char(rest, ',') {
                    Some(i) => {
                        let head = rest.substring_char(0, i);
                        let ghost before = texts_of(ret@);
                        let ghost whole = rest@;
                        if !head.is_empty() {
                            ret.push(head.to_string());
                            assert(texts_of(ret@) =~= before + seq![head@]);
                        }
                        let tail = rest.substring_char(i + 1, n);
                        assert(head@ == whole.take(i as int));
                        assert(tail@ == whole.skip(i + 1));
                        rest = tail;
                        assert(pieces(whole, ',') == (if head@.len() > 0 {
                            seq![head@] + pieces(tail@, ',')
                        } else {
                            pieces(tail@, ',')
                        }));
                        assert(before + pieces(whole, ',') =~= texts_of(ret@) + pieces(
                            tail@,
                            ',',
                        ));
                    },
                    None => {
                        let ghost before = texts_of(ret@);
                        assert(rest@.take(rest@.len() as int) == rest@);
                        assert(pieces(rest@, ',') == (if rest@.len() > 0 {
                            seq![rest@]
                        } else {
                            Seq::<Seq<char>>::empty()
                        }));
                        if n > 0 {
                            ret.push(rest.to_string());
                            assert(texts_of(ret@) =~= before + seq![rest@]);
                        }
                        assert(pieces(v@, ',') =~= texts_of(ret@));
                        break ;
                    },
                }
            }
        } else {
            assert(texts_of(ret@) =~= Seq::<Seq<char>>::empty());
        }
        Ok(ret)
    }

    /// Parse the value of a key as a comma-separated list of unique strings
    /// and return them as a set. Only non-empty entries are returned.
    pub fn get_hashset(&self, key: &str) -> (r: Result<StringHashSet, Error>)
        ensures
            r matches Ok(set) && set@ == (if self@.contains_key(key@) {
                pieces(self@[key@], ',').to_set()
            } else {
                Set::empty()
            }),
    {
        let mut ret = StringHashSet::new();
        let items = match self.get_strvec(key) {
            Ok(v) => v,
            Err(e) => {
                return Err(e);
            },
        };
        let ghost all = texts_of(items@);
        let mut i: usize = 0;
        while i < items.len()
            invariant
                i <= items.len(),
                all == texts_of(items@),
                ret@ == all.take(i as int).to_set(),
            decreases items.len() - i,
        {
            ret.insert(items[i].clone());
            proof {
                let next = all.take(i + 1);
                assert(next == all.take(i as int).push(items@[i as int]@));
                assert(next.to_set() =~= all.take(i as int).to_set().insert(items@[i as int]@)) by {
                    assert forall|x: Seq<char>| next.contains(x) <==> (all.take(
                        i as int,
                    ).contains(x) || x == items@[i as int]@) by {
                        if next.contains(x) {
                            let j = choose|j: int| 0 <= j < next.len() && next[j] == x;
                            if j < i {
                                assert(all.take(i as int)[j] == x);
                            }
                        }
                        if all.take(i as int).contains(x) {
                            let j = choose|j: int|
                                0 <= j < all.take(i as int).len() && all.take(i as int)[j] == x;
                            assert(next[j] == x);
                        }
                        if x == items@[i as int]@ {
                            assert(next[i as int] == x);
                        }
                    }
                }
            }
            i += 1;
        }
        assert(all.take(i as int) == all);
        assert(Seq::<Seq<char>>::empty().to_set() =~= Set::<Seq<char>>::empty());
        Ok(ret)
    }

    /// Calculate the size of the buffer in serialized form.
    /// Each entry will be a newline terminated utf-8 line.
    /// Last line will be a single newline character.
    pub fn calc_buf_size(&self) -> (size: usize)
        requires
            frame_wire(self.entries()).len() <= usize::MAX,
        ensures
            size == frame_wire(self.entries()).len(),
    {
        match entries_size(&self.entries) {
            Some(n) => n + 1,
            None => 0,
        }
    }

    /// Serialize `Params` buffer into a vector of bytes for transmission.
    pub fn serialize(&self) -> (r: Result<Vec<u8>, Error>)
        ensures
            r matches Ok(buf) && buf@ == frame_wire(self.entries()),
    {
        let mut buf: Vec<u8> = Vec::new();
        push_entries(&mut buf, &self.entries);
        buf.push(NEWLINE);
        Ok(buf)
    }

    /// Write the Params to a buffer.
    pub fn encoder_write(&self, buf: &mut BytesMut) -> (r: Result<(), Error>)
        requires
            buffered(*old(buf)).len() + frame_wire(self.entries()).len() <= isize::MAX,
        ensures
            r is Ok,
            buffered(*final(buf)) == buffered(*old(buf)) + frame_wire(self.entries()),
    {
        let size = self.calc_buf_size();
        buf.reserve(size);
        put_entries(buf, &self.entries);
        put_byte(buf, NEWLINE);
        Ok(())
    }

    /// Consume the Params buffer and return its entries.
    pub fn into_inner(self) -> (r: Vec<KeyValue>)
        ensures
            entries_of(r@) == self.entries(),
    {
        self.entries
    }

    /// Show the parameters to a reader: `{k=v,k=v}`.
    pub fn to_string(&self) -> (s: String)
        ensures
            s@ == braced_text(self.entries()),
    {
        braced(&self.entries)
    }
}

} // verus!
