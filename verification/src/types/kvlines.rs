//! A key/value pair list with stable ordering and non-unique keys.
use crate::buf::{buffered, put_byte};
use crate::err::Error;
use crate::wire::{
    braced_text, entries_text, entries_wire, entry_size, frame_wire,
    lemma_entries_wire_len_monotonic, lemma_entries_wire_take, push_entry, put_entry, Entry,
    NEWLINE,
};
use bytes::BytesMut;
use std::fmt::Display;
use vstd::prelude::*;
use vstd::std_specs::convert::FromSpecImpl;
use vstd::string::*;

verus! {

/// Representation of a key/value pair in [`KVLines`].
#[derive(Debug, Default, PartialEq, Eq)]
pub struct KeyValue {
    key: String,
    value: String,
}

impl View for KeyValue {
    type V = Entry;

    closed spec fn view(&self) -> Entry {
        (self.key@, self.value@)
    }
}

impl Clone for KeyValue {
    fn clone(&self) -> (r: Self)
        ensures
            r@ == self@,
    {
        KeyValue { key: self.key.clone(), value: self.value.clone() }
    }
}

/// Copy a vector of pairs.
pub fn clone_pairs(pairs: &Vec<KeyValue>) -> (r: Vec<KeyValue>)
    ensures
        entries_of(r@) == entries_of(pairs@),
{
    let mut out: Vec<KeyValue> = Vec::new();
    let mut i: usize = 0;
    while i < pairs.len()
        invariant
            i <= pairs.len(),
            out@.len() == i,
            forall|j: int| 0 <= j < i ==> (#[trigger] out@[j])@ == pairs@[j]@,
        decreases pairs.len() - i,
    {
        out.push(pairs[i].clone());
        i += 1;
    }
    assert(entries_of(out@) =~= entries_of(pairs@));
    out
}

impl KeyValue {
    /// Pair a key with a value.
    pub fn new(key: &str, value: &str) -> (kv: KeyValue)
        ensures
            kv@ == (key@, value@),
    {
        KeyValue { key: key.to_string(), value: value.to_string() }
    }

    /// The key of the pair.
    pub fn key(&self) -> (k: &str)
        ensures
            k@ == self@.0,
    {
        self.key.as_str()
    }

    /// The value of the pair.
    pub fn value(&self) -> (v: &str)
        ensures
            v@ == self@.1,
    {
        self.value.as_str()
    }
}

/// The entries that a sequence of pairs stands for.
pub open spec fn entries_of(pairs: Seq<KeyValue>) -> Seq<Entry> {
    Seq::new(pairs.len(), |i: int| pairs[i]@)
}

/// Ordered list of key/value pairs, with no uniqueness constraint for the
/// keys.
#[derive(Debug)]
pub struct KVLines {
    lines: Vec<KeyValue>,
}

impl View for KVLines {
    type V = Seq<Entry>;

    closed spec fn view(&self) -> Seq<Entry> {
        entries_of(self.lines@)
    }
}

impl Clone for KVLines {
    fn clone(&self) -> (r: Self)
        ensures
            r@ == self@,
    {
        KVLines { lines: clone_pairs(&self.lines) }
    }
}

impl Default for KVLines {
    fn default() -> (r: Self)
        ensures
            r@ == Seq::<Entry>::empty(),
    {
        KVLines::new()
    }
}

/// The entries that a sequence of pairs of strings stands for.
pub open spec fn entries_of_pairs(pairs: Seq<(String, String)>) -> Seq<Entry> {
    Seq::new(pairs.len(), |i: int| (pairs[i].0@, pairs[i].1@))
}

impl FromSpecImpl<Vec<KeyValue>> for KVLines {
    open spec fn obeys_from_spec() -> bool {
        false
    }

    open spec fn from_spec(lines: Vec<KeyValue>) -> KVLines {
        choose|l: KVLines| l@ == entries_of(lines@)
    }
}

impl From<Vec<KeyValue>> for KVLines {
    /// The list that holds the given pairs, in their order.
    fn from(lines: Vec<KeyValue>) -> (r: KVLines)
        ensures
            r@ == entries_of(lines@),
    {
        KVLines { lines }
    }
}

impl FromSpecImpl<Vec<(String, String)>> for KVLines {
    open spec fn obeys_from_spec() -> bool {
        false
    }

    open spec fn from_spec(lines: Vec<(String, String)>) -> KVLines {
        choose|l: KVLines| l@ == entries_of_pairs(lines@)
    }
}

impl From<Vec<(String, String)>> for KVLines {
    /// The list that holds the given pairs, in their order.
    fn from(lines: Vec<(String, String)>) -> (r: KVLines)
        ensures
            r@ == entries_of_pairs(lines@),
    {
        let mut out = KVLines { lines: Vec::new() };
        let mut i: usize = 0;
        while i < lines.len()
            invariant
                i <= lines.len(),
                out@ == entries_of_pairs(lines@).take(i as int),
            decreases lines.len() - i,
        {
            out.append_str(lines[i].0.as_str(), lines[i].1.as_str());
            assert(out@ =~= entries_of_pairs(lines@).take(i + 1));
            i += 1;
        }
        assert(entries_of_pairs(lines@).take(i as int) == entries_of_pairs(lines@));
        out
    }
}

/// Append the entries as `k=v`, joined by commas, to `out`.
pub fn push_entries_text(out: &mut String, pairs: &Vec<KeyValue>)
    ensures
        final(out)@ == old(out)@ + entries_text(entries_of(pairs@)),
{
    let ghost all = entries_of(pairs@);
    let mut i: usize = 0;
    while i < pairs.len()
        invariant
            i <= pairs.len(),
            all == entries_of(pairs@),
            out@ == old(out)@ + entries_text(all.take(i as int)),
        decreases pairs.len() - i,
    {
        if i > 0 {
            out.append(",");
        }
        out.append(pairs[i].key());
        out.append("=");
        out.append(pairs[i].value());
        proof {
            reveal_strlit(",");
            reveal_strlit("=");
            let next = all.take(i + 1);
            assert(next.drop_last() == all.take(i as int));
            assert(next.last() == pairs@[i as int]@);
            if i == 0 {
                assert(entries_text(all.take(0)) == Seq::<char>::empty());
                assert(next[0] == next.last());
                assert(out@ == old(out)@ + (next[0].0 + seq!['='] + next[0].1));
            } else {
                assert(("="@) == seq!['=']);
                assert((","@) == seq![',']);
                assert(out@ == old(out)@ + (entries_text(all.take(i as int)) + seq![',']
                    + next.last().0 + seq!['='] + next.last().1));
            }
        }
        i += 1;
    }
    assert(all.take(i as int) == all);
}

/// The entries between braces: `{k=v,k=v}`.
pub fn braced(pairs: &Vec<KeyValue>) -> (s: String)
    ensures
        s@ == braced_text(entries_of(pairs@)),
{
    let mut out = "{".to_string();
    push_entries_text(&mut out, pairs);
    out.append("}");
    proof {
        reveal_strlit("{");
        reveal_strlit("}");
        assert(("{"@) == seq!['{']);
        assert(("}"@) == seq!['}']);
    }
    out
}

/// The number of bytes that the entry lines take, if a `usize` can hold it.
pub fn entries_size(pairs: &Vec<KeyValue>) -> (n: Option<usize>)
    ensures
        match n {
            Some(n) => n == entries_wire(entries_of(pairs@)).len(),
            None => entries_wire(entries_of(pairs@)).len() > usize::MAX,
        },
{
    let ghost all = entries_of(pairs@);
    let mut size: usize = 0;
    let mut i: usize = 0;
    while i < pairs.len()
        invariant
            i <= pairs.len(),
            all == entries_of(pairs@),
            size == entries_wire(all.take(i as int)).len(),
        decreases pairs.len() - i,
    {
        proof {
            lemma_entries_wire_take(all, i as int);
            lemma_entries_wire_len_monotonic(all, i + 1);
        }
        let line = match entry_size(pairs[i].key(), pairs[i].value()) {
            Some(n) => n,
            None => {
                return None;
            },
        };
        size = match size.checked_add(line) {
            Some(n) => n,
            None => {
                return None;
            },
        };
        i += 1;
    }
    assert(all.take(i as int) == all);
    Some(size)
}

/// Append the entry lines to a vector of bytes.
pub fn push_entries(out: &mut Vec<u8>, pairs: &Vec<KeyValue>)
    ensures
        final(out)@ == old(out)@ + entries_wire(entries_of(pairs@)),
{
    let ghost all = entries_of(pairs@);
    let mut i: usize = 0;
    while i < pairs.len()
        invariant
            i <= pairs.len(),
            all == entries_of(pairs@),
            out@ == old(out)@ + entries_wire(all.take(i as int)),
        decreases pairs.len() - i,
    {
        proof {
            lemma_entries_wire_take(all, i as int);
        }
        push_entry(out, pairs[i].key(), pairs[i].value());
        i += 1;
    }
    assert(all.take(i as int) == all);
}

/// Append the entry lines to a buffer.
pub fn put_entries(buf: &mut BytesMut, pairs: &Vec<KeyValue>)
    requires
        buffered(*old(buf)).len() + entries_wire(entries_of(pairs@)).len() <= isize::MAX,
    ensures
        buffered(*final(buf)) == buffered(*old(buf)) + entries_wire(entries_of(pairs@)),
{
    let ghost all = entries_of(pairs@);
    let mut i: usize = 0;
    while i < pairs.len()
        invariant
            i <= pairs.len(),
            all == entries_of(pairs@),
            buffered(*old(buf)).len() + entries_wire(all).len() <= isize::MAX,
            buffered(*buf) == buffered(*old(buf)) + entries_wire(all.take(i as int)),
        decreases pairs.len() - i,
    {
        proof {
            lemma_entries_wire_take(all, i as int);
            lemma_entries_wire_len_monotonic(all, i + 1);
        }
        put_entry(buf, pairs[i].key(), pairs[i].value());
        i += 1;
    }
    assert(all.take(i as int) == all);
}

impl KVLines {
    /// Create a new empty list.
    pub fn new() -> (r: Self)
        ensures
            r@ == Seq::<Entry>::empty(),
    {
        KVLines { lines: Vec::new() }
    }

    /// Reset all the lines.
    pub fn clear(&mut self)
        ensures
            final(self)@ == Seq::<Entry>::empty(),
    {
        self.lines.clear();
    }

    /// Get a reference to the inner vector of [`KeyValue`]'s.
    pub fn get_inner(&self) -> (r: &Vec<KeyValue>)
        ensures
            entries_of(r@) == self@,
    {
        &self.lines
    }

    /// Append a key/value entry to the end of the list.
    pub fn append_str(&mut self, key: &str, value: &str)
        ensures
            final(self)@ == old(self)@.push((key@, value@)),
    {
        self.lines.push(KeyValue::new(key, value));
    }

    /// Append a key/value entry to the end of the list, each part in the
    /// form in which it displays itself.
    pub fn append<T: Display, U: Display>(&mut self, key: T, value: U)
        ensures
            exists|k: String, v: String|
                #![trigger to_string_from_display_ensures::<T>(&key, k), to_string_from_display_ensures::<U>(&value, v)]
                {
                    &&& to_string_from_display_ensures::<T>(&key, k)
                    &&& to_string_from_display_ensures::<U>(&value, v)
                    &&& final(self)@ == old(self)@.push((k@, v@))
                },
    {
        let k = key.to_string();
        let v = value.to_string();
        self.append_str(k.as_str(), v.as_str());
    }

    /// Calculate the size of the buffer in serialized form.
    /// Each entry will be a newline terminated utf-8 line.
    /// Last line will be a single newline character.
    pub fn calc_buf_size(&self) -> (size: usize)
        requires
            frame_wire(self@).len() <= usize::MAX,
        ensures
            size == frame_wire(self@).len(),
    {
        match entries_size(&self.lines) {
            Some(n) => n + 1,
            None => 0,
        }
    }

    /// Serialize object into a `Vec<u8>` buffer suitable for transmission.
    pub fn serialize(&self) -> (r: Result<Vec<u8>, Error>)
        ensures
            r matches Ok(buf) && buf@ == frame_wire(self@),
    {
        let mut buf: Vec<u8> = Vec::new();
        push_entries(&mut buf, &self.lines);
        buf.push(NEWLINE);
        Ok(buf)
    }

    /// Write the list to a buffer.
    pub fn encoder_write(&self, buf: &mut BytesMut) -> (r: Result<(), Error>)
        requires
            buffered(*old(buf)).len() + frame_wire(self@).len() <= isize::MAX,
        ensures
            r is Ok,
            buffered(*final(buf)) == buffered(*old(buf)) + frame_wire(self@),
    {
        let size = self.calc_buf_size();
        buf.reserve(size);
        put_entries(buf, &self.lines);
        put_byte(buf, NEWLINE);
        Ok(())
    }

    /// Consume the list and return the key/value pairs as a `Vec<KeyValue>`.
    pub fn into_inner(self) -> (r: Vec<KeyValue>)
        ensures
            entries_of(r@) == self@,
    {
        self.lines
    }

    /// Show the list to a reader: `{k=v,k=v}`.
    pub fn to_string(&self) -> (s: String)
        ensures
            s@ == braced_text(self@),
    {
        braced(&self.lines)
    }
}

} // verus!
