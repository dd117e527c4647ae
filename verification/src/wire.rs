//! The wire format: how entries and buffers are laid out as bytes, and how a
//! received line is read back.
use crate::buf::{buffered, put_byte};
use crate::text::{find_char, index_of, lemma_index_of};
use bytes::{BufMut, BytesMut};
use vstd::prelude::*;
use vstd::string::*;
use vstd::utf8::*;

verus! {

/// The byte that ends every line.
pub const NEWLINE: u8 = 10;

/// The byte that may precede the line end and is then dropped.
pub const CARRIAGE_RETURN: u8 = 13;

/// The byte that parts a key from its value.
pub const SPACE: u8 = 32;

/// A key with its value, both as text.
pub type Entry = (Seq<char>, Seq<char>);

/// One entry on the wire: key, space, value, line end.
pub open spec fn entry_wire(e: Entry) -> Seq<u8> {
    encode_utf8(e.0) + seq![SPACE] + encode_utf8(e.1) + seq![NEWLINE]
}

/// The entries on the wire, one line each, in their order.
pub open spec fn entries_wire(entries: Seq<Entry>) -> Seq<u8>
    decreases entries.len(),
{
    if entries.len() == 0 {
        Seq::empty()
    } else {
        entries_wire(entries.drop_last()) + entry_wire(entries.last())
    }
}

/// A frame of entries: the lines, then one empty line.
pub open spec fn frame_wire(entries: Seq<Entry>) -> Seq<u8> {
    entries_wire(entries) + seq![NEWLINE]
}

/// A telegram frame: the topic line, the entry lines, then one empty line.
pub open spec fn telegram_wire(topic: Seq<char>, entries: Seq<Entry>) -> Seq<u8> {
    encode_utf8(topic) + seq![NEWLINE] + frame_wire(entries)
}

/// The entries as a reader sees them: `k=v`, joined by commas.
pub open spec fn entries_text(entries: Seq<Entry>) -> Seq<char>
    decreases entries.len(),
{
    if entries.len() == 0 {
        Seq::empty()
    } else if entries.len() == 1 {
        entries[0].0 + seq!['='] + entries[0].1
    } else {
        entries_text(entries.drop_last()) + seq![','] + entries.last().0 + seq!['=']
            + entries.last().1
    }
}

/// The entries between braces, as a buffer shows itself to a reader.
pub open spec fn braced_text(entries: Seq<Entry>) -> Seq<char> {
    seq!['{'] + entries_text(entries) + seq!['}']
}

/// The wire form of a prefix grows by one line with each entry.
pub proof fn lemma_entries_wire_take(entries: Seq<Entry>, i: int)
    requires
        0 <= i < entries.len(),
    ensures
        entries_wire(entries.take(i + 1)) == entries_wire(entries.take(i)) + entry_wire(
            entries[i],
        ),
{
    assert(entries.take(i + 1).drop_last() == entries.take(i));
}

/// The wire form of a prefix is no longer than that of the whole.
pub proof fn lemma_entries_wire_len_monotonic(entries: Seq<Entry>, i: int)
    requires
        0 <= i <= entries.len(),
    ensures
        entries_wire(entries.take(i)).len() <= entries_wire(entries).len(),
    decreases entries.len() - i,
{
    if i < entries.len() {
        lemma_entries_wire_take(entries, i);
        lemma_entries_wire_len_monotonic(entries, i + 1);
    } else {
        assert(entries.take(i) == entries);
    }
}

/// The first index in `[from, to)` that holds a line end, or `to` where
/// there is none.
pub open spec fn first_newline(bytes: Seq<u8>, from: int, to: int) -> int
    decreases to - from,
{
    if from >= to {
        to
    } else if bytes[from] == NEWLINE {
        from
    } else {
        first_newline(bytes, from + 1, to)
    }
}

/// What a look for the next line finds in a buffer.
pub enum Scan {
    /// A line of this many bytes, its line end included.
    Line(int),
    /// No line end within the limit, and more bytes than a line may have.
    TooLong,
    /// No line end yet; this many bytes have been searched.
    Partial(int),
}

/// How far a search for the line end goes: one byte past the longest line,
/// or to the end of the buffer.
pub open spec fn search_end(len: int, max: int) -> int {
    if max + 1 < len {
        max + 1
    } else {
        len
    }
}

/// Look for the next line in `bytes`, of which the first `cursor` bytes were
/// searched before, where a line may have `max` bytes.
pub open spec fn scan(bytes: Seq<u8>, cursor: int, max: int) -> Scan {
    let end = search_end(bytes.len() as int, max);
    let at = first_newline(bytes, cursor, end);
    if at < end {
        Scan::Line(at + 1)
    } else if bytes.len() > max {
        Scan::TooLong
    } else {
        Scan::Partial(end)
    }
}

/// A line without the carriage return that may end it.
pub open spec fn strip_cr(line: Seq<u8>) -> Seq<u8> {
    if line.len() > 0 && line.last() == CARRIAGE_RETURN {
        line.drop_last()
    } else {
        line
    }
}

/// The bytes of the first line of `bytes`, which takes `n` bytes with its
/// line end: the line end is dropped, and a carriage return before it.
pub open spec fn line_body(bytes: Seq<u8>, n: int) -> Seq<u8> {
    strip_cr(bytes.subrange(0, n - 1))
}

/// A line as key and value: what stands before its first space, and all
/// that stands after it. A line without a space gives no entry.
pub open spec fn split_entry(text: Seq<char>) -> Option<Entry> {
    let i = index_of(text, ' ');
    if 0 <= i < text.len() {
        Some((text.take(i), text.skip(i + 1)))
    } else {
        None
    }
}

/// [`first_newline`] is the least index in the range that holds a line end.
pub proof fn lemma_first_newline(bytes: Seq<u8>, from: int, to: int)
    requires
        from <= to,
    ensures
        from <= first_newline(bytes, from, to) <= to,
        first_newline(bytes, from, to) < to ==> bytes[first_newline(bytes, from, to)] == NEWLINE,
        forall|j: int| from <= j < first_newline(bytes, from, to) ==> bytes[j] != NEWLINE,
    decreases to - from,
{
    if from < to && bytes[from] != NEWLINE {
        lemma_first_newline(bytes, from + 1, to);
    }
}

/// An index that holds a line end, with none before it in the range, is
/// [`first_newline`].
pub proof fn lemma_first_newline_is(bytes: Seq<u8>, from: int, to: int, at: int)
    requires
        from <= at <= to,
        at < to ==> bytes[at] == NEWLINE,
        forall|j: int| from <= j < at ==> bytes[j] != NEWLINE,
    ensures
        first_newline(bytes, from, to) == at,
{
    lemma_first_newline(bytes, from, to);
    let k = first_newline(bytes, from, to);
    if k < at {
        assert(bytes[k] != NEWLINE);
    }
}

/// Remove the carriage return that may end a line.
pub fn without_carriage_return(s: &[u8]) -> (r: &[u8])
    ensures
        r@ == strip_cr(s@),
{
    let n = s.len();
    if n > 0 && s[n - 1] == CARRIAGE_RETURN {
        vstd::slice::slice_subrange(s, 0, n - 1)
    } else {
        s
    }
}

/// Split a line at its first space into key and value.
pub fn split_line(line: &str) -> (r: Option<(&str, &str)>)
    ensures
        match r {
            Some((k, v)) => split_entry(line@) == Some((k@, v@)),
            None => split_entry(line@) is None,
        },
{
    let n = line.unicode_len();
    proof {
        lemma_index_of(line@, ' ');
    }
    match find_char(line, ' ') {
        Some(i) => {
            let k = line.substring_char(0, i);
            let v = line.substring_char(i + 1, n);
            assert(k@ == line@.take(i as int));
            assert(v@ == line@.skip(i + 1));
            Some((k, v))
        },
        None => None,
    }
}

/// Append a slice to a vector of bytes.
pub fn push_bytes(out: &mut Vec<u8>, src: &[u8])
    ensures
        final(out)@ == old(out)@ + src@,
{
    let mut i: usize = 0;
    while i < src.len()
        invariant
            i <= src.len(),
            out@ == old(out)@ + src@.subrange(0, i as int),
        decreases src.len() - i,
    {
        out.push(src[i]);
        i += 1;
    }
    assert(src@.subrange(0, i as int) == src@);
}

/// Append one entry line to a vector of bytes.
pub fn push_entry(out: &mut Vec<u8>, key: &str, value: &str)
    ensures
        final(out)@ == old(out)@ + entry_wire((key@, value@)),
{
    push_bytes(out, key.as_bytes());
    out.push(SPACE);
    push_bytes(out, value.as_bytes());
    out.push(NEWLINE);
}

/// Append one entry line to a buffer.
pub fn put_entry(buf: &mut BytesMut, key: &str, value: &str)
    requires
        buffered(*old(buf)).len() + entry_wire((key@, value@)).len() <= isize::MAX,
    ensures
        buffered(*final(buf)) == buffered(*old(buf)) + entry_wire((key@, value@)),
{
    buf.put_slice(key.as_bytes());
    put_byte(buf, SPACE);
    buf.put_slice(value.as_bytes());
    put_byte(buf, NEWLINE);
}

/// The number of bytes that one entry line takes, if a `usize` can hold it.
pub fn entry_size(key: &str, value: &str) -> (n: Option<usize>)
    ensures
        match n {
            Some(n) => n == entry_wire((key@, value@)).len(),
            None => entry_wire((key@, value@)).len() > usize::MAX,
        },
{
    let k = key.as_bytes().len();
    let v = value.as_bytes().len();
    match k.checked_add(v) {
        Some(kv) => kv.checked_add(2),
        None => None,
    }
}

} // verus!
