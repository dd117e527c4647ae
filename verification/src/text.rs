//! Strings and characters: what the standard library decides about them, and
//! the small searches and comparisons that the buffers are built on.
use crate::err::{Error, ErrorView};
use vstd::prelude::*;
use vstd::std_specs::iter::IteratorSpec;
use vstd::string::*;
use vstd::utf8::*;

verus! {

/// Whether a character has the Unicode `Alphabetic` property.
pub uninterp spec fn char_is_alphabetic(c: char) -> bool;

/// Whether a character is numeric in the sense of Unicode.
pub uninterp spec fn char_is_numeric(c: char) -> bool;

/// A character is alphanumeric when it is alphabetic or numeric.
pub open spec fn char_is_alphanumeric(c: char) -> bool {
    char_is_alphabetic(c) || char_is_numeric(c)
}

/// `char::is_alphabetic` looks the character up in the Unicode tables; its
/// answer depends on the character alone and is named, not restated.
pub assume_specification[ char::is_alphabetic ](c: char) -> (b: bool)
    ensures
        b == char_is_alphabetic(c),
;

/// `char::is_alphanumeric` is documented to hold of the characters of which
/// `is_alphabetic` or `is_numeric` holds. What `is_numeric` answers is
/// looked up in the Unicode tables and named, not restated.
pub assume_specification[ char::is_alphanumeric ](c: char) -> (b: bool)
    ensures
        b == (char_is_alphabetic(c) || char_is_numeric(c)),
;

/// The ASCII punctuation characters: `!` to `/`, `:` to `@`, `[` to `` ` ``
/// and `{` to `~`.
pub open spec fn ascii_punctuation(c: char) -> bool {
    ||| 0x21 <= c as u32 <= 0x2f
    ||| 0x3a <= c as u32 <= 0x40
    ||| 0x5b <= c as u32 <= 0x60
    ||| 0x7b <= c as u32 <= 0x7e
}

/// `char::is_ascii_punctuation` is documented by the four ranges of
/// [`ascii_punctuation`].
pub assume_specification[ char::is_ascii_punctuation ](c: &char) -> (b: bool)
    ensures
        b == ascii_punctuation(*c),
;

/// The ASCII lower case form of a character; only `A` to `Z` change.
pub open spec fn ascii_lower(c: char) -> char {
    if 'A' <= c <= 'Z' {
        ((c as u32) + 32) as char
    } else {
        c
    }
}

/// A text with each character replaced by its ASCII lower case form.
pub open spec fn ascii_lowercase(s: Seq<char>) -> Seq<char> {
    Seq::new(s.len(), |i: int| ascii_lower(s[i]))
}

/// `str::to_ascii_lowercase` returns a copy in which `A` to `Z` are mapped to
/// `a` to `z` and every other character is kept.
pub assume_specification[ str::to_ascii_lowercase ](s: &str) -> (r: String)
    ensures
        r@ == ascii_lowercase(s@),
;

/// `core::str::Utf8Error`, which says where bytes stop being UTF-8. The
/// library only learns from it that they do.
#[verifier::external_type_specification]
#[verifier::external_body]
pub struct ExUtf8Error(core::str::Utf8Error);

/// `core::str::from_utf8` accepts exactly the well-formed UTF-8 byte
/// sequences and returns the same bytes as a string slice.
pub assume_specification[ core::str::from_utf8 ](v: &[u8]) -> (r: Result<
    &str,
    core::str::Utf8Error,
>)
    ensures
        r is Ok <==> valid_utf8(v@),
        r matches Ok(s) ==> s.spec_bytes() == v@,
;

/// `FromStr::from_str` of the requested type, with its error dropped. What
/// the type makes of a text is its own business: nothing is claimed.
#[verifier::external_body]
pub(crate) fn parse_value<T: core::str::FromStr>(s: &str) -> (r: Option<T>) {
    match T::from_str(s) {
        Ok(v) => Some(v),
        Err(_) => None,
    }
}

/// Walks the caller's collection and hands each item out as an owned string.
/// Which items come, and in what order, is up to the collection.
#[verifier::external_body]
pub(crate) fn collect_strings<I>(c: I) -> (r: Vec<String>) where
    I: IntoIterator,
    I::Item: AsRef<str>,
 {
    let mut sv = Vec::new();
    for o in c.into_iter() {
        sv.push(o.as_ref().to_string());
    }
    sv
}

/// The error that reports input which is not UTF-8.
pub open spec fn not_utf8() -> ErrorView {
    ErrorView::BadFormat("Unable to decode input as UTF8"@)
}

/// Two encodings are equal only if the texts are.
pub proof fn lemma_encoding_is_injective(a: Seq<char>, b: Seq<char>)
    requires
        encode_utf8(a) == encode_utf8(b),
    ensures
        a == b,
{
    encode_utf8_decode_utf8(a);
    encode_utf8_decode_utf8(b);
}

/// Read bytes as text. Succeeds exactly on well-formed UTF-8, and the text is
/// then the decoding of the bytes.
pub fn utf8(buf: &[u8]) -> (r: Result<&str, Error>)
    ensures
        r is Ok <==> valid_utf8(buf@),
        r matches Ok(s) ==> s@ == decode_utf8(buf@),
        r matches Err(e) ==> e@ == not_utf8(),
{
    match core::str::from_utf8(buf) {
        Ok(s) => {
            proof {
                encode_utf8_decode_utf8(s@);
            }
            Ok(s)
        },
        Err(_) => Err(Error::bad_format("Unable to decode input as UTF8")),
    }
}

/// Whether two string slices hold the same text.
pub fn str_eq(a: &str, b: &str) -> (r: bool)
    ensures
        r == (a@ == b@),
{
    let x = a.as_bytes();
    let y = b.as_bytes();
    if x.len() != y.len() {
        return false;
    }
    let mut i: usize = 0;
    while i < x.len()
        invariant
            i <= x.len(),
            x.len() == y.len(),
            x@ == a.spec_bytes(),
            y@ == b.spec_bytes(),
            forall|j: int| 0 <= j < i ==> x@[j] == y@[j],
        decreases x.len() - i,
    {
        if x[i] != y[i] {
            return false;
        }
        i += 1;
    }
    proof {
        assert(x@ =~= y@);
        lemma_encoding_is_injective(a@, b@);
    }
    true
}

/// The index of the first occurrence of `c` in `s`, or the length of `s`
/// where there is none.
pub open spec fn index_of(s: Seq<char>, c: char) -> int
    decreases s.len(),
{
    if s.len() == 0 {
        0
    } else if s[0] == c {
        0
    } else {
        1 + index_of(s.drop_first(), c)
    }
}

/// [`index_of`] is the least index that holds the character.
pub proof fn lemma_index_of(s: Seq<char>, c: char)
    ensures
        0 <= index_of(s, c) <= s.len(),
        index_of(s, c) < s.len() ==> s[index_of(s, c)] == c,
        forall|j: int| 0 <= j < index_of(s, c) ==> s[j] != c,
    decreases s.len(),
{
    if s.len() != 0 && s[0] != c {
        let t = s.drop_first();
        lemma_index_of(t, c);
        assert forall|j: int| 0 <= j < index_of(s, c) implies s[j] != c by {
            if j > 0 {
                assert(s[j] == t[j - 1]);
            }
        }
    }
}

/// An index that holds the character with none before it is [`index_of`].
pub proof fn lemma_index_of_is(s: Seq<char>, c: char, i: int)
    requires
        0 <= i <= s.len(),
        i < s.len() ==> s[i] == c,
        forall|j: int| 0 <= j < i ==> s[j] != c,
    ensures
        index_of(s, c) == i,
{
    lemma_index_of(s, c);
    let k = index_of(s, c);
    if k < i {
        assert(s[k] != c);
    }
}

/// Where `c` first occurs in `s`, counted in characters.
pub fn find_char(s: &str, c: char) -> (r: Option<usize>)
    ensures
        match r {
            Some(i) => i == index_of(s@, c) && i < s@.len(),
            None => index_of(s@, c) == s@.len(),
        },
{
    let n = s.unicode_len();
    let mut it = s.chars();
    let mut i: usize = 0;
    loop
        invariant
            it.obeys_prophetic_iter_laws(),
            i <= s@.len(),
            n == s@.len(),
            it.remaining() == s@.subrange(i as int, s@.len() as int),
            forall|j: int| 0 <= j < i ==> s@[j] != c,
        decreases s@.len() - i,
    {
        match it.next() {
            Some(x) => {
                if x == c {
                    proof {
                        lemma_index_of_is(s@, c, i as int);
                    }
                    return Some(i);
                }
                i = i + 1;
            },
            None => {
                proof {
                    lemma_index_of_is(s@, c, i as int);
                }
                return None;
            },
        }
    }
}

} // verus!
