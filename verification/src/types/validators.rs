//! The rules for topic names and parameter keys.
use crate::err::{Error, ErrorView};
use crate::text::{ascii_punctuation, char_is_alphabetic, char_is_alphanumeric};
use vstd::prelude::*;
use vstd::std_specs::iter::IteratorSpec;
use vstd::string::*;

verus! {

/// A topic starts with an alphabetic character.
pub open spec fn topic_leading_char(c: char) -> bool {
    char_is_alphabetic(c)
}

/// After its first character a topic holds alphanumerics, `_` and `-`.
pub open spec fn topic_char(c: char) -> bool {
    char_is_alphanumeric(c) || c == '_' || c == '-'
}

/// A key holds alphanumerics and ASCII punctuation.
pub open spec fn key_char(c: char) -> bool {
    char_is_alphanumeric(c) || ascii_punctuation(c)
}

/// A topic is valid when it is not empty, starts with a leading character
/// and goes on with topic characters only.
pub open spec fn valid_topic(s: Seq<char>) -> bool {
    &&& s.len() > 0
    &&& topic_leading_char(s[0])
    &&& forall|i: int| 1 <= i < s.len() ==> topic_char(#[trigger] s[i])
}

/// A key is valid when it is not empty and holds key characters only.
pub open spec fn valid_key(s: Seq<char>) -> bool {
    &&& s.len() > 0
    &&& forall|i: int| 0 <= i < s.len() ==> key_char(#[trigger] s[i])
}

/// What [`validate_topic`] answers: the first rule that a topic breaks, or
/// nothing.
pub open spec fn topic_verdict(s: Seq<char>) -> Option<ErrorView> {
    if s.len() == 0 {
        Some(ErrorView::BadFormat("Empty or broken topic"@))
    } else if !topic_leading_char(s[0]) {
        Some(ErrorView::BadFormat("Invalid leading topic character"@))
    } else if !valid_topic(s) {
        Some(ErrorView::BadFormat("Invalid topic character"@))
    } else {
        None
    }
}

/// What [`validate_param_key`] answers: the rule that a key breaks, or
/// nothing.
pub open spec fn key_verdict(s: Seq<char>) -> Option<ErrorView> {
    if s.len() == 0 {
        Some(ErrorView::BadFormat("Empty or broken key"@))
    } else if !valid_key(s) {
        Some(ErrorView::BadFormat("Invalid key character"@))
    } else {
        None
    }
}

/// Validation succeeds on the valid topics and on no others.
pub proof fn lemma_topic_verdict(s: Seq<char>)
    ensures
        topic_verdict(s) is None <==> valid_topic(s),
{
}

/// Validation succeeds on the valid keys and on no others.
pub proof fn lemma_key_verdict(s: Seq<char>)
    ensures
        key_verdict(s) is None <==> valid_key(s),
{
}

fn is_topic_leading_char(c: char) -> (b: bool)
    ensures
        b == topic_leading_char(c),
{
    c.is_alphabetic()
}

fn is_topic_char(c: char) -> (b: bool)
    ensures
        b == topic_char(c),
{
    c.is_alphanumeric() || c == '_' || c == '-'
}

fn is_key_char(c: char) -> (b: bool)
    ensures
        b == key_char(c),
{
    c.is_alphanumeric() || c.is_ascii_punctuation()
}

/// Make sure that a topic string is valid.
pub fn validate_topic(topic: &str) -> (r: Result<(), Error>)
    ensures
        r is Ok <==> valid_topic(topic@),
        match r {
            Ok(_) => topic_verdict(topic@) is None,
            Err(e) => topic_verdict(topic@) == Some(e@),
        },
{
    let mut chars = topic.chars();
    match chars.next() {
        Some(c) => {
            if !is_topic_leading_char(c) {
                return Err(Error::bad_format("Invalid leading topic character"));
            }
        },
        None => {
            return Err(Error::bad_format("Empty or broken topic"));
        },
    }
    let ghost mut seen: int = 1;
    loop
        invariant
            chars.obeys_prophetic_iter_laws(),
            1 <= seen <= topic@.len(),
            topic_leading_char(topic@[0]),
            chars.remaining() == topic@.subrange(seen, topic@.len() as int),
            forall|j: int| 1 <= j < seen ==> topic_char(#[trigger] topic@[j]),
        decreases topic@.len() - seen,
    {
        match chars.next() {
            Some(c) => {
                if !is_topic_char(c) {
                    assert(!topic_char(topic@[seen]));
                    return Err(Error::bad_format("Invalid topic character"));
                }
                proof {
                    seen = seen + 1;
                }
            },
            None => {
                return Ok(());
            },
        }
    }
}

/// Make sure that a parameter key is valid.
pub fn validate_param_key(key: &str) -> (r: Result<(), Error>)
    ensures
        r is Ok <==> valid_key(key@),
        match r {
            Ok(_) => key_verdict(key@) is None,
            Err(e) => key_verdict(key@) == Some(e@),
        },
{
    let mut chars = key.chars();
    let ghost mut seen: int = 0;
    loop
        invariant
            chars.obeys_prophetic_iter_laws(),
            0 <= seen <= key@.len(),
            chars.remaining() == key@.subrange(seen, key@.len() as int),
            forall|j: int| 0 <= j < seen ==> key_char(#[trigger] key@[j]),
        decreases key@.len() - seen,
    {
        match chars.next() {
            Some(c) => {
                if !is_key_char(c) {
                    assert(!key_char(key@[seen]));
                    return Err(Error::bad_format("Invalid key character"));
                }
                proof {
                    seen = seen + 1;
                }
            },
            None => {
                if key.is_empty() {
                    return Err(Error::bad_format("Empty or broken key"));
                }
                return Ok(());
            },
        }
    }
}

} // verus!
