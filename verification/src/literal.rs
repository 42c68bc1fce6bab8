//! Tagged literals: a value written as text, such as `Int(42)` or `Bool(true)`.
//!
//! A literal names its kind by a tag that stands anywhere in it. The tags are
//! looked for in a fixed order, `Bool`, `Int`, `Float`, `Text`, and the first
//! one found decides. The payload is the literal with every `(`, every
//! occurrence of that tag and every `)` taken out, in this order.

use vstd::prelude::*;
use crate::data::{Data, DataView};
use crate::error::DecodeError;
use crate::parse::{bool_of, i32_of, parse_bool, parse_i32};
use crate::text::{chars_of, contains, occurs, occurs_at, remove_all, string_of, without};

verus! {

/// The kind that a literal names.
#[derive(Debug, Clone, Copy, PartialEq, Eq)]
pub enum Tag {
    Bool,
    Int,
    Float,
    Text,
}

impl Tag {
    /// The tag as it is written.
    pub open spec fn text(self) -> Seq<char> {
        match self {
            Tag::Bool => "Bool"@,
            Tag::Int => "Int"@,
            Tag::Float => "Float"@,
            Tag::Text => "Text"@,
        }
    }

    /// The tag as it is written.
    pub fn chars(&self) -> (out: Vec<char>)
        ensures
            out@ == self.text(),
    {
        match self {
            Tag::Bool => chars_of("Bool"),
            Tag::Int => chars_of("Int"),
            Tag::Float => chars_of("Float"),
            Tag::Text => chars_of("Text"),
        }
    }
}

/// The tag that decides what `value` is: the first of `Bool`, `Int`, `Float`,
/// `Text` that stands in it.
pub open spec fn tag_of(value: Seq<char>) -> Option<Tag> {
    if occurs(value, Tag::Bool.text()) {
        Some(Tag::Bool)
    } else if occurs(value, Tag::Int.text()) {
        Some(Tag::Int)
    } else if occurs(value, Tag::Float.text()) {
        Some(Tag::Float)
    } else if occurs(value, Tag::Text.text()) {
        Some(Tag::Text)
    } else {
        None
    }
}

/// What is left of `value` under `tag`: every `(` taken out, then every
/// occurrence of the tag, then every `)`.
pub open spec fn payload_of(value: Seq<char>, tag: Tag) -> Seq<char> {
    without(without(without(value, "("@), tag.text()), ")"@)
}

/// A payload as it is meant to be written: it holds no parenthesis and none
/// of the four tags.
pub open spec fn plain(payload: Seq<char>) -> bool {
    &&& !payload.contains('(')
    &&& !payload.contains(')')
    &&& !occurs(payload, Tag::Bool.text())
    &&& !occurs(payload, Tag::Int.text())
    &&& !occurs(payload, Tag::Float.text())
    &&& !occurs(payload, Tag::Text.text())
}

/// The literal as it is meant to be written: the tag, and the payload in parentheses.
pub open spec fn written(tag: Tag, payload: Seq<char>) -> Seq<char> {
    tag.text() + seq!['('] + payload + seq![')']
}

/// A capital letter of the Latin alphabet.
pub open spec fn is_capital(c: char) -> bool {
    'A' <= c && c <= 'Z'
}

/// How the tags are spelt: a capital letter of its own first, then small
/// letters, and no parenthesis.
pub proof fn lemma_tag_letters(tag: Tag)
    ensures
        3 <= tag.text().len() <= 5,
        is_capital(tag.text()[0]),
        forall|i: int| 1 <= i < tag.text().len() ==> !is_capital(#[trigger] tag.text()[i]),
        forall|i: int|
            0 <= i < tag.text().len() ==> (#[trigger] tag.text()[i]) != '(' && tag.text()[i] != ')',
        forall|other: Tag| other != tag ==> (#[trigger] other.text())[0] != tag.text()[0],
{
    reveal_strlit("Bool");
    reveal_strlit("Int");
    reveal_strlit("Float");
    reveal_strlit("Text");
    assert("Bool"@[0] == 'B' && "Bool"@[1] == 'o' && "Bool"@[2] == 'o' && "Bool"@[3] == 'l');
    assert("Int"@[0] == 'I' && "Int"@[1] == 'n' && "Int"@[2] == 't');
    assert("Float"@[0] == 'F' && "Float"@[1] == 'l' && "Float"@[2] == 'o' && "Float"@[3] == 'a'
        && "Float"@[4] == 't');
    assert("Text"@[0] == 'T' && "Text"@[1] == 'e' && "Text"@[2] == 'x' && "Text"@[3] == 't');
}

/// In a literal written as it is meant to be, no tag stands but its own.
pub proof fn lemma_other_tag_absent(tag: Tag, other: Tag, payload: Seq<char>)
    requires
        plain(payload),
        other != tag,
    ensures
        !occurs(written(tag, payload), other.text()),
{
    let w = written(tag, payload);
    let t = tag.text();
    let o = other.text();
    lemma_tag_letters(tag);
    lemma_tag_letters(other);
    assert forall|i: int| !occurs_at(w, o, i) by {
        if occurs_at(w, o, i) {
            let found = w.subrange(i, i + o.len());
            assert(found[0] == w[i]);
            if i < t.len() {
                assert(w[i] == t[i]);
            } else if i == t.len() {
                assert(w[i] == '(');
            } else if i + o.len() <= t.len() + 1 + payload.len() {
                let k = i - t.len() - 1;
                assert(payload.subrange(k, k + o.len()) =~= found);
                assert(occurs_at(payload, o, k));
            } else {
                let j = t.len() + 1 + payload.len() - i;
                assert(found[j] == w[i + j]);
                assert(w[i + j] == ')');
                assert(o[j] == ')');
            }
        }
    }
}

/// What `value` decodes to. `float` is what its payload reads as when taken
/// for a 32-bit float, as a bit pattern; it counts under the tag `Float` only.
pub open spec fn decoded(value: Seq<char>, float: Option<u32>) -> Result<DataView, DecodeError> {
    match tag_of(value) {
        Some(Tag::Bool) => match bool_of(payload_of(value, Tag::Bool)) {
            Some(b) => Ok(DataView::Bool(b)),
            None => Err(DecodeError::NotABool),
        },
        Some(Tag::Int) => match i32_of(payload_of(value, Tag::Int)) {
            Some(i) => Ok(DataView::Int(i)),
            None => Err(DecodeError::NotAnInt),
        },
        Some(Tag::Float) => match float {
            Some(bits) => Ok(DataView::Float(bits)),
            None => Err(DecodeError::NotAFloat),
        },
        Some(Tag::Text) => Ok(DataView::Text(payload_of(value, Tag::Text))),
        None => Err(DecodeError::InvalidType),
    }
}

/// A decoding as contracts see it.
pub open spec fn decoding_view(r: Result<Data, DecodeError>) -> Result<DataView, DecodeError> {
    match r {
        Ok(d) => Ok(d@),
        Err(e) => Err(e),
    }
}

/// The tag that decides what `value` is.
pub fn tag(value: &str) -> (r: Option<Tag>)
    ensures
        r == tag_of(value@),
{
    let chars = chars_of(value);
    if contains(&chars, &Tag::Bool.chars()) {
        Some(Tag::Bool)
    } else if contains(&chars, &Tag::Int.chars()) {
        Some(Tag::Int)
    } else if contains(&chars, &Tag::Float.chars()) {
        Some(Tag::Float)
    } else if contains(&chars, &Tag::Text.chars()) {
        Some(Tag::Text)
    } else {
        None
    }
}

/// The payload of `value` under `tag`, as characters.
fn payload_chars(value: &str, tag: Tag) -> (out: Vec<char>)
    ensures
        out@ == payload_of(value@, tag),
{
    let chars = chars_of(value);
    let opened = remove_all(&chars, &chars_of("("));
    let untagged = remove_all(&opened, &tag.chars());
    remove_all(&untagged, &chars_of(")"))
}

/// The payload of `value` under `tag`.
pub fn payload(value: &str, tag: Tag) -> (out: String)
    ensures
        out@ == payload_of(value@, tag),
{
    string_of(&payload_chars(value, tag))
}

/// The payload that is to be read as a 32-bit float, where `value` is tagged
/// as one; nothing for a literal of another kind.
pub fn float_payload(value: &str) -> (out: Option<String>)
    ensures
        out is Some == (tag_of(value@) == Some(Tag::Float)),
        out matches Some(p) ==> p@ == payload_of(value@, Tag::Float),
{
    match tag(value) {
        Some(Tag::Float) => Some(payload(value, Tag::Float)),
        _ => None,
    }
}

/// Decodes a tagged literal. `float` is what the payload reads as when taken
/// for a 32-bit float, as a bit pattern, and `None` where it does not read as
/// one; it is looked at for a literal tagged `Float` and for no other.
pub fn decode(value: &str, float: Option<u32>) -> (r: Result<Data, DecodeError>)
    ensures
        decoding_view(r) == decoded(value@, float),
{
    match tag(value) {
        Some(Tag::Bool) => match parse_bool(&payload_chars(value, Tag::Bool)) {
            Some(b) => Ok(Data::Bool(b)),
            None => Err(DecodeError::NotABool),
        },
        Some(Tag::Int) => match parse_i32(&payload_chars(value, Tag::Int)) {
            Some(i) => Ok(Data::Int(i)),
            None => Err(DecodeError::NotAnInt),
        },
        Some(Tag::Float) => match float {
            Some(bits) => Ok(Data::Float(bits)),
            None => Err(DecodeError::NotAFloat),
        },
        Some(Tag::Text) => Ok(Data::Text(payload(value, Tag::Text))),
        None => Err(DecodeError::InvalidType),
    }
}

} // verus!
