//! What holds of the commands and of the literals, whatever they are given.

use vstd::prelude::*;
use crate::commands::{deleted, inserted, looked_up};
use crate::data::DataView;
use crate::database::DatabaseView;
use crate::error::{CommandErrorView, DecodeError};
use crate::key::{
    lemma_precedes_irreflexive, lemma_precedes_total, lemma_precedes_transitive, precedes,
};
use crate::literal::{
    decoded, is_capital, lemma_other_tag_absent, lemma_tag_letters, payload_of, plain, tag_of,
    written, Tag,
};
use crate::parse::{all_digits, bool_of, digits_of, i32_of, is_digit};
use crate::schema::SchemaView;
use crate::text::{
    lemma_without_absent, lemma_without_at_start, lemma_without_char, lemma_without_char_split,
    lemma_without_keeps_only, occurs, occurs_at, without,
};

verus! {

/// A value that was put under a key is the value that the key then shows.
pub proof fn law_insert_then_get(
    db: DatabaseView,
    schema_key: Seq<char>,
    key: Seq<char>,
    literal: Seq<char>,
    float: Option<u32>,
)
    requires
        db.index.contains_key(schema_key),
    ensures
        decoded(literal, float) matches Ok(value) ==> (inserted(
            db,
            schema_key,
            key,
            literal,
            float,
        ) matches Ok(after) && looked_up(after, schema_key, key) == Ok::<
            Option<DataView>,
            CommandErrorView,
        >(Some(value))),
{
}

/// Of two values put under one key, one after the other, the second stays
/// and nothing is left of the first: the database is what the second alone
/// would have made of it.
pub proof fn law_insert_overwrites(
    db: DatabaseView,
    schema_key: Seq<char>,
    key: Seq<char>,
    first: Seq<char>,
    first_float: Option<u32>,
    second: Seq<char>,
    second_float: Option<u32>,
)
    ensures
        inserted(db, schema_key, key, first, first_float) matches Ok(between) ==> inserted(
            between,
            schema_key,
            key,
            second,
            second_float,
        ) == inserted(db, schema_key, key, second, second_float),
{
    if let Ok(between) = inserted(db, schema_key, key, first, first_float) {
        if let Ok(value) = decoded(second, second_float) {
            let one = inserted(between, schema_key, key, second, second_float)->Ok_0;
            let other = inserted(db, schema_key, key, second, second_float)->Ok_0;
            assert(one.index[schema_key].data =~= other.index[schema_key].data);
            assert(one.index =~= other.index);
            assert(one =~= other);
        }
    }
}

/// A key whose field was removed shows nothing.
pub proof fn law_delete_then_get(db: DatabaseView, schema_key: Seq<char>, key: Seq<char>)
    requires
        db.index.contains_key(schema_key),
    ensures
        deleted(db, schema_key, key) matches Ok(after) && looked_up(after, schema_key, key) == Ok::<
            Option<DataView>,
            CommandErrorView,
        >(None),
{
}

/// Removing a field that is not there is no failure and changes nothing.
pub proof fn law_delete_absent_changes_nothing(
    db: DatabaseView,
    schema_key: Seq<char>,
    key: Seq<char>,
)
    requires
        db.index.contains_key(schema_key),
        !db.index[schema_key].data.contains_key(key),
    ensures
        deleted(db, schema_key, key) == Ok::<DatabaseView, CommandErrorView>(db),
{
    let after = deleted(db, schema_key, key)->Ok_0;
    assert(after.index[schema_key].data =~= db.index[schema_key].data);
    assert(after.index[schema_key] =~= db.index[schema_key]);
    assert(after.index =~= db.index);
    assert(after =~= db);
}

/// A command on a schema that the database does not have fails and names the
/// schema, whatever else it was given.
pub proof fn law_missing_schema_is_told(
    db: DatabaseView,
    schema_key: Seq<char>,
    key: Seq<char>,
    literal: Seq<char>,
    float: Option<u32>,
)
    requires
        !db.index.contains_key(schema_key),
    ensures
        inserted(db, schema_key, key, literal, float) == Err::<DatabaseView, CommandErrorView>(
            CommandErrorView::MissingSchema(schema_key),
        ),
        looked_up(db, schema_key, key) == Err::<Option<DataView>, CommandErrorView>(
            CommandErrorView::MissingSchema(schema_key),
        ),
        deleted(db, schema_key, key) == Err::<DatabaseView, CommandErrorView>(
            CommandErrorView::MissingSchema(schema_key),
        ),
{
}

/// A database that was just made is empty, and one that has been given a
/// schema is not.
pub proof fn law_empty_until_first_schema(
    path: Seq<char>,
    db: DatabaseView,
    key: Seq<char>,
    schema: SchemaView,
)
    ensures
        DatabaseView::empty(path).is_empty(),
        !db.with_schema(key, schema).is_empty(),
{
    assert(db.with_schema(key, schema).index.contains_key(key));
}

/// The tags are looked for in the order `Bool`, `Int`, `Float`, `Text`, and
/// the first that stands in the literal decides, wherever it stands: a
/// literal that holds an earlier tag is never taken for a value of a later
/// kind. So a text whose payload holds `Int` is read as an integer, or not
/// at all.
pub proof fn law_earlier_tag_decides(literal: Seq<char>, float: Option<u32>)
    ensures
        occurs(literal, Tag::Bool.text()) ==> (decoded(literal, float) matches Ok(
            DataView::Bool(_),
        ) || decoded(literal, float) == Err::<DataView, DecodeError>(DecodeError::NotABool)),
        !occurs(literal, Tag::Bool.text()) && occurs(literal, Tag::Int.text()) ==> (decoded(
            literal,
            float,
        ) matches Ok(DataView::Int(_)) || decoded(literal, float) == Err::<DataView, DecodeError>(
            DecodeError::NotAnInt,
        )),
        !occurs(literal, Tag::Bool.text()) && !occurs(literal, Tag::Int.text()) && occurs(
            literal,
            Tag::Float.text(),
        ) ==> (decoded(literal, float) matches Ok(DataView::Float(_)) || decoded(literal, float)
            == Err::<DataView, DecodeError>(DecodeError::NotAFloat)),
        tag_of(literal) == Some(Tag::Text) ==> decoded(literal, float) == Ok::<
            DataView,
            DecodeError,
        >(DataView::Text(payload_of(literal, Tag::Text))),
        tag_of(literal) is None ==> decoded(literal, float) == Err::<DataView, DecodeError>(
            DecodeError::InvalidType,
        ),
{
}

/// Keys are in a strict total order: of two keys either they are the same,
/// or the first comes before the second, or the second before the first, and
/// never two of these at once.
pub proof fn law_keys_are_ordered(a: Seq<char>, b: Seq<char>)
    ensures
        a == b || precedes(a, b) || precedes(b, a),
        !(a == b && precedes(a, b)),
        !(a == b && precedes(b, a)),
        !(precedes(a, b) && precedes(b, a)),
{
    lemma_precedes_total(a, b);
    lemma_precedes_irreflexive(a);
    if precedes(a, b) && precedes(b, a) {
        lemma_precedes_transitive(a, b, a);
    }
}

/// No payload holds a parenthesis: every `(` and every `)` of the literal is
/// taken out, not only a pair around the payload.
pub proof fn law_payload_has_no_parenthesis(literal: Seq<char>, tag: Tag, i: int)
    requires
        0 <= i < payload_of(literal, tag).len(),
    ensures
        payload_of(literal, tag)[i] != '(',
        payload_of(literal, tag)[i] != ')',
{
    reveal_strlit("(");
    reveal_strlit(")");
    let opened = without(literal, "("@);
    let untagged = without(opened, tag.text());
    assert("("@ =~= seq!['(']);
    assert(")"@ =~= seq![')']);
    lemma_without_char(untagged, ')', i);
    lemma_without_keeps_only(untagged, ")"@, i);
    let c = payload_of(literal, tag)[i];
    let j = choose|j: int| 0 <= j < untagged.len() && untagged[j] == c;
    lemma_without_keeps_only(opened, tag.text(), j);
    let k = choose|k: int| 0 <= k < opened.len() && opened[k] == c;
    lemma_without_char(literal, '(', k);
}

/// A literal written as it is meant to be, a tag and a plain payload in
/// parentheses, reads back as what was written: its tag decides, and its
/// payload is what stood in the parentheses.
pub proof fn law_written_literal_reads_back(tag: Tag, payload: Seq<char>)
    requires
        plain(payload),
    ensures
        tag_of(written(tag, payload)) == Some(tag),
        payload_of(written(tag, payload), tag) == payload,
{
    let t = tag.text();
    let w = written(tag, payload);
    let open = seq!['('];
    let close = seq![')'];
    let tail = payload + close;
    lemma_tag_letters(tag);
    reveal_strlit("(");
    reveal_strlit(")");
    assert("("@ =~= open);
    assert(")"@ =~= close);

    // The tag that decides.
    assert(occurs_at(w, t, 0)) by {
        assert(w.subrange(0, t.len() as int) =~= t);
    }
    if tag != Tag::Bool {
        lemma_other_tag_absent(tag, Tag::Bool, payload);
    }
    if tag != Tag::Int {
        lemma_other_tag_absent(tag, Tag::Int, payload);
    }
    if tag != Tag::Float {
        lemma_other_tag_absent(tag, Tag::Float, payload);
    }

    // The opening parenthesis goes.
    assert(w =~= t + open + tail);
    assert(!t.contains('('));
    lemma_without_char_split(t, '(', tail);
    assert(!occurs(tail, open)) by {
        assert forall|i: int| !occurs_at(tail, open, i) by {
            if occurs_at(tail, open, i) {
                assert(tail.subrange(i, i + 1)[0] == tail[i]);
                if i < payload.len() {
                    assert(payload.contains(payload[i]));
                }
            }
        }
    }
    lemma_without_absent(tail, open);
    assert(without(w, open) == t + tail);

    // The tag goes.
    lemma_without_at_start(t, tail);
    assert(!occurs(tail, t)) by {
        assert forall|i: int| !occurs_at(tail, t, i) by {
            if occurs_at(tail, t, i) {
                let found = tail.subrange(i, i + t.len());
                if i + t.len() <= payload.len() {
                    assert(payload.subrange(i, i + t.len()) =~= found);
                    assert(occurs_at(payload, t, i));
                } else {
                    let j = payload.len() - i;
                    assert(found[j] == tail[i + j]);
                    assert(t[j] == ')');
                }
            }
        }
    }
    lemma_without_absent(tail, t);
    assert(without(t + tail, t) == tail);

    // The closing parenthesis goes.
    assert(tail =~= payload + close + Seq::<char>::empty());
    lemma_without_char_split(payload, ')', Seq::<char>::empty());
    assert(payload + without(Seq::<char>::empty(), close) =~= payload);
}

/// What a literal written as it is meant to be decodes to: a truth value or
/// an integer where the payload spells one, the float that the payload was
/// read as, and for a text the payload itself.
pub proof fn law_written_literals_decode(payload: Seq<char>, float: Option<u32>)
    requires
        plain(payload),
    ensures
        decoded(written(Tag::Bool, payload), float) == match bool_of(payload) {
            Some(b) => Ok::<DataView, DecodeError>(DataView::Bool(b)),
            None => Err(DecodeError::NotABool),
        },
        decoded(written(Tag::Int, payload), float) == match i32_of(payload) {
            Some(i) => Ok::<DataView, DecodeError>(DataView::Int(i)),
            None => Err(DecodeError::NotAnInt),
        },
        decoded(written(Tag::Float, payload), float) == match float {
            Some(bits) => Ok::<DataView, DecodeError>(DataView::Float(bits)),
            None => Err(DecodeError::NotAFloat),
        },
        decoded(written(Tag::Text, payload), float) == Ok::<DataView, DecodeError>(
            DataView::Text(payload),
        ),
{
    law_written_literal_reads_back(Tag::Bool, payload);
    law_written_literal_reads_back(Tag::Int, payload);
    law_written_literal_reads_back(Tag::Float, payload);
    law_written_literal_reads_back(Tag::Text, payload);
}

/// An integer in parentheses behind the tag `Int` decodes to that integer:
/// `Int(5)` to five, `Int(-12)` to minus twelve.
pub proof fn law_integer_literal_decodes(numeral: Seq<char>, float: Option<u32>)
    requires
        i32_of(numeral) is Some,
    ensures
        decoded(written(Tag::Int, numeral), float) == Ok::<DataView, DecodeError>(
            DataView::Int(i32_of(numeral)->Some_0),
        ),
{
    let digits = digits_of(numeral);
    assert(all_digits(digits));
    assert forall|i: int| 0 <= i < numeral.len() implies is_digit(#[trigger] numeral[i])
        || numeral[i] == '-' || numeral[i] == '+' by {
        if digits.len() == numeral.len() {
            assert(is_digit(digits[i]));
        } else if i > 0 {
            assert(numeral[i] == digits[i - 1]);
            assert(is_digit(digits[i - 1]));
        }
    }
    assert(plain(numeral)) by {
        assert forall|tag: Tag, i: int| !occurs_at(numeral, tag.text(), i) by {
            lemma_tag_letters(tag);
            if occurs_at(numeral, tag.text(), i) {
                assert(numeral.subrange(i, i + tag.text().len())[0] == numeral[i]);
                assert(is_capital(numeral[i]));
            }
        }
        assert forall|c: char| c == '(' || c == ')' implies !numeral.contains(c) by {
            if numeral.contains(c) {
                let i = choose|i: int| 0 <= i < numeral.len() && numeral[i] == c;
                assert(is_digit(numeral[i]) || numeral[i] == '-' || numeral[i] == '+');
            }
        }
        assert(!numeral.contains('('));
        assert(!numeral.contains(')'));
    }
    law_written_literals_decode(numeral, float);
}

} // verus!
