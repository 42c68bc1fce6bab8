use bibi_db::error::DecodeError;
use bibi_db::literal::{decode, float_payload, payload, tag, Tag};
use bibi_db::Data;

#[test]
fn decode_each_kind() {
    assert_eq!(decode("Bool(true)", None), Ok(Data::Bool(true)));
    assert_eq!(decode("Bool(false)", None), Ok(Data::Bool(false)));
    assert_eq!(decode("Int(42)", None), Ok(Data::Int(42)));
    assert_eq!(decode("Int(-7)", None), Ok(Data::Int(-7)));
    assert_eq!(decode("Int(+7)", None), Ok(Data::Int(7)));
    assert_eq!(decode("Int(5)", None), Ok(Data::Int(5)));
    assert_eq!(decode("Text(hello world)", None), Ok(Data::Text("hello world".to_string())));
    assert_eq!(
        decode("Float(1.5)", Some(1.5f32.to_bits())),
        Ok(Data::Float(1.5f32.to_bits()))
    );
}

#[test]
fn decode_takes_the_float_as_it_is_given() {
    assert_eq!(decode("Float(1.5)", Some(0x3fc0_0000)), Ok(Data::Float(0x3fc0_0000)));
    assert_eq!(decode("Float(1.5)", None), Err(DecodeError::NotAFloat));
    assert_eq!(decode("Float(abc)", None), Err(DecodeError::NotAFloat));
    // The float counts under the tag `Float` only.
    assert_eq!(decode("Int(3)", Some(0x3fc0_0000)), Ok(Data::Int(3)));
    assert_eq!(decode("Text(1.5)", Some(0x3fc0_0000)), Ok(Data::Text("1.5".to_string())));
    assert_eq!(decode("1.5", Some(0x3fc0_0000)), Err(DecodeError::InvalidType));
}

#[test]
fn decode_each_failure() {
    assert_eq!(decode("Bool(maybe)", None), Err(DecodeError::NotABool));
    assert_eq!(decode("Bool(True)", None), Err(DecodeError::NotABool));
    assert_eq!(decode("Int(five)", None), Err(DecodeError::NotAnInt));
    assert_eq!(decode("Int()", None), Err(DecodeError::NotAnInt));
    assert_eq!(decode("Int(2147483648)", None), Err(DecodeError::NotAnInt));
    assert_eq!(decode("Int(1.5)", None), Err(DecodeError::NotAnInt));
    assert_eq!(decode("Float(x)", None), Err(DecodeError::NotAFloat));
    assert_eq!(decode("42", None), Err(DecodeError::InvalidType));
    assert_eq!(decode("", None), Err(DecodeError::InvalidType));
    assert_eq!(decode("bool(true)", None), Err(DecodeError::InvalidType));
    assert_eq!(decode("int(5)", None), Err(DecodeError::InvalidType));
}

#[test]
fn decode_integer_bounds() {
    assert_eq!(decode("Int(2147483647)", None), Ok(Data::Int(i32::MAX)));
    assert_eq!(decode("Int(-2147483648)", None), Ok(Data::Int(i32::MIN)));
    assert_eq!(decode("Int(-2147483649)", None), Err(DecodeError::NotAnInt));
    assert_eq!(decode("Int(0007)", None), Ok(Data::Int(7)));
}

#[test]
fn an_earlier_tag_in_the_payload_decides() {
    // `Int` stands in `Interest`, and `Int` is looked for before `Text`.
    assert_eq!(tag("Text(Interest)"), Some(Tag::Int));
    assert_eq!(payload("Text(Interest)", Tag::Int), "Texterest");
    assert_eq!(decode("Text(Interest)", None), Err(DecodeError::NotAnInt));
    // `Bool` is looked for before all others.
    assert_eq!(decode("Text(Boolean)", None), Err(DecodeError::NotABool));
    assert_eq!(decode("Int(5)Bool", None), Err(DecodeError::NotABool));
    assert_eq!(decode("Float(Int)", Some(1)), Err(DecodeError::NotAnInt));
    assert_eq!(decode("Text(Float)", Some(7)), Ok(Data::Float(7)));
    assert_eq!(decode("Text(Float)", None), Err(DecodeError::NotAFloat));
    // Only the deciding tag is taken out: the later one stays in the payload.
    assert_eq!(payload("IntText(12)", Tag::Int), "Text12");
    assert_eq!(decode("IntText(12)", None), Err(DecodeError::NotAnInt));
    // Every occurrence of the deciding tag is taken out.
    assert_eq!(decode("Int(1)Int", None), Ok(Data::Int(1)));
}

#[test]
fn the_tag_may_stand_anywhere() {
    assert_eq!(decode("(5)Int", None), Ok(Data::Int(5)));
    assert_eq!(decode("5Int", None), Ok(Data::Int(5)));
    assert_eq!(decode("trueBool", None), Ok(Data::Bool(true)));
    assert_eq!(decode("tBoolrue", None), Ok(Data::Bool(true)));
    assert_eq!(decode("Text", None), Ok(Data::Text(String::new())));
    assert_eq!(decode("aTextb", None), Ok(Data::Text("ab".to_string())));
}

#[test]
fn every_parenthesis_is_taken_out() {
    assert_eq!(decode("Text(a(b)c)", None), Ok(Data::Text("abc".to_string())));
    assert_eq!(decode("Text(((x)))", None), Ok(Data::Text("x".to_string())));
    assert_eq!(decode("Text)x(", None), Ok(Data::Text("x".to_string())));
    assert_eq!(decode("Int((4)(2))", None), Ok(Data::Int(42)));
    assert_eq!(payload("Text(f(x) = (y))", Tag::Text), "fx = y");
}

#[test]
fn the_tag_is_taken_out_after_the_opening_parentheses() {
    // Without its `(` the literal holds the tag a second time.
    assert_eq!(payload("Te(xtText(a)", Tag::Text), "a");
    assert_eq!(decode("I(ntInt(3)", None), Ok(Data::Int(3)));
    // Taking the tag out once does not search what is left.
    assert_eq!(payload("TeTextxt(a)", Tag::Text), "Texta");
    // A `)` inside the tag hides it until the tag has been looked for.
    assert_eq!(payload("Text(Te)xt)", Tag::Text), "Text");
}

#[test]
fn a_text_may_hold_any_characters() {
    assert_eq!(
        decode("Text(h\u{e9}llo \u{2713} \u{1f600})", None),
        Ok(Data::Text("h\u{e9}llo \u{2713} \u{1f600}".to_string()))
    );
    assert_eq!(decode("Text( a  b )", None), Ok(Data::Text(" a  b ".to_string())));
    assert_eq!(decode("Text()", None), Ok(Data::Text(String::new())));
    // Parentheses of other scripts are no parentheses.
    assert_eq!(decode("Text(\u{ff08}x\u{ff09})", None), Ok(Data::Text("\u{ff08}x\u{ff09}".to_string())));
}

#[test]
fn tag_of_a_literal() {
    assert_eq!(tag("Bool(true)"), Some(Tag::Bool));
    assert_eq!(tag("Int(1)"), Some(Tag::Int));
    assert_eq!(tag("Float(1.0)"), Some(Tag::Float));
    assert_eq!(tag("Text(x)"), Some(Tag::Text));
    assert_eq!(tag("text(x)"), None);
    assert_eq!(tag(""), None);
    assert_eq!(tag("TextFloatIntBool"), Some(Tag::Bool));
    assert_eq!(tag("TextFloatInt"), Some(Tag::Int));
    assert_eq!(tag("TextFloat"), Some(Tag::Float));
}

#[test]
fn float_payload_is_there_for_floats_only() {
    assert_eq!(float_payload("Float(1.5)"), Some("1.5".to_string()));
    assert_eq!(float_payload("Float(-2e3)"), Some("-2e3".to_string()));
    assert_eq!(float_payload("Float()"), Some(String::new()));
    assert_eq!(float_payload("Text(Float)"), Some("Text".to_string()));
    assert_eq!(float_payload("Int(1.5)"), None);
    assert_eq!(float_payload("Float(Int)"), None);
    assert_eq!(float_payload("Bool(Float)"), None);
    assert_eq!(float_payload("1.5"), None);
}

#[test]
fn decode_error_messages() {
    assert_eq!(DecodeError::NotABool.message(), "Not a bool");
    assert_eq!(DecodeError::NotAnInt.message(), "Not an i32");
    assert_eq!(DecodeError::NotAFloat.message(), "Not a 32-bit float");
    assert_eq!(DecodeError::InvalidType.message(), "Invalid type for data.");
}
