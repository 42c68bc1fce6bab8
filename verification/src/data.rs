//! The values that a schema holds.

use vstd::prelude::*;

verus! {

/// A typed value: one of four kinds, and no other.
#[derive(Debug, PartialEq)]
pub enum Data {
    /// A 32-bit signed integer.
    Int(i32),
    /// A 32-bit floating-point number, held as its IEEE 754 bit pattern. Two
    /// such values are the same where their bit patterns are.
    Float(u32),
    /// A text.
    Text(String),
    /// A truth value.
    Bool(bool),
}

/// A typed value as contracts see it: a text is its characters.
pub enum DataView {
    Int(i32),
    Float(u32),
    Text(Seq<char>),
    Bool(bool),
}

impl View for Data {
    type V = DataView;

    open spec fn view(&self) -> DataView {
        match self {
            Data::Int(i) => DataView::Int(*i),
            Data::Float(bits) => DataView::Float(*bits),
            Data::Text(s) => DataView::Text(s@),
            Data::Bool(b) => DataView::Bool(*b),
        }
    }
}

impl Clone for Data {
    /// A value of the same kind that holds the same.
    fn clone(&self) -> (copy: Data)
        ensures
            copy@ == self@,
    {
        match self {
            Data::Int(i) => Data::Int(*i),
            Data::Float(bits) => Data::Float(*bits),
            Data::Text(s) => Data::Text(s.clone()),
            Data::Bool(b) => Data::Bool(*b),
        }
    }
}

} // verus!
