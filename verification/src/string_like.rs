//! A value that may be written either as a string or as an unsigned integer,
//! used for fields like CPU count or port numbers.

use vstd::prelude::*;

verus! {

use crate::text::{dec_of, u64_to_string};

#[derive(Debug)]
pub enum StringOrUint {
    S(String),
    I(u64),
}

/// The mathematical model of a `StringOrUint`.
pub enum StringOrUintV {
    S(Seq<char>),
    I(u64),
}

impl View for StringOrUint {
    type V = StringOrUintV;

    open spec fn view(&self) -> StringOrUintV {
        match self {
            StringOrUint::S(s) => StringOrUintV::S(s@),
            StringOrUint::I(i) => StringOrUintV::I(*i),
        }
    }
}

impl DeepView for StringOrUint {
    type V = StringOrUintV;

    open spec fn deep_view(&self) -> StringOrUintV {
        self@
    }
}

/// The textual rendering of the value: the string itself, or the integer in
/// decimal.
pub open spec fn text_of(v: StringOrUintV) -> Seq<char> {
    match v {
        StringOrUintV::S(s) => s,
        StringOrUintV::I(i) => dec_of(i as nat),
    }
}

impl StringOrUint {
    /// Renders the value as text.
    pub fn to_text(&self) -> (r: String)
        ensures
            r@ == text_of(self@),
    {
        match self {
            StringOrUint::S(s) => s.clone(),
            StringOrUint::I(i) => u64_to_string(*i),
        }
    }
}

impl Clone for StringOrUint {
    fn clone(&self) -> (r: Self)
        ensures
            r@ == self@,
    {
        match self {
            StringOrUint::S(s) => StringOrUint::S(s.clone()),
            StringOrUint::I(i) => StringOrUint::I(*i),
        }
    }
}

/// Clones an optional `StringOrUint`; the model is preserved.
pub fn clone_opt_sou(o: &Option<StringOrUint>) -> (r: Option<StringOrUint>)
    ensures
        r.deep_view() == o.deep_view(),
{
    match o {
        None => None,
        Some(v) => Some(v.clone()),
    }
}

} // verus!
