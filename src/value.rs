use evalexpr::{DefaultNumericTypes, EvalexprNumericTypes};
use vstd::prelude::*;

verus! {

/// What a cell holds once typed: text that reads in full as a float,
/// or any other text.
pub enum Typed {
    Float(Seq<char>),
    Text(Seq<char>),
}

/// Whether the whole of `s` reads as a 64-bit floating-point number.
pub uninterp spec fn is_float_text(s: Seq<char>) -> bool;

/// Relies on `str::parse` into the float type that evalexpr evaluates with (its
/// default numeric types): `Ok` exactly when the whole string is a float literal;
/// the empty string is not one.
#[verifier::external_body]
fn reads_as_float(s: &str) -> (r: bool)
    ensures
        r == is_float_text(s@),
        s@.len() == 0 ==> !r,
{
    s.parse::<<DefaultNumericTypes as EvalexprNumericTypes>::Float>().is_ok()
}

/// A typed cell value. `Float` keeps the cell's text, which reads in full as a
/// 64-bit float; the float itself is read when a rule is evaluated.
#[derive(Debug)]
pub enum TypedValue {
    Float(String),
    Text(String),
}

impl View for TypedValue {
    type V = Typed;

    open spec fn view(&self) -> Typed {
        match self {
            TypedValue::Float(s) => Typed::Float(s@),
            TypedValue::Text(s) => Typed::Text(s@),
        }
    }
}

impl TypedValue {
    /// A `Float` holds text that reads as a float.
    pub open spec fn wf(&self) -> bool {
        match self {
            TypedValue::Float(s) => is_float_text(s@),
            TypedValue::Text(_) => true,
        }
    }
}

/// The typing of one raw cell: a float where the whole cell reads as one,
/// text otherwise.
pub open spec fn coerce_spec(cell: Seq<char>) -> Typed {
    if is_float_text(cell) {
        Typed::Float(cell)
    } else {
        Typed::Text(cell)
    }
}

/// Types one raw cell.
pub fn coerce(cell: &str) -> (v: TypedValue)
    ensures
        v@ == coerce_spec(cell@),
        v.wf(),
{
    if reads_as_float(cell) {
        TypedValue::Float(cell.to_owned())
    } else {
        TypedValue::Text(cell.to_owned())
    }
}

/// Whether `needle` occurs as a contiguous run inside `haystack`.
pub open spec fn contains_spec(haystack: Seq<char>, needle: Seq<char>) -> bool {
    exists|i: int|
        0 <= i && i + needle.len() <= haystack.len() && #[trigger] haystack.subrange(
            i,
            i + needle.len(),
        ) == needle
}

/// Relies on `str::contains` with a `&str` pattern: true when the pattern occurs
/// as a substring.
#[verifier::external_body]
fn text_contains(haystack: &str, needle: &str) -> (r: bool)
    ensures
        r == contains_spec(haystack@, needle@),
{
    haystack.contains(needle)
}

/// The built-in `string_contains(haystack, needle)`: false, not an error, when
/// either argument is not text.
pub fn string_contains(haystack: Option<String>, needle: Option<String>) -> (r: bool)
    ensures
        r == (haystack is Some && needle is Some && contains_spec(
            haystack->Some_0@,
            needle->Some_0@,
        )),
{
    match (haystack, needle) {
        (Some(h), Some(n)) => text_contains(h.as_str(), n.as_str()),
        _ => false,
    }
}

} // verus!
