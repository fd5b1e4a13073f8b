//! Typed cell values.
use crate::number::{encodes_int, int_to_double_bits};
use vstd::prelude::*;

verus! {

/// A cell value: text or a number, either of which may be absent.
///
/// A number is held as its IEEE 754 binary64 bit pattern, so two numbers are
/// equal exactly when their bits are.
#[derive(Clone, Debug)]
pub enum Datum {
    String(Option<String>),
    Number(Option<u64>),
}

/// The mathematical content of a [`Datum`].
pub enum DatumView {
    Text(Option<Seq<char>>),
    Num(Option<u64>),
}

impl View for Datum {
    type V = DatumView;

    open spec fn view(&self) -> DatumView {
        match self {
            Datum::String(Some(s)) => DatumView::Text(Some(s@)),
            Datum::String(None) => DatumView::Text(None),
            Datum::Number(n) => DatumView::Num(*n),
        }
    }
}

/// Holds when `v` is the number that an integer literal `n` is ingested as.
pub open spec fn is_int_datum(v: DatumView, n: int) -> bool {
    match v {
        DatumView::Num(Some(bits)) => encodes_int(bits, n),
        _ => false,
    }
}

impl Datum {
    /// Ingests a text literal: a present `String` value.
    pub fn text(s: &str) -> (r: Datum)
        ensures
            r@ == DatumView::Text(Some(s@)),
    {
        Datum::String(Some(s.to_owned()))
    }

    /// Ingests an integer literal: a present `Number` value denoting exactly `n`.
    pub fn from_int(n: i32) -> (r: Datum)
        ensures
            is_int_datum(r@, n as int),
    {
        Datum::Number(Some(int_to_double_bits(n)))
    }

    /// A present `Number` value with the given binary64 bit pattern.
    pub fn from_bits(bits: u64) -> (r: Datum)
        ensures
            r@ == DatumView::Num(Some(bits)),
    {
        Datum::Number(Some(bits))
    }

    /// A copy of this value.
    pub fn duplicate(&self) -> (r: Datum)
        ensures
            r@ == self@,
    {
        match self {
            Datum::String(Some(s)) => Datum::String(Some(s.clone())),
            Datum::String(None) => Datum::String(None),
            Datum::Number(n) => Datum::Number(*n),
        }
    }

    /// Whether this value holds text (present or absent).
    pub fn is_text(&self) -> (r: bool)
        ensures
            r == (self@ is Text),
    {
        match self {
            Datum::String(_) => true,
            Datum::Number(_) => false,
        }
    }

    /// Whether this value holds a number (present or absent).
    pub fn is_number(&self) -> (r: bool)
        ensures
            r == (self@ is Num),
    {
        match self {
            Datum::String(_) => false,
            Datum::Number(_) => true,
        }
    }
}

impl From<String> for Datum {
    fn from(value: String) -> (r: Datum) {
        Datum::String(Some(value))
    }
}

impl vstd::std_specs::convert::FromSpecImpl<String> for Datum {
    open spec fn obeys_from_spec() -> bool {
        true
    }

    open spec fn from_spec(value: String) -> Datum {
        Datum::String(Some(value))
    }
}

impl PartialEq for Datum {
    fn eq(&self, other: &Datum) -> (r: bool) {
        match (self, other) {
            (Datum::String(Some(a)), Datum::String(Some(b))) => *a == *b,
            (Datum::String(None), Datum::String(None)) => true,
            (Datum::Number(a), Datum::Number(b)) => match (a, b) {
                (Some(x), Some(y)) => *x == *y,
                (None, None) => true,
                _ => false,
            },
            _ => false,
        }
    }
}

impl vstd::std_specs::cmp::PartialEqSpecImpl for Datum {
    open spec fn obeys_eq_spec() -> bool {
        true
    }

    open spec fn eq_spec(&self, other: &Datum) -> bool {
        self@ == other@
    }
}

} // verus!
