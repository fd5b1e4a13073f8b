//! Columns, their declared value shapes, and the rule that decides whether a
//! value fits its column.
use crate::datum::{Datum, DatumView};
use vstd::prelude::*;

verus! {

/// The shape of value a column accepts.
#[derive(Copy, Clone, Debug, PartialEq, Eq, Structural)]
pub enum DataType {
    String,
    Number,
    Any,
}

/// A named column with its declared value shape.
#[derive(Clone, Debug)]
pub struct Column {
    pub name: String,
    pub data_type: DataType,
}

/// Whether a column of type `t` accepts the value `v`: `Any` accepts every
/// value, even an absent one; `Number` accepts exactly the number values and
/// `String` exactly the text values, present or absent.
pub open spec fn accepts(t: DataType, v: DatumView) -> bool {
    match t {
        DataType::Any => true,
        DataType::Number => v is Num,
        DataType::String => v is Text,
    }
}

/// The validator: `true` when `datum` fits a column of type `t`, `false` when
/// the cell is a mismatch.
pub fn check(datum: &Datum, t: DataType) -> (valid: bool)
    ensures
        valid == accepts(t, datum@),
{
    match t {
        DataType::Any => true,
        DataType::Number => datum.is_number(),
        DataType::String => datum.is_text(),
    }
}

impl Column {
    /// A column with the given name and type.
    pub fn new(name: &str, data_type: DataType) -> (r: Column)
        ensures
            r.name@ == name@,
            r.data_type == data_type,
    {
        Column { name: name.to_owned(), data_type }
    }

    /// Whether `datum` fits this column.
    pub fn accepts(&self, datum: &Datum) -> (valid: bool)
        ensures
            valid == accepts(self.data_type, datum@),
    {
        check(datum, self.data_type)
    }
}

/// One `Any` column per name, in order.
pub fn columns_named(names: &Vec<&str>) -> (r: Vec<Column>)
    ensures
        r.len() == names.len(),
        forall|i: int|
            0 <= i < r.len() ==> r[i].name@ == names[i]@ && r[i].data_type == DataType::Any,
{
    let mut r: Vec<Column> = Vec::new();
    let mut i: usize = 0;
    while i < names.len()
        invariant
            i <= names.len(),
            r.len() == i,
            forall|k: int|
                0 <= k < i ==> r[k].name@ == names[k]@ && r[k].data_type == DataType::Any,
        decreases names.len() - i,
    {
        r.push(Column::new(names[i], DataType::Any));
        i = i + 1;
    }
    r
}

/// One column per `(name, type)` pair, in order.
pub fn columns_typed(pairs: &Vec<(&str, DataType)>) -> (r: Vec<Column>)
    ensures
        r.len() == pairs.len(),
        forall|i: int|
            0 <= i < r.len() ==> r[i].name@ == pairs[i].0@ && r[i].data_type == pairs[i].1,
{
    let mut r: Vec<Column> = Vec::new();
    let mut i: usize = 0;
    while i < pairs.len()
        invariant
            i <= pairs.len(),
            r.len() == i,
            forall|k: int|
                0 <= k < i ==> r[k].name@ == pairs[k].0@ && r[k].data_type == pairs[k].1,
        decreases pairs.len() - i,
    {
        let (name, t) = pairs[i];
        r.push(Column::new(name, t));
        i = i + 1;
    }
    r
}

/// `count` unnamed columns, all of type `t`.
pub fn columns_of_type(t: DataType, count: usize) -> (r: Vec<Column>)
    ensures
        r.len() == count,
        forall|i: int| 0 <= i < r.len() ==> r[i].name@.len() == 0 && r[i].data_type == t,
{
    let mut r: Vec<Column> = Vec::new();
    let mut i: usize = 0;
    while i < count
        invariant
            i <= count,
            r.len() == i,
            forall|k: int| 0 <= k < i ==> r[k].name@.len() == 0 && r[k].data_type == t,
        decreases count - i,
    {
        r.push(Column { name: String::new(), data_type: t });
        i = i + 1;
    }
    r
}

impl PartialEq for Column {
    fn eq(&self, other: &Column) -> (r: bool) {
        self.name == other.name && self.data_type == other.data_type
    }
}

impl vstd::std_specs::cmp::PartialEqSpecImpl for Column {
    open spec fn obeys_eq_spec() -> bool {
        true
    }

    open spec fn eq_spec(&self, other: &Column) -> bool {
        self.name@ == other.name@ && self.data_type == other.data_type
    }
}

} // verus!
