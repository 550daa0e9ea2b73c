//! The typed value model for action outputs.
//!
//! A `Value` is the recursive unit of data an action emits: a boolean, an
//! integer split by sign into two variants, a string, an ordered list, or a
//! string-keyed table of values. The sign split is a design choice that
//! must survive round-trips: a positive literal and a negative literal are
//! never interchangeable variants.

use crate::table::Table;
use vstd::prelude::*;

verus! {

/// An ordered list of values.
#[derive(Debug, PartialEq, Eq)]
pub struct Array(Vec<Value>);

/// A string-keyed table of values, nested inside a `Value`.
pub type Vars = Table<Value>;

/// A typed, recursive unit of data produced by an action.
#[derive(Debug, PartialEq, Eq)]
pub enum Value {
    Bool(bool),
    PositiveInt(u64),
    NegativeInt(i64),
    String(String),
    Array(Array),
    Dict(Vars),
}

impl Array {
    /// The items of the list, in order.
    pub closed spec fn items_spec(self) -> Seq<Value> {
        self.0@
    }

    /// An empty list.
    pub fn new() -> (r: Self)
        ensures
            r.items_spec() == Seq::<Value>::empty(),
    {
        Array(Vec::new())
    }

    /// Read access to the items.
    pub fn items(&self) -> (r: &Vec<Value>)
        ensures
            r@ == self.items_spec(),
    {
        &self.0
    }
}

impl Clone for Value {
    /// A clone is rebuilt piece by piece: a leaf is copied exactly, a
    /// string keeps its characters, a list keeps its length and a table
    /// keeps its names, each item being a clone of the original one.
    fn clone(&self) -> (res: Self)
        ensures
            self matches Value::Bool(_) ==> res == *self,
            self matches Value::PositiveInt(_) ==> res == *self,
            self matches Value::NegativeInt(_) ==> res == *self,
            self matches Value::String(x) ==> (res matches Value::String(y) && y@ == x@),
            self matches Value::Array(x) ==> (res matches Value::Array(y) && y.items_spec().len()
                == x.items_spec().len()),
            self matches Value::Dict(x) ==> (res matches Value::Dict(y) && y.keys() == x.keys()
                && (x.inv() ==> y.inv())),
        decreases *self,
    {
        match self {
            Value::Bool(val) => Value::Bool(*val),
            Value::PositiveInt(val) => Value::PositiveInt(*val),
            Value::NegativeInt(val) => Value::NegativeInt(*val),
            Value::String(val) => Value::String(val.clone()),
            Value::Array(items) => Value::Array(items.clone()),
            Value::Dict(vars) => Value::Dict(vars.clone()),
        }
    }
}

impl Clone for Array {
    /// A clone keeps the length; each item is a clone of the original one.
    fn clone(&self) -> (res: Self)
        ensures
            res.items_spec().len() == self.items_spec().len(),
        decreases *self,
    {
        let n = self.0.len();
        let mut out: Vec<Value> = Vec::new();
        let mut i: usize = 0;
        while i < n
            invariant
                i <= n,
                n == self.0@.len(),
                out@.len() == i,
            decreases n - i,
        {
            proof {
                assert(decreases_to!(*self => self.0@[i as int]));
            }
            out.push(self.0[i].clone());
            i += 1;
        }
        Array(out)
    }
}

impl From<Vec<Value>> for Array {
    /// Wraps a vector of values as a list, keeping the order.
    fn from(items: Vec<Value>) -> (r: Self)
        ensures
            r.items_spec() == items@,
    {
        Array(items)
    }
}

impl vstd::std_specs::convert::FromSpecImpl<Vec<Value>> for Array {
    open spec fn obeys_from_spec() -> bool {
        true
    }

    closed spec fn from_spec(items: Vec<Value>) -> Self {
        Array(items)
    }
}

impl From<Vec<bool>> for Array {
    /// Each boolean becomes the boolean variant; order kept.
    fn from(items: Vec<bool>) -> (r: Self)
        ensures
            r.items_spec() == items@.map_values(|x: bool| Value::Bool(x)),
    {
        let mut out: Vec<Value> = Vec::new();
        let mut i: usize = 0;
        while i < items.len()
            invariant
                i <= items@.len(),
                out@.len() == i,
                forall|j: int| 0 <= j < i ==> out@[j] == Value::Bool(items@[j]),
            decreases items@.len() - i,
        {
            out.push(Value::Bool(items[i]));
            i += 1;
        }
        proof {
            assert(out@ =~= items@.map_values(|x: bool| Value::Bool(x)));
        }
        Array(out)
    }
}

impl vstd::std_specs::convert::FromSpecImpl<Vec<bool>> for Array {
    open spec fn obeys_from_spec() -> bool {
        // The result wraps a fresh vector, which no spec can name; the
        // `ensures` on `from` pins the items instead.
        false
    }

    closed spec fn from_spec(items: Vec<bool>) -> Self {
        arbitrary()
    }
}

impl From<Vec<u8>> for Array {
    /// Each unsigned integer becomes the positive variant, losslessly; order kept.
    fn from(items: Vec<u8>) -> (r: Self)
        ensures
            r.items_spec() == items@.map_values(|x: u8| Value::PositiveInt(x as u64)),
    {
        let mut out: Vec<Value> = Vec::new();
        let mut i: usize = 0;
        while i < items.len()
            invariant
                i <= items@.len(),
                out@.len() == i,
                forall|j: int| 0 <= j < i ==> out@[j] == Value::PositiveInt(items@[j] as u64),
            decreases items@.len() - i,
        {
            out.push(Value::PositiveInt(items[i] as u64));
            i += 1;
        }
        proof {
            assert(out@ =~= items@.map_values(|x: u8| Value::PositiveInt(x as u64)));
        }
        Array(out)
    }
}

impl vstd::std_specs::convert::FromSpecImpl<Vec<u8>> for Array {
    open spec fn obeys_from_spec() -> bool {
        // The result wraps a fresh vector, which no spec can name; the
        // `ensures` on `from` pins the items instead.
        false
    }

    closed spec fn from_spec(items: Vec<u8>) -> Self {
        arbitrary()
    }
}

impl From<Vec<u16>> for Array {
    /// Each unsigned integer becomes the positive variant, losslessly; order kept.
    fn from(items: Vec<u16>) -> (r: Self)
        ensures
            r.items_spec() == items@.map_values(|x: u16| Value::PositiveInt(x as u64)),
    {
        let mut out: Vec<Value> = Vec::new();
        let mut i: usize = 0;
        while i < items.len()
            invariant
                i <= items@.len(),
                out@.len() == i,
                forall|j: int| 0 <= j < i ==> out@[j] == Value::PositiveInt(items@[j] as u64),
            decreases items@.len() - i,
        {
            out.push(Value::PositiveInt(items[i] as u64));
            i += 1;
        }
        proof {
            assert(out@ =~= items@.map_values(|x: u16| Value::PositiveInt(x as u64)));
        }
        Array(out)
    }
}

impl vstd::std_specs::convert::FromSpecImpl<Vec<u16>> for Array {
    open spec fn obeys_from_spec() -> bool {
        // The result wraps a fresh vector, which no spec can name; the
        // `ensures` on `from` pins the items instead.
        false
    }

    closed spec fn from_spec(items: Vec<u16>) -> Self {
        arbitrary()
    }
}

impl From<Vec<u32>> for Array {
    /// Each unsigned integer becomes the positive variant, losslessly; order kept.
    fn from(items: Vec<u32>) -> (r: Self)
        ensures
            r.items_spec() == items@.map_values(|x: u32| Value::PositiveInt(x as u64)),
    {
        let mut out: Vec<Value> = Vec::new();
        let mut i: usize = 0;
        while i < items.len()
            invariant
                i <= items@.len(),
                out@.len() == i,
                forall|j: int| 0 <= j < i ==> out@[j] == Value::PositiveInt(items@[j] as u64),
            decreases items@.len() - i,
        {
            out.push(Value::PositiveInt(items[i] as u64));
            i += 1;
        }
        proof {
            assert(out@ =~= items@.map_values(|x: u32| Value::PositiveInt(x as u64)));
        }
        Array(out)
    }
}

impl vstd::std_specs::convert::FromSpecImpl<Vec<u32>> for Array {
    open spec fn obeys_from_spec() -> bool {
        // The result wraps a fresh vector, which no spec can name; the
        // `ensures` on `from` pins the items instead.
        false
    }

    closed spec fn from_spec(items: Vec<u32>) -> Self {
        arbitrary()
    }
}

impl From<Vec<u64>> for Array {
    /// Each unsigned integer becomes the positive variant; order kept.
    fn from(items: Vec<u64>) -> (r: Self)
        ensures
            r.items_spec() == items@.map_values(|x: u64| Value::PositiveInt(x)),
    {
        let mut out: Vec<Value> = Vec::new();
        let mut i: usize = 0;
        while i < items.len()
            invariant
                i <= items@.len(),
                out@.len() == i,
                forall|j: int| 0 <= j < i ==> out@[j] == Value::PositiveInt(items@[j]),
            decreases items@.len() - i,
        {
            out.push(Value::PositiveInt(items[i]));
            i += 1;
        }
        proof {
            assert(out@ =~= items@.map_values(|x: u64| Value::PositiveInt(x)));
        }
        Array(out)
    }
}

impl vstd::std_specs::convert::FromSpecImpl<Vec<u64>> for Array {
    open spec fn obeys_from_spec() -> bool {
        // The result wraps a fresh vector, which no spec can name; the
        // `ensures` on `from` pins the items instead.
        false
    }

    closed spec fn from_spec(items: Vec<u64>) -> Self {
        arbitrary()
    }
}

impl From<Vec<i8>> for Array {
    /// Each signed integer becomes the negative variant, losslessly; order kept.
    fn from(items: Vec<i8>) -> (r: Self)
        ensures
            r.items_spec() == items@.map_values(|x: i8| Value::NegativeInt(x as i64)),
    {
        let mut out: Vec<Value> = Vec::new();
        let mut i: usize = 0;
        while i < items.len()
            invariant
                i <= items@.len(),
                out@.len() == i,
                forall|j: int| 0 <= j < i ==> out@[j] == Value::NegativeInt(items@[j] as i64),
            decreases items@.len() - i,
        {
            out.push(Value::NegativeInt(items[i] as i64));
            i += 1;
        }
        proof {
            assert(out@ =~= items@.map_values(|x: i8| Value::NegativeInt(x as i64)));
        }
        Array(out)
    }
}

impl vstd::std_specs::convert::FromSpecImpl<Vec<i8>> for Array {
    open spec fn obeys_from_spec() -> bool {
        // The result wraps a fresh vector, which no spec can name; the
        // `ensures` on `from` pins the items instead.
        false
    }

    closed spec fn from_spec(items: Vec<i8>) -> Self {
        arbitrary()
    }
}

impl From<Vec<i16>> for Array {
    /// Each signed integer becomes the negative variant, losslessly; order kept.
    fn from(items: Vec<i16>) -> (r: Self)
        ensures
            r.items_spec() == items@.map_values(|x: i16| Value::NegativeInt(x as i64)),
    {
        let mut out: Vec<Value> = Vec::new();
        let mut i: usize = 0;
        while i < items.len()
            invariant
                i <= items@.len(),
                out@.len() == i,
                forall|j: int| 0 <= j < i ==> out@[j] == Value::NegativeInt(items@[j] as i64),
            decreases items@.len() - i,
        {
            out.push(Value::NegativeInt(items[i] as i64));
            i += 1;
        }
        proof {
            assert(out@ =~= items@.map_values(|x: i16| Value::NegativeInt(x as i64)));
        }
        Array(out)
    }
}

impl vstd::std_specs::convert::FromSpecImpl<Vec<i16>> for Array {
    open spec fn obeys_from_spec() -> bool {
        // The result wraps a fresh vector, which no spec can name; the
        // `ensures` on `from` pins the items instead.
        false
    }

    closed spec fn from_spec(items: Vec<i16>) -> Self {
        arbitrary()
    }
}

impl From<Vec<i32>> for Array {
    /// Each signed integer becomes the negative variant, losslessly; order kept.
    fn from(items: Vec<i32>) -> (r: Self)
        ensures
            r.items_spec() == items@.map_values(|x: i32| Value::NegativeInt(x as i64)),
    {
        let mut out: Vec<Value> = Vec::new();
        let mut i: usize = 0;
        while i < items.len()
            invariant
                i <= items@.len(),
                out@.len() == i,
                forall|j: int| 0 <= j < i ==> out@[j] == Value::NegativeInt(items@[j] as i64),
            decreases items@.len() - i,
        {
            out.push(Value::NegativeInt(items[i] as i64));
            i += 1;
        }
        proof {
            assert(out@ =~= items@.map_values(|x: i32| Value::NegativeInt(x as i64)));
        }
        Array(out)
    }
}

impl vstd::std_specs::convert::FromSpecImpl<Vec<i32>> for Array {
    open spec fn obeys_from_spec() -> bool {
        // The result wraps a fresh vector, which no spec can name; the
        // `ensures` on `from` pins the items instead.
        false
    }

    closed spec fn from_spec(items: Vec<i32>) -> Self {
        arbitrary()
    }
}

impl From<Vec<i64>> for Array {
    /// Each signed integer becomes the negative variant; order kept.
    fn from(items: Vec<i64>) -> (r: Self)
        ensures
            r.items_spec() == items@.map_values(|x: i64| Value::NegativeInt(x)),
    {
        let mut out: Vec<Value> = Vec::new();
        let mut i: usize = 0;
        while i < items.len()
            invariant
                i <= items@.len(),
                out@.len() == i,
                forall|j: int| 0 <= j < i ==> out@[j] == Value::NegativeInt(items@[j]),
            decreases items@.len() - i,
        {
            out.push(Value::NegativeInt(items[i]));
            i += 1;
        }
        proof {
            assert(out@ =~= items@.map_values(|x: i64| Value::NegativeInt(x)));
        }
        Array(out)
    }
}

impl vstd::std_specs::convert::FromSpecImpl<Vec<i64>> for Array {
    open spec fn obeys_from_spec() -> bool {
        // The result wraps a fresh vector, which no spec can name; the
        // `ensures` on `from` pins the items instead.
        false
    }

    closed spec fn from_spec(items: Vec<i64>) -> Self {
        arbitrary()
    }
}

impl From<Vec<String>> for Array {
    /// Each string becomes the string variant; order kept.
    fn from(items: Vec<String>) -> (r: Self)
        ensures
            r.items_spec() == items@.map_values(|x: String| Value::String(x)),
    {
        let mut out: Vec<Value> = Vec::new();
        let mut i: usize = 0;
        while i < items.len()
            invariant
                i <= items@.len(),
                out@.len() == i,
                forall|j: int| 0 <= j < i ==> out@[j] == Value::String(items@[j]),
            decreases items@.len() - i,
        {
            out.push(Value::String(items[i].clone()));
            i += 1;
        }
        proof {
            assert(out@ =~= items@.map_values(|x: String| Value::String(x)));
        }
        Array(out)
    }
}

impl vstd::std_specs::convert::FromSpecImpl<Vec<String>> for Array {
    open spec fn obeys_from_spec() -> bool {
        // The result wraps a fresh vector, which no spec can name; the
        // `ensures` on `from` pins the items instead.
        false
    }

    closed spec fn from_spec(items: Vec<String>) -> Self {
        arbitrary()
    }
}

impl<'a> From<Vec<&'a str>> for Array {
    /// Each string slice is copied into the string variant; order kept.
    fn from(items: Vec<&'a str>) -> (r: Self)
        ensures
            r.items_spec().len() == items@.len(),
            forall|i: int|
                0 <= i < items@.len() ==> ((#[trigger] r.items_spec()[i]) matches Value::String(s)
                    && s@ == items@[i]@),
    {
        let mut out: Vec<Value> = Vec::new();
        let mut i: usize = 0;
        while i < items.len()
            invariant
                i <= items@.len(),
                out@.len() == i,
                forall|j: int|
                    0 <= j < i ==> ((#[trigger] out@[j]) matches Value::String(s) && s@
                        == items@[j]@),
            decreases items@.len() - i,
        {
            out.push(Value::String(String::from_str(items[i])));
            i += 1;
        }
        Array(out)
    }
}

impl<'a> vstd::std_specs::convert::FromSpecImpl<Vec<&'a str>> for Array {
    open spec fn obeys_from_spec() -> bool {
        // The result wraps a fresh vector, which no spec can name; the
        // `ensures` on `from` pins the items instead.
        false
    }

    closed spec fn from_spec(items: Vec<&'a str>) -> Self {
        arbitrary()
    }
}

impl From<bool> for Value {
    /// A boolean becomes the boolean variant.
    fn from(val: bool) -> (r: Self) {
        Value::Bool(val)
    }
}

impl vstd::std_specs::convert::FromSpecImpl<bool> for Value {
    open spec fn obeys_from_spec() -> bool {
        true
    }

    open spec fn from_spec(val: bool) -> Self {
        Value::Bool(val)
    }
}

impl From<u8> for Value {
    /// An unsigned integer becomes the positive variant, losslessly.
    fn from(val: u8) -> (r: Self) {
        Value::PositiveInt(val as u64)
    }
}

impl vstd::std_specs::convert::FromSpecImpl<u8> for Value {
    open spec fn obeys_from_spec() -> bool {
        true
    }

    open spec fn from_spec(val: u8) -> Self {
        Value::PositiveInt(val as u64)
    }
}

impl From<u16> for Value {
    /// An unsigned integer becomes the positive variant, losslessly.
    fn from(val: u16) -> (r: Self) {
        Value::PositiveInt(val as u64)
    }
}

impl vstd::std_specs::convert::FromSpecImpl<u16> for Value {
    open spec fn obeys_from_spec() -> bool {
        true
    }

    open spec fn from_spec(val: u16) -> Self {
        Value::PositiveInt(val as u64)
    }
}

impl From<u32> for Value {
    /// An unsigned integer becomes the positive variant, losslessly.
    fn from(val: u32) -> (r: Self) {
        Value::PositiveInt(val as u64)
    }
}

impl vstd::std_specs::convert::FromSpecImpl<u32> for Value {
    open spec fn obeys_from_spec() -> bool {
        true
    }

    open spec fn from_spec(val: u32) -> Self {
        Value::PositiveInt(val as u64)
    }
}

impl From<u64> for Value {
    /// An unsigned integer becomes the positive variant.
    fn from(val: u64) -> (r: Self) {
        Value::PositiveInt(val)
    }
}

impl vstd::std_specs::convert::FromSpecImpl<u64> for Value {
    open spec fn obeys_from_spec() -> bool {
        true
    }

    open spec fn from_spec(val: u64) -> Self {
        Value::PositiveInt(val)
    }
}

impl From<i8> for Value {
    /// A signed integer becomes the negative variant, losslessly.
    fn from(val: i8) -> (r: Self) {
        Value::NegativeInt(val as i64)
    }
}

impl vstd::std_specs::convert::FromSpecImpl<i8> for Value {
    open spec fn obeys_from_spec() -> bool {
        true
    }

    open spec fn from_spec(val: i8) -> Self {
        Value::NegativeInt(val as i64)
    }
}

impl From<i16> for Value {
    /// A signed integer becomes the negative variant, losslessly.
    fn from(val: i16) -> (r: Self) {
        Value::NegativeInt(val as i64)
    }
}

impl vstd::std_specs::convert::FromSpecImpl<i16> for Value {
    open spec fn obeys_from_spec() -> bool {
        true
    }

    open spec fn from_spec(val: i16) -> Self {
        Value::NegativeInt(val as i64)
    }
}

impl From<i32> for Value {
    /// A signed integer becomes the negative variant, losslessly.
    fn from(val: i32) -> (r: Self) {
        Value::NegativeInt(val as i64)
    }
}

impl vstd::std_specs::convert::FromSpecImpl<i32> for Value {
    open spec fn obeys_from_spec() -> bool {
        true
    }

    open spec fn from_spec(val: i32) -> Self {
        Value::NegativeInt(val as i64)
    }
}

impl From<i64> for Value {
    /// A signed integer becomes the negative variant.
    fn from(val: i64) -> (r: Self) {
        Value::NegativeInt(val)
    }
}

impl vstd::std_specs::convert::FromSpecImpl<i64> for Value {
    open spec fn obeys_from_spec() -> bool {
        true
    }

    open spec fn from_spec(val: i64) -> Self {
        Value::NegativeInt(val)
    }
}

impl From<String> for Value {
    /// A string becomes the string variant.
    fn from(val: String) -> (r: Self) {
        Value::String(val)
    }
}

impl vstd::std_specs::convert::FromSpecImpl<String> for Value {
    open spec fn obeys_from_spec() -> bool {
        true
    }

    open spec fn from_spec(val: String) -> Self {
        Value::String(val)
    }
}

impl<'a> From<&'a str> for Value {
    /// A string slice is copied into the string variant, losslessly.
    fn from(val: &'a str) -> (r: Self)
        ensures
            r matches Value::String(s) && s@ == val@,
    {
        Value::String(String::from_str(val))
    }
}

impl<'a> vstd::std_specs::convert::FromSpecImpl<&'a str> for Value {
    open spec fn obeys_from_spec() -> bool {
        // The owned copy of a borrowed string is pinned only up to its view,
        // which is too weak to name the exact result here.
        false
    }

    open spec fn from_spec(val: &'a str) -> Self {
        arbitrary()
    }
}

} // verus!
