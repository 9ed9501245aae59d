//! Instances of a declaration, on which a synthesized comparison can be run.
use vstd::prelude::*;
use vstd::string::StringExecFns;

verus! {

/// The value of one field of an instance.
#[derive(Clone, Debug, PartialEq, Eq)]
pub enum Value {
    Unsigned(u64),
    Signed(i64),
    Flag(bool),
    Text(String),
}

/// A field value as plain data.
pub enum ValueView {
    Unsigned(u64),
    Signed(i64),
    Flag(bool),
    Text(Seq<char>),
}

impl View for Value {
    type V = ValueView;

    open spec fn view(&self) -> ValueView {
        match self {
            Value::Unsigned(n) => ValueView::Unsigned(*n),
            Value::Signed(n) => ValueView::Signed(*n),
            Value::Flag(b) => ValueView::Flag(*b),
            Value::Text(s) => ValueView::Text(s@),
        }
    }
}

impl Value {
    /// A text value.
    pub fn text(content: &str) -> (value: Value)
        ensures
            value@ == ValueView::Text(content@),
    {
        Value::Text(String::from_str(content))
    }

    /// Whether two field values are equal: of the same sort and with the
    /// same content.
    pub fn same(&self, other: &Value) -> (same: bool)
        ensures
            same == (self@ == other@),
    {
        match (self, other) {
            (Value::Unsigned(a), Value::Unsigned(b)) => *a == *b,
            (Value::Signed(a), Value::Signed(b)) => *a == *b,
            (Value::Flag(a), Value::Flag(b)) => *a == *b,
            (Value::Text(a), Value::Text(b)) => *a == *b,
            _ => false,
        }
    }
}

/// The views of a list of field values, in order.
pub open spec fn value_views(values: Seq<Value>) -> Seq<ValueView> {
    Seq::new(values.len(), |i: int| values[i]@)
}

/// An instance of a declaration: which variant it is, and the values of that
/// variant's fields in order. An instance of a record is of variant 0.
#[derive(Clone, Debug, PartialEq, Eq)]
pub struct Instance {
    pub variant: usize,
    pub fields: Vec<Value>,
}

/// An instance as plain data.
pub struct InstanceView {
    pub variant: int,
    pub fields: Seq<ValueView>,
}

impl View for Instance {
    type V = InstanceView;

    open spec fn view(&self) -> InstanceView {
        InstanceView { variant: self.variant as int, fields: value_views(self.fields@) }
    }
}

impl Instance {
    /// An instance of a record with these field values.
    pub fn record(fields: Vec<Value>) -> (instance: Instance)
        ensures
            instance@.variant == 0,
            instance@.fields == value_views(fields@),
    {
        Instance { variant: 0, fields }
    }

    /// An instance of the variant at place `variant` of a union.
    pub fn of_variant(variant: usize, fields: Vec<Value>) -> (instance: Instance)
        ensures
            instance@.variant == variant,
            instance@.fields == value_views(fields@),
    {
        Instance { variant, fields }
    }
}

} // verus!
