//! Property-list values and their mathematical model.
use vstd::prelude::*;
use crate::event::Date;

verus! {

/// A property-list value.
///
/// A dictionary is an ordered list of entries: its keys come out in the
/// order in which they stand here.
#[derive(Debug, PartialEq)]
pub enum Value {
    Array(Vec<Value>),
    Dictionary(Vec<(String, Value)>),
    Boolean(bool),
    Data(Vec<u8>),
    Date(Date),
    /// A real number, as the bit pattern of an IEEE 754 binary64 value.
    Real(u64),
    Integer(i64),
    String(String),
}

/// The structure of a [`Value`]: the same tree, with sequences for its
/// containers.
pub enum Tree {
    Array(Seq<Tree>),
    Dictionary(Seq<(String, Tree)>),
    Boolean(bool),
    Data(Vec<u8>),
    Date(Date),
    Real(u64),
    Integer(i64),
    String(String),
}

/// The tree that a value stands for.
pub open spec fn tree_of(v: Value) -> Tree
    decreases v, 0nat,
{
    match v {
        Value::Array(a) => Tree::Array(trees_of(a@)),
        Value::Dictionary(d) => Tree::Dictionary(entries_of(d@)),
        Value::Boolean(b) => Tree::Boolean(b),
        Value::Data(d) => Tree::Data(d),
        Value::Date(d) => Tree::Date(d),
        Value::Real(r) => Tree::Real(r),
        Value::Integer(i) => Tree::Integer(i),
        Value::String(s) => Tree::String(s),
    }
}

/// The trees of a list of values, element by element.
pub open spec fn trees_of(s: Seq<Value>) -> Seq<Tree>
    decreases s, s.len(),
{
    if s.len() == 0 {
        Seq::empty()
    } else {
        trees_of(s.drop_last()).push(tree_of(s.last()))
    }
}

/// The entries of a dictionary, each value replaced by its tree.
pub open spec fn entries_of(s: Seq<(String, Value)>) -> Seq<(String, Tree)>
    decreases s, s.len(),
{
    if s.len() == 0 {
        Seq::empty()
    } else {
        entries_of(s.drop_last()).push((s.last().0, tree_of(s.last().1)))
    }
}

impl View for Value {
    type V = Tree;

    open spec fn view(&self) -> Tree {
        tree_of(*self)
    }
}

} // verus!
