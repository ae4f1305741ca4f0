//! SQL type tags and the host values that can be bound to them.
use vstd::prelude::*;

verus! {

/// The NOT NULL base of a SQL type tag.
#[derive(Debug, Clone, Copy, PartialEq, Eq, Structural)]
pub enum BaseType {
    Integer,
    VarChar,
    Bool,
}

/// A SQL type tag: a base type, possibly wrapped in `Nullable`.
/// `Nullable<Nullable<T>>` cannot be written, as in SQL a type is either
/// nullable or not.
#[derive(Debug, Clone, Copy, PartialEq, Eq, Structural)]
pub struct SqlType {
    pub base: BaseType,
    pub nullable: bool,
}

impl SqlType {
    /// The NOT NULL tag of the given base.
    pub fn not_null(base: BaseType) -> (r: SqlType)
        ensures
            r.base == base,
            !r.nullable,
    {
        SqlType { base, nullable: false }
    }

    pub fn integer() -> (r: SqlType)
        ensures
            r == (SqlType { base: BaseType::Integer, nullable: false }),
    {
        SqlType { base: BaseType::Integer, nullable: false }
    }

    pub fn varchar() -> (r: SqlType)
        ensures
            r == (SqlType { base: BaseType::VarChar, nullable: false }),
    {
        SqlType { base: BaseType::VarChar, nullable: false }
    }

    pub fn boolean() -> (r: SqlType)
        ensures
            r == (SqlType { base: BaseType::Bool, nullable: false }),
    {
        SqlType { base: BaseType::Bool, nullable: false }
    }

    /// `Nullable<self>`; wrapping a nullable tag again leaves it as it is.
    pub fn nullable(self) -> (r: SqlType)
        ensures
            r == self.to_nullable(),
    {
        SqlType { base: self.base, nullable: true }
    }

    pub open spec fn to_nullable(self) -> SqlType {
        SqlType { base: self.base, nullable: true }
    }

    pub fn is_nullable(&self) -> (r: bool)
        ensures
            r == self.nullable,
    {
        self.nullable
    }
}

/// A host value handed to, or read back from, the database.
#[derive(Debug, Clone, PartialEq, Eq)]
pub enum Value {
    Null,
    Int(i32),
    Text(String),
    Bool(bool),
}

/// The mathematical content of a host value.
pub enum ValueView {
    Null,
    Int(i32),
    Text(Seq<char>),
    Bool(bool),
}

impl View for Value {
    type V = ValueView;

    open spec fn view(&self) -> ValueView {
        match self {
            Value::Null => ValueView::Null,
            Value::Int(i) => ValueView::Int(*i),
            Value::Text(s) => ValueView::Text(s@),
            Value::Bool(b) => ValueView::Bool(*b),
        }
    }
}

/// Whether a host value may be bound to a column of the given tag.
pub open spec fn value_fits(v: Value, t: SqlType) -> bool {
    match v {
        Value::Null => t.nullable,
        Value::Int(_) => t.base == BaseType::Integer,
        Value::Text(_) => t.base == BaseType::VarChar,
        Value::Bool(_) => t.base == BaseType::Bool,
    }
}

/// Tests `value_fits`.
pub fn fits(v: &Value, t: SqlType) -> (r: bool)
    ensures
        r == value_fits(*v, t),
{
    match v {
        Value::Null => t.nullable,
        Value::Int(_) => t.base == BaseType::Integer,
        Value::Text(_) => t.base == BaseType::VarChar,
        Value::Bool(_) => t.base == BaseType::Bool,
    }
}

} // verus!
