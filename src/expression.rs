//! Expression trees, FROM sources, and the rules that decide where a node may
//! be selected and with which SQL type.
use vstd::prelude::*;
use crate::types::{BaseType, SqlType, Value};

verus! {

/// A column of a declared table: its table, its name and its declared tag.
#[derive(Debug, Clone)]
pub struct Column {
    pub table: String,
    pub name: String,
    pub ty: SqlType,
}

/// A host value bound to a target tag, emitted as one placeholder.
#[derive(Debug, Clone)]
pub struct Bound {
    pub ty: SqlType,
    pub item: Value,
}

impl Bound {
    /// Wraps `item` as a parameter of tag `ty`.
    pub fn new(ty: SqlType, item: Value) -> (r: Bound)
        ensures
            r.ty == ty,
            r.item == item,
    {
        Bound { ty, item }
    }
}

#[derive(Debug, Clone, Copy, PartialEq, Eq, Structural)]
pub enum BinOp {
    Add,
    Sub,
    Mul,
    Div,
    Eq,
}

/// A node of an expression tree.
#[derive(Debug)]
pub enum Expr {
    Column(Column),
    Bound(Bound),
    Binary(BinOp, Box<Expr>, Box<Expr>),
    /// The inner expression, typed as nullable; emits the inner text alone.
    Nullable(Box<Expr>),
}

#[derive(Debug, Clone, Copy, PartialEq, Eq, Structural)]
pub enum JoinKind {
    Inner,
    LeftOuter,
}

/// What a statement selects from: a table, or a join of two sources.
#[derive(Debug)]
pub enum Source {
    Table(String),
    Join(Box<Source>, Box<Source>, JoinKind, Box<Expr>),
}

/// Whether the table named `t` occurs in the source.
pub open spec fn contains_table(s: Source, t: Seq<char>) -> bool
    decreases s,
{
    match s {
        Source::Table(n) => n@ == t,
        Source::Join(l, r, _, _) => contains_table(*l, t) || contains_table(*r, t),
    }
}

/// The names of the tables of a source, from left to right.
pub open spec fn table_names(s: Source) -> Seq<Seq<char>>
    decreases s,
{
    match s {
        Source::Table(n) => seq![n@],
        Source::Join(l, r, _, _) => table_names(*l) + table_names(*r),
    }
}

/// Whether the expression reads a column of one of the tables named in `ts`.
pub open spec fn refs_any(e: Expr, ts: Seq<Seq<char>>) -> bool
    decreases e,
{
    match e {
        Expr::Column(c) => ts.contains(c.table@),
        Expr::Bound(_) => false,
        Expr::Binary(_, l, r) => refs_any(*l, ts) || refs_any(*r, ts),
        Expr::Nullable(x) => refs_any(*x, ts),
    }
}

/// The tables of a source whose rows may be missing. The right operand of a
/// join is wholly optional where the join is a left outer join, or where its
/// ON condition hangs it from a table that is itself optional; otherwise its
/// own optional tables stay optional.
pub open spec fn outer_tables(s: Source) -> Seq<Seq<char>>
    decreases s,
{
    match s {
        Source::Table(_) => Seq::empty(),
        Source::Join(l, r, k, on) => outer_tables(*l) + if k == JoinKind::LeftOuter || refs_any(
            *on,
            outer_tables(*l),
        ) {
            table_names(*r)
        } else {
            outer_tables(*r)
        },
    }
}

/// Whether the table named `t` is reached through a chain of joins with a
/// left outer join on its side, so that its rows may be missing.
pub open spec fn outer_side(s: Source, t: Seq<char>) -> bool {
    outer_tables(s).contains(t)
}

pub open spec fn names_view(v: Seq<String>) -> Seq<Seq<char>> {
    v.map_values(|x: String| x@)
}

/// Whether `t` is among `names`.
pub fn has_name(names: &Vec<String>, t: &String) -> (r: bool)
    ensures
        r == names_view(names@).contains(t@),
{
    let mut i: usize = 0;
    while i < names.len()
        invariant
            i <= names@.len(),
            forall|j: int| 0 <= j < i ==> names@[j]@ != t@,
        decreases names@.len() - i,
    {
        if names[i] == *t {
            assert(names_view(names@)[i as int] == t@);
            return true;
        }
        i = i + 1;
    }
    assert forall|j: int| 0 <= j < names_view(names@).len() implies names_view(names@)[j] != t@ by {
        assert(names_view(names@)[j] == names@[j]@);
    }
    false
}

/// The tag of a column selected from `s`, or `None` where `s` does not hold
/// its table. On the outer side of a left outer join the tag is nullable.
pub open spec fn column_type(c: Column, s: Source) -> Option<SqlType> {
    if !contains_table(s, c.table@) {
        None
    } else if outer_side(s, c.table@) {
        Some(c.ty.to_nullable())
    } else {
        Some(c.ty)
    }
}

/// The tag of a binary node whose operands have tags `lt` and `rt`. The right
/// operand must coerce to the left one's tag; arithmetic keeps the left tag,
/// and a comparison yields a boolean as nullable as the left operand.
pub open spec fn binary_type(op: BinOp, lt: SqlType, rt: SqlType) -> Option<SqlType> {
    if lt.base != rt.base || (rt.nullable && !lt.nullable) {
        None
    } else if op == BinOp::Eq {
        Some(SqlType { base: BaseType::Bool, nullable: lt.nullable })
    } else if lt.base == BaseType::Integer {
        Some(lt)
    } else {
        None
    }
}

/// The tag of `e` when the FROM clause is `s`, or `None` where `e` may not be
/// selected from `s`.
pub open spec fn expr_type(e: Expr, s: Source) -> Option<SqlType>
    decreases e,
{
    match e {
        Expr::Column(c) => column_type(c, s),
        Expr::Bound(b) => Some(b.ty),
        Expr::Binary(op, l, r) => match (expr_type(*l, s), expr_type(*r, s)) {
            (Some(lt), Some(rt)) => binary_type(op, lt, rt),
            _ => None,
        },
        Expr::Nullable(x) => match expr_type(*x, s) {
            Some(t) => Some(t.to_nullable()),
            None => None,
        },
    }
}

/// Every ON condition of the source is a boolean selectable from its own join.
pub open spec fn source_ok(s: Source) -> bool
    decreases s,
{
    match s {
        Source::Table(_) => true,
        Source::Join(l, r, k, on) => source_ok(*l) && source_ok(*r) && match expr_type(*on, s) {
            Some(t) => t.base == BaseType::Bool,
            None => false,
        },
    }
}

impl Source {
    pub fn contains(&self, t: &String) -> (r: bool)
        ensures
            r == contains_table(*self, t@),
        decreases self,
    {
        match self {
            Source::Table(n) => *n == *t,
            Source::Join(l, r, _, _) => l.contains(t) || r.contains(t),
        }
    }

    /// The names of the source's tables, from left to right.
    pub fn names(&self) -> (r: Vec<String>)
        ensures
            names_view(r@) == table_names(*self),
        decreases self,
    {
        match self {
            Source::Table(n) => {
                let r = vec![n.clone()];
                assert(names_view(r@) =~= table_names(*self));
                r
            },
            Source::Join(l, r, _, _) => {
                let mut a = l.names();
                let mut b = r.names();
                let ghost a0 = a@;
                let ghost b0 = b@;
                a.append(&mut b);
                assert(names_view(a@) =~= names_view(a0) + names_view(b0));
                a
            },
        }
    }

    /// The names of the tables whose rows may be missing from the source.
    pub fn outer_names(&self) -> (r: Vec<String>)
        ensures
            names_view(r@) == outer_tables(*self),
        decreases self,
    {
        match self {
            Source::Table(_) => {
                let r: Vec<String> = Vec::new();
                assert(names_view(r@) =~= outer_tables(*self));
                r
            },
            Source::Join(l, r, k, on) => {
                let mut a = l.outer_names();
                let mut b = if *k == JoinKind::LeftOuter || on.refs_any(&a) {
                    r.names()
                } else {
                    r.outer_names()
                };
                let ghost a0 = a@;
                let ghost b0 = b@;
                a.append(&mut b);
                assert(names_view(a@) =~= names_view(a0) + names_view(b0));
                a
            },
        }
    }

    pub fn is_outer_side(&self, t: &String) -> (r: bool)
        ensures
            r == outer_side(*self, t@),
    {
        let names = self.outer_names();
        has_name(&names, t)
    }

    /// Checks every ON condition of the source.
    pub fn is_valid(&self) -> (r: bool)
        ensures
            r == source_ok(*self),
        decreases self,
    {
        match self {
            Source::Table(_) => true,
            Source::Join(l, r, _, on) => {
                if !l.is_valid() || !r.is_valid() {
                    return false;
                }
                match on.type_in(self) {
                    Some(t) => t.base == BaseType::Bool,
                    None => false,
                }
            },
        }
    }
}

impl Column {
    pub fn new(table: String, name: String, ty: SqlType) -> (r: Column)
        ensures
            r.table@ == table@,
            r.name@ == name@,
            r.ty == ty,
    {
        Column { table, name, ty }
    }

    /// The column's tag when selected from `s`, or `None` where it may not be.
    pub fn type_in(&self, s: &Source) -> (r: Option<SqlType>)
        ensures
            r == column_type(*self, *s),
    {
        if !s.contains(&self.table) {
            None
        } else if s.is_outer_side(&self.table) {
            Some(self.ty.nullable())
        } else {
            Some(self.ty)
        }
    }
}

pub fn binary_type_of(op: BinOp, lt: SqlType, rt: SqlType) -> (r: Option<SqlType>)
    ensures
        r == binary_type(op, lt, rt),
{
    if lt.base != rt.base || (rt.nullable && !lt.nullable) {
        None
    } else if op == BinOp::Eq {
        Some(SqlType { base: BaseType::Bool, nullable: lt.nullable })
    } else if lt.base == BaseType::Integer {
        Some(lt)
    } else {
        None
    }
}

impl Expr {
    /// Whether the expression reads a column of a table named in `ts`.
    pub fn refs_any(&self, ts: &Vec<String>) -> (r: bool)
        ensures
            r == refs_any(*self, names_view(ts@)),
        decreases self,
    {
        match self {
            Expr::Column(c) => has_name(ts, &c.table),
            Expr::Bound(_) => false,
            Expr::Binary(_, l, r) => l.refs_any(ts) || r.refs_any(ts),
            Expr::Nullable(x) => x.refs_any(ts),
        }
    }

    /// The tag of the expression when the FROM clause is `s`, or `None` where
    /// it may not be selected from `s`.
    pub fn type_in(&self, s: &Source) -> (r: Option<SqlType>)
        ensures
            r == expr_type(*self, *s),
        decreases self,
    {
        match self {
            Expr::Column(c) => c.type_in(s),
            Expr::Bound(b) => Some(b.ty),
            Expr::Binary(op, l, r) => match (l.type_in(s), r.type_in(s)) {
                (Some(lt), Some(rt)) => binary_type_of(*op, lt, rt),
                _ => None,
            },
            Expr::Nullable(x) => match x.type_in(s) {
                Some(t) => Some(t.nullable()),
                None => None,
            },
        }
    }
}

} // verus!
