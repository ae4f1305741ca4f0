//! Declared tables: their columns, primary key and default select list.
use vstd::prelude::*;
use vstd::string::StringExecFns;
use crate::backend::{Backend, quoted};
use crate::expression::{Column, Source};
use crate::types::SqlType;

verus! {

/// A column as declared: its name and its tag.
#[derive(Debug, Clone)]
pub struct ColumnDef {
    pub name: String,
    pub ty: SqlType,
}

impl ColumnDef {
    pub fn new(name: &str, ty: SqlType) -> (r: ColumnDef)
        ensures
            r.name@ == name@,
            r.ty == ty,
    {
        ColumnDef { name: String::from_str(name), ty }
    }
}

/// A declared relation. `columns` is the default select list in declaration
/// order; `no_select` columns are left out of it but can be named.
#[derive(Debug)]
pub struct Table {
    pub name: String,
    pub primary_key: String,
    pub columns: Vec<ColumnDef>,
    pub no_select: Vec<ColumnDef>,
}

pub open spec fn same_column(a: Column, b: Column) -> bool {
    a.table@ == b.table@ && a.name@ == b.name@ && a.ty == b.ty
}

/// The declared columns of a table, selectable ones first.
pub open spec fn all_defs(t: Table) -> Seq<ColumnDef> {
    t.columns@ + t.no_select@
}

/// `j` is the first position of a column declared under `name`.
pub open spec fn first_named(defs: Seq<ColumnDef>, name: Seq<char>, j: int) -> bool {
    0 <= j < defs.len() && defs[j].name@ == name && forall|k: int| 0 <= k < j ==> defs[k].name@ != name
}

/// `c` is the column that `d` declares in the table named `table`.
pub open spec fn column_of_def(c: Column, table: Seq<char>, d: ColumnDef) -> bool {
    c.table@ == table && c.name@ == d.name@ && c.ty == d.ty
}

impl Column {
    /// A column with the same table, name and tag.
    pub fn duplicate(&self) -> (r: Column)
        ensures
            same_column(r, *self),
    {
        Column { table: self.table.clone(), name: self.name.clone(), ty: self.ty }
    }
}

fn column_of(table: &String, d: &ColumnDef) -> (r: Column)
    ensures
        r.table@ == table@,
        r.name@ == d.name@,
        r.ty == d.ty,
{
    Column { table: table.clone(), name: d.name.clone(), ty: d.ty }
}

impl Table {
    /// Declares a table; its primary key is `id` unless one is named.
    pub fn new(name: &str, primary_key: Option<&str>, columns: Vec<ColumnDef>, no_select: Vec<ColumnDef>) -> (r: Table)
        ensures
            r.name@ == name@,
            primary_key is Some ==> r.primary_key@ == primary_key->Some_0@,
            primary_key is None ==> r.primary_key@ == "id"@,
            r.columns@ == columns@,
            r.no_select@ == no_select@,
    {
        let pk = match primary_key {
            Some(k) => String::from_str(k),
            None => String::from_str("id"),
        };
        Table { name: String::from_str(name), primary_key: pk, columns, no_select }
    }

    /// The table as a FROM source.
    pub fn source(&self) -> (r: Source)
        ensures
            r matches Source::Table(n) && n@ == self.name@,
    {
        Source::Table(self.name.clone())
    }

    /// The first column declared under `name`, among the selectable columns
    /// and then the others; `None` where there is none.
    pub fn column(&self, name: &str) -> (r: Option<Column>)
        ensures
            r is None <==> forall|j: int| 0 <= j < all_defs(*self).len() ==> all_defs(*self)[j].name@ != name@,
            r is Some ==> r->Some_0.table@ == self.name@ && r->Some_0.name@ == name@ && exists|j: int|
                first_named(all_defs(*self), name@, j) && r->Some_0.ty == all_defs(*self)[j].ty,
    {
        let ghost defs = all_defs(*self);
        let key = String::from_str(name);
        let n1 = self.columns.len();
        let mut i: usize = 0;
        while i < n1
            invariant
                defs == self.columns@ + self.no_select@,
                n1 == self.columns@.len(),
                key@ == name@,
                i <= n1,
                forall|k: int| 0 <= k < i ==> defs[k].name@ != name@,
            decreases n1 - i,
        {
            assert(defs[i as int] == self.columns@[i as int]);
            if self.columns[i].name == key {
                assert(first_named(defs, name@, i as int));
                return Some(column_of(&self.name, &self.columns[i]));
            }
            i = i + 1;
        }
        let mut i: usize = 0;
        while i < self.no_select.len()
            invariant
                defs == self.columns@ + self.no_select@,
                n1 == self.columns@.len(),
                key@ == name@,
                i <= self.no_select@.len(),
                forall|k: int| 0 <= k < n1 + i ==> defs[k].name@ != name@,
            decreases self.no_select@.len() - i,
        {
            assert(defs[n1 + i] == self.no_select@[i as int]);
            if self.no_select[i].name == key {
                assert(first_named(defs, name@, n1 + i));
                return Some(column_of(&self.name, &self.no_select[i]));
            }
            i = i + 1;
        }
        None
    }

    /// The default select list: the selectable columns in declaration order.
    pub fn all_columns(&self) -> (r: Vec<Column>)
        ensures
            r@.len() == self.columns@.len(),
            forall|j: int| 0 <= j < r@.len() ==> column_of_def(#[trigger] r@[j], self.name@, self.columns@[j]),
    {
        let mut r: Vec<Column> = Vec::new();
        let mut i: usize = 0;
        while i < self.columns.len()
            invariant
                i <= self.columns@.len(),
                r@.len() == i,
                forall|j: int| 0 <= j < i ==> column_of_def(#[trigger] r@[j], self.name@, self.columns@[j]),
            decreases self.columns@.len() - i,
        {
            let c = column_of(&self.name, &self.columns[i]);
            r.push(c);
            i = i + 1;
        }
        r
    }

    /// `<table>.*`, for contexts such as `COUNT(*)`; it has no SQL type.
    pub fn star_sql(&self, backend: Backend) -> (r: String)
        ensures
            r@ == quoted(self.name@) + ".*"@,
    {
        let mut s = String::new();
        backend.quote_identifier(self.name.as_str(), &mut s);
        s.append(".*");
        s
    }
}

} // verus!
