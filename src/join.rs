//! Joins derived from declared foreign keys, and how they shape the type of
//! each column selected through them.
use vstd::prelude::*;
use crate::backend::Backend;
use crate::expression::{
    BinOp, Column, Expr, JoinKind, Source, column_type, contains_table, outer_tables, refs_any,
    table_names,
};
use crate::query_builder::{bound_count, expr_binds, expr_sql, source_binds, source_count, source_sql};
use crate::table::same_column;

verus! {

/// A foreign key: a column of the child table that refers to the parent
/// table's primary key.
#[derive(Debug)]
pub struct ForeignKey {
    pub child: Column,
    pub parent: Column,
}

/// `e` is the column `c` typed as nullable.
pub open spec fn is_nullable_column(e: Expr, c: Column) -> bool {
    match e {
        Expr::Nullable(x) => match *x {
            Expr::Column(d) => same_column(d, c),
            _ => false,
        },
        _ => false,
    }
}

/// `e` is the ON condition of the foreign key: `child.nullable() = parent.nullable()`.
pub open spec fn is_fk_condition(e: Expr, fk: ForeignKey) -> bool {
    match e {
        Expr::Binary(op, l, r) => op == BinOp::Eq && is_nullable_column(*l, fk.child)
            && is_nullable_column(*r, fk.parent),
        _ => false,
    }
}

pub open spec fn is_table(s: Source, name: Seq<char>) -> bool {
    match s {
        Source::Table(n) => n@ == name,
        _ => false,
    }
}

/// `s` joins the child table onto `left` along the foreign key.
pub open spec fn joins_child_onto(s: Source, left: spec_fn(Source) -> bool, fk: ForeignKey, kind: JoinKind) -> bool {
    match s {
        Source::Join(l, r, k, on) => left(*l) && is_table(*r, fk.child.table@) && k == kind
            && is_fk_condition(*on, fk),
        _ => false,
    }
}

/// `s` is `parent JOIN child ON child.fk = parent.pk`.
pub open spec fn is_parent_join(s: Source, fk: ForeignKey, kind: JoinKind) -> bool {
    joins_child_onto(s, |l: Source| is_table(l, fk.parent.table@), fk, kind)
}

/// `s` is `(a JOIN b ON ...) JOIN c ON ...` along `first` (from a to b) and
/// then `second` (from b to c), each join at its own nesting level.
pub open spec fn is_through_join(
    s: Source,
    first: ForeignKey,
    second: ForeignKey,
    k1: JoinKind,
    k2: JoinKind,
) -> bool {
    joins_child_onto(s, |l: Source| is_parent_join(l, first, k1), second, k2)
}

impl ForeignKey {
    pub fn new(child: Column, parent: Column) -> (r: ForeignKey)
        ensures
            r.child == child,
            r.parent == parent,
    {
        ForeignKey { child, parent }
    }

    /// `child.nullable() = parent.nullable()`: well typed under either kind of join.
    pub fn on_condition(&self) -> (r: Expr)
        ensures
            is_fk_condition(r, *self),
    {
        Expr::Binary(
            BinOp::Eq,
            Box::new(Expr::Nullable(Box::new(Expr::Column(self.child.duplicate())))),
            Box::new(Expr::Nullable(Box::new(Expr::Column(self.parent.duplicate())))),
        )
    }

    /// `parent JOIN child ON ...`, with the parent as the root.
    pub fn join_from_parent(&self, kind: JoinKind) -> (r: Source)
        ensures
            is_parent_join(r, *self, kind),
    {
        Source::Join(
            Box::new(Source::Table(self.parent.table.clone())),
            Box::new(Source::Table(self.child.table.clone())),
            kind,
            Box::new(self.on_condition()),
        )
    }

    /// `child JOIN parent ON ...`, with the child as the root.
    pub fn join_from_child(&self, kind: JoinKind) -> (r: Source)
        ensures
            r matches Source::Join(l, rr, k, on) && is_table(*l, self.child.table@) && is_table(
                *rr,
                self.parent.table@,
            ) && k == kind && is_fk_condition(*on, *self),
    {
        Source::Join(
            Box::new(Source::Table(self.child.table.clone())),
            Box::new(Source::Table(self.parent.table.clone())),
            kind,
            Box::new(self.on_condition()),
        )
    }

    /// `left JOIN child ON ...`: extends a source that holds the parent table.
    pub fn join_onto(&self, left: Source, kind: JoinKind) -> (r: Source)
        ensures
            r matches Source::Join(l, rr, k, on) && *l == left && is_table(*rr, self.child.table@)
                && k == kind && is_fk_condition(*on, *self),
    {
        Source::Join(
            Box::new(left),
            Box::new(Source::Table(self.child.table.clone())),
            kind,
            Box::new(self.on_condition()),
        )
    }
}

/// The join from the parent of `first` to the child of `second`, through the
/// table that is the child of `first` and the parent of `second`.
pub fn join_through(first: &ForeignKey, second: &ForeignKey, k1: JoinKind, k2: JoinKind) -> (r: Source)
    ensures
        is_through_join(r, *first, *second, k1, k2),
{
    let inner = first.join_from_parent(k1);
    let r = second.join_onto(inner, k2);
    r
}

proof fn lemma_seq1_contains(x: Seq<char>, y: Seq<char>)
    ensures
        seq![x].contains(y) <==> x == y,
{
    if seq![x].contains(y) {
        let i = choose|i: int| 0 <= i < 1 && seq![x][i] == y;
    } else {
        assert(seq![x][0] == x);
    }
}

proof fn lemma_seq2_contains(x: Seq<char>, z: Seq<char>, y: Seq<char>)
    ensures
        seq![x, z].contains(y) <==> (y == x || y == z),
{
    if seq![x, z].contains(y) {
        let i = choose|i: int| 0 <= i < 2 && seq![x, z][i] == y;
    } else {
        assert(seq![x, z][0] == x);
        assert(seq![x, z][1] == z);
    }
}

proof fn lemma_refs_none(e: Expr)
    ensures
        !refs_any(e, Seq::<Seq<char>>::empty()),
    decreases e,
{
    match e {
        Expr::Binary(_, l, r) => {
            lemma_refs_none(*l);
            lemma_refs_none(*r);
        },
        Expr::Nullable(x) => lemma_refs_none(*x),
        _ => {},
    }
}

proof fn lemma_fk_condition_text(e1: Expr, e2: Expr, fk: ForeignKey, b: Backend, n: nat)
    requires
        is_fk_condition(e1, fk),
        is_fk_condition(e2, fk),
    ensures
        expr_sql(e1, b, n) == expr_sql(e2, b, n),
        expr_binds(e1) == expr_binds(e2),
        bound_count(e1) == 0,
        bound_count(e2) == 0,
{
    let l1 = e1->Binary_1;
    let l2 = e2->Binary_1;
    let r1 = e1->Binary_2;
    let r2 = e2->Binary_2;
    let (x1, x2, y1, y2) = (l1->Nullable_0, l2->Nullable_0, r1->Nullable_0, r2->Nullable_0);
    assert(expr_sql(*x1, b, n) == expr_sql(*x2, b, n));
    assert(expr_sql(*y1, b, n) == expr_sql(*y2, b, n));
    assert(bound_count(*x1) == 0 && bound_count(*x2) == 0);
    assert(bound_count(*y1) == 0 && bound_count(*y2) == 0);
    assert(expr_binds(*x1) == expr_binds(*x2));
    assert(expr_binds(*y1) == expr_binds(*y2));
    assert(expr_sql(*l1, b, n) == expr_sql(*l2, b, n));
    assert(bound_count(*l1) == 0);
    assert(bound_count(*l2) == 0);
    assert(expr_sql(*r1, b, n) == expr_sql(*r2, b, n));
    assert(expr_binds(*l1) == expr_binds(*l2));
    assert(expr_binds(*r1) == expr_binds(*r2));
    assert(bound_count(*r1) == 0);
    assert(bound_count(*r2) == 0);
}

proof fn lemma_contains_names(s: Source, t: Seq<char>)
    ensures
        contains_table(s, t) <==> table_names(s).contains(t),
    decreases s,
{
    match s {
        Source::Table(n) => {
            assert(table_names(s)[0] == n@);
        },
        Source::Join(l, r, _, _) => {
            lemma_contains_names(*l, t);
            lemma_contains_names(*r, t);
            let a = table_names(*l);
            let b = table_names(*r);
            if a.contains(t) {
                let i = choose|i: int| 0 <= i < a.len() && a[i] == t;
                assert((a + b)[i] == t);
            }
            if b.contains(t) {
                let i = choose|i: int| 0 <= i < b.len() && b[i] == t;
                assert((a + b)[a.len() + i] == t);
            }
            if (a + b).contains(t) {
                let i = choose|i: int| 0 <= i < (a + b).len() && (a + b)[i] == t;
                if i < a.len() {
                    assert(a[i] == t);
                } else {
                    assert(b[i - a.len()] == t);
                }
            }
        },
    }
}

/// A column is selectable from a FROM source exactly when the source's join
/// tree holds the column's table.
pub proof fn lemma_selectable_iff_member(c: Column, s: Source)
    ensures
        column_type(c, s) is Some <==> table_names(s).contains(c.table@),
{
    lemma_contains_names(s, c.table@);
}

/// Along a foreign key from a child table to a distinct parent table, a
/// column of the child selected from the child alone, or from an inner join
/// rooted at the parent, keeps its tag; from a left outer join rooted at the
/// parent it is nullable. A column of the parent keeps its tag either way.
pub proof fn lemma_join_nullability(fk: ForeignKey, kind: JoinKind, s: Source, alone: Source, c: Column, p: Column)
    requires
        fk.child.table@ != fk.parent.table@,
        is_parent_join(s, fk, kind),
        is_table(alone, fk.child.table@),
        c.table@ == fk.child.table@,
        p.table@ == fk.parent.table@,
    ensures
        column_type(c, alone) == Some(c.ty),
        kind == JoinKind::LeftOuter ==> column_type(c, s) == Some(c.ty.to_nullable()),
        kind == JoinKind::Inner ==> column_type(c, s) == Some(c.ty),
        column_type(p, s) == Some(p.ty),
{
    let l = s->Join_0;
    let r = s->Join_1;
    let on = s->Join_3;
    assert(contains_table(*r, c.table@));
    assert(contains_table(*l, p.table@));
    assert(outer_tables(*l) =~= Seq::<Seq<char>>::empty());
    lemma_refs_none(*on);
    assert(table_names(*r) =~= seq![fk.child.table@]);
    assert(outer_tables(*r) =~= Seq::<Seq<char>>::empty());
    lemma_seq1_contains(fk.child.table@, p.table@);
    lemma_seq1_contains(fk.child.table@, c.table@);
    if kind == JoinKind::LeftOuter {
        assert(outer_tables(s) =~= seq![fk.child.table@]);
    } else {
        assert(outer_tables(s) =~= Seq::<Seq<char>>::empty());
    }
    assert(outer_tables(alone) =~= Seq::<Seq<char>>::empty());
}

/// Nullability carries through a chain of joins: along `first` (from a to b)
/// and then `second` (from b to c), over three distinct tables, a column of
/// c selected from the combined join is nullable exactly when either hop is a
/// left outer join, and a column of a keeps its tag.
pub proof fn lemma_transitive_nullability(
    first: ForeignKey,
    second: ForeignKey,
    k1: JoinKind,
    k2: JoinKind,
    s: Source,
    c: Column,
    a: Column,
)
    requires
        first.parent.table@ != first.child.table@,
        second.child.table@ != first.child.table@,
        second.child.table@ != first.parent.table@,
        second.parent.table@ == first.child.table@,
        is_through_join(s, first, second, k1, k2),
        c.table@ == second.child.table@,
        a.table@ == first.parent.table@,
    ensures
        (k1 == JoinKind::LeftOuter || k2 == JoinKind::LeftOuter) ==> column_type(c, s) == Some(
            c.ty.to_nullable(),
        ),
        (k1 == JoinKind::Inner && k2 == JoinKind::Inner) ==> column_type(c, s) == Some(c.ty),
        column_type(a, s) == Some(a.ty),
{
    let inner = s->Join_0;
    let r = s->Join_1;
    let on = s->Join_3;
    let l1 = inner->Join_0;
    let r1 = inner->Join_1;
    let on1 = inner->Join_3;
    let bname = first.child.table@;
    assert(contains_table(*r, c.table@));
    assert(contains_table(*l1, a.table@));
    assert(contains_table(*inner, a.table@));
    assert(outer_tables(*l1) =~= Seq::<Seq<char>>::empty());
    lemma_refs_none(*on1);
    assert(table_names(*r1) =~= seq![bname]);
    assert(outer_tables(*r1) =~= Seq::<Seq<char>>::empty());
    assert(table_names(*r) =~= seq![c.table@]);
    assert(outer_tables(*r) =~= Seq::<Seq<char>>::empty());
    lemma_seq1_contains(c.table@, a.table@);
    lemma_seq1_contains(c.table@, c.table@);
    lemma_seq2_contains(bname, c.table@, a.table@);
    lemma_seq2_contains(bname, c.table@, c.table@);
    if k1 == JoinKind::LeftOuter {
        assert(outer_tables(*inner) =~= seq![bname]);
        let pr = on->Binary_2;
        let px = pr->Nullable_0;
        lemma_seq1_contains(bname, bname);
        assert(refs_any(*px, outer_tables(*inner)));
        assert(refs_any(*pr, outer_tables(*inner)));
        assert(refs_any(*on, outer_tables(*inner)));
        assert(outer_tables(s) =~= seq![bname, c.table@]);
    } else {
        assert(outer_tables(*inner) =~= Seq::<Seq<char>>::empty());
        lemma_refs_none(*on);
        if k2 == JoinKind::LeftOuter {
            assert(outer_tables(s) =~= seq![c.table@]);
        } else {
            assert(outer_tables(s) =~= Seq::<Seq<char>>::empty());
        }
    }
}

/// A join derived through an intermediate table reads as the same FROM/ON
/// text, with the same parameters, as any two-level join composed by hand
/// along the same foreign keys and kinds.
pub proof fn lemma_transitive_join_text(
    derived: Source,
    manual: Source,
    first: ForeignKey,
    second: ForeignKey,
    k1: JoinKind,
    k2: JoinKind,
    b: Backend,
    n: nat,
)
    requires
        is_through_join(derived, first, second, k1, k2),
        is_through_join(manual, first, second, k1, k2),
    ensures
        source_sql(derived, b, n) == source_sql(manual, b, n),
        source_binds(derived) == source_binds(manual),
{
    let di = derived->Join_0;
    let mi = manual->Join_0;
    lemma_fk_condition_text(*di->Join_3, *mi->Join_3, first, b, n);
    let m = n + source_count(*di);
    lemma_fk_condition_text(*derived->Join_3, *manual->Join_3, second, b, m);
    lemma_fk_condition_text(*di->Join_3, *mi->Join_3, first, b, n);
    assert(source_count(*di->Join_0) == 0);
    assert(source_count(*mi->Join_0) == 0);
    assert(source_count(*di->Join_1) == 0);
    assert(source_count(*mi->Join_1) == 0);
    assert(source_sql(*di->Join_0, b, n) == source_sql(*mi->Join_0, b, n));
    assert(source_sql(*di->Join_1, b, n) == source_sql(*mi->Join_1, b, n));
    assert(source_binds(*di->Join_0) == source_binds(*mi->Join_0));
    assert(source_binds(*di->Join_1) == source_binds(*mi->Join_1));
    assert(source_count(*di) == source_count(*mi));
    assert(source_sql(*di, b, n) == source_sql(*mi, b, n));
    assert(source_binds(*di) == source_binds(*mi));
    assert(source_sql(*derived->Join_1, b, m) == source_sql(*manual->Join_1, b, m));
    assert(source_count(*derived->Join_1) == 0);
    assert(source_count(*manual->Join_1) == 0);
    lemma_fk_condition_text(*derived->Join_3, *manual->Join_3, second, b, m);
    assert(source_binds(*derived->Join_1) == source_binds(*manual->Join_1));
    assert(source_binds(*di) == source_binds(*mi));
}

} // verus!
