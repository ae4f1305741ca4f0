//! Emission of SQL text and bound values, in one left-to-right pass.
use vstd::prelude::*;
use vstd::string::StringExecFns;
use crate::backend::{Backend, placeholder, quoted};
use crate::codec::{EncodeError, IsNull, raw_of, to_sql};
use crate::expression::{BinOp, Bound, Expr, JoinKind, Source, expr_type, source_ok};
use crate::types::{SqlType, value_fits};

verus! {

/// A parameter as handed to the driver: its tag, and its bytes or `None` for NULL.
#[derive(Debug, Clone)]
pub struct BoundValue {
    pub ty: SqlType,
    pub bytes: Option<Vec<u8>>,
}

impl View for BoundValue {
    type V = (SqlType, Option<Seq<u8>>);

    open spec fn view(&self) -> (SqlType, Option<Seq<u8>>) {
        (self.ty, match self.bytes {
            None => None,
            Some(b) => Some(b@),
        })
    }
}

pub open spec fn binds_view(v: Seq<BoundValue>) -> Seq<(SqlType, Option<Seq<u8>>)> {
    v.map_values(|b: BoundValue| b@)
}

/// The text and the parameters of a statement under construction.
#[derive(Debug)]
pub struct QueryBuilder {
    pub backend: Backend,
    pub sql: String,
    pub binds: Vec<BoundValue>,
}

/// Why a statement could not be built.
#[derive(Debug, Clone, Copy, PartialEq, Eq, Structural)]
pub enum QueryError {
    /// An ON condition of the FROM clause is no boolean selectable from its join.
    InvalidSource,
    /// The selected expression may not be selected from the FROM clause.
    NotSelectable,
    /// A bound value does not fit its tag.
    Encode(EncodeError),
}

/// The number of bound values in an expression.
pub open spec fn bound_count(e: Expr) -> nat
    decreases e,
{
    match e {
        Expr::Column(_) => 0,
        Expr::Bound(_) => 1,
        Expr::Binary(_, l, r) => bound_count(*l) + bound_count(*r),
        Expr::Nullable(x) => bound_count(*x),
    }
}

/// Whether every bound value of the expression fits its tag.
pub open spec fn leaves_fit(e: Expr) -> bool
    decreases e,
{
    match e {
        Expr::Column(_) => true,
        Expr::Bound(b) => value_fits(b.item, b.ty),
        Expr::Binary(_, l, r) => leaves_fit(*l) && leaves_fit(*r),
        Expr::Nullable(x) => leaves_fit(*x),
    }
}

/// The bound values of an expression, encoded, from left to right.
pub open spec fn expr_binds(e: Expr) -> Seq<(SqlType, Option<Seq<u8>>)>
    decreases e,
{
    match e {
        Expr::Column(_) => Seq::empty(),
        Expr::Bound(b) => seq![(b.ty, raw_of(b.item))],
        Expr::Binary(_, l, r) => expr_binds(*l) + expr_binds(*r),
        Expr::Nullable(x) => expr_binds(*x),
    }
}

pub open spec fn op_text(op: BinOp) -> Seq<char> {
    match op {
        BinOp::Add => seq![' ', '+', ' '],
        BinOp::Sub => seq![' ', '-', ' '],
        BinOp::Mul => seq![' ', '*', ' '],
        BinOp::Div => seq![' ', '/', ' '],
        BinOp::Eq => seq![' ', '=', ' '],
    }
}

/// The text of an expression whose first placeholder has position `n`.
pub open spec fn expr_sql(e: Expr, b: Backend, n: nat) -> Seq<char>
    decreases e,
{
    match e {
        Expr::Column(c) => quoted(c.table@) + seq!['.'] + quoted(c.name@),
        Expr::Bound(_) => placeholder(b, n),
        Expr::Binary(op, l, r) => expr_sql(*l, b, n) + op_text(op) + expr_sql(
            *r,
            b,
            n + bound_count(*l),
        ),
        Expr::Nullable(x) => expr_sql(*x, b, n),
    }
}

/// The positions of the placeholders of an expression, from left to right,
/// the first having position `n`.
pub open spec fn placeholder_positions(e: Expr, n: nat) -> Seq<nat>
    decreases e,
{
    match e {
        Expr::Column(_) => Seq::empty(),
        Expr::Bound(_) => seq![n],
        Expr::Binary(_, l, r) => placeholder_positions(*l, n) + placeholder_positions(
            *r,
            n + bound_count(*l),
        ),
        Expr::Nullable(x) => placeholder_positions(*x, n),
    }
}

pub open spec fn join_text(k: JoinKind) -> Seq<char> {
    match k {
        JoinKind::Inner => " INNER JOIN "@,
        JoinKind::LeftOuter => " LEFT OUTER JOIN "@,
    }
}

pub open spec fn source_count(s: Source) -> nat
    decreases s,
{
    match s {
        Source::Table(_) => 0,
        Source::Join(l, r, _, on) => source_count(*l) + source_count(*r) + bound_count(*on),
    }
}

pub open spec fn source_fits(s: Source) -> bool
    decreases s,
{
    match s {
        Source::Table(_) => true,
        Source::Join(l, r, _, on) => source_fits(*l) && source_fits(*r) && leaves_fit(*on),
    }
}

pub open spec fn source_binds(s: Source) -> Seq<(SqlType, Option<Seq<u8>>)>
    decreases s,
{
    match s {
        Source::Table(_) => Seq::empty(),
        Source::Join(l, r, _, on) => source_binds(*l) + source_binds(*r) + expr_binds(*on),
    }
}

/// The text of a FROM source whose first placeholder has position `n`. Each
/// join keeps its own ON condition at its own nesting level.
pub open spec fn source_sql(s: Source, b: Backend, n: nat) -> Seq<char>
    decreases s,
{
    match s {
        Source::Table(t) => quoted(t@),
        Source::Join(l, r, k, on) => source_sql(*l, b, n) + join_text(k) + source_sql(
            *r,
            b,
            n + source_count(*l),
        ) + " ON "@ + expr_sql(*on, b, n + source_count(*l) + source_count(*r)),
    }
}

/// The text of `SELECT e FROM s`.
pub open spec fn select_sql(e: Expr, s: Source, b: Backend) -> Seq<char> {
    "SELECT "@ + expr_sql(e, b, 0) + " FROM "@ + source_sql(s, b, bound_count(e))
}

impl QueryBuilder {
    pub fn new(backend: Backend) -> (r: QueryBuilder)
        ensures
            r.backend == backend,
            r.sql@ == Seq::<char>::empty(),
            r.binds@ == Seq::<BoundValue>::empty(),
    {
        QueryBuilder { backend, sql: String::new(), binds: Vec::new() }
    }

    pub fn push_sql(&mut self, text: &str)
        ensures
            final(self).sql@ == old(self).sql@ + text@,
            final(self).binds@ == old(self).binds@,
            final(self).backend == old(self).backend,
    {
        self.sql.append(text);
    }

    pub fn push_identifier(&mut self, name: &str)
        ensures
            final(self).sql@ == old(self).sql@ + quoted(name@),
            final(self).binds@ == old(self).binds@,
            final(self).backend == old(self).backend,
    {
        self.backend.quote_identifier(name, &mut self.sql);
    }

    /// Appends one placeholder and its bound value, the two in matching position.
    pub fn push_bound_value(&mut self, ty: SqlType, bytes: Option<Vec<u8>>)
        requires
            old(self).binds@.len() < usize::MAX,
        ensures
            final(self).sql@ == old(self).sql@ + placeholder(
                old(self).backend,
                old(self).binds@.len() as nat,
            ),
            final(self).binds@ == old(self).binds@.push(BoundValue { ty, bytes }),
            final(self).backend == old(self).backend,
    {
        let index = self.binds.len();
        self.backend.push_placeholder(index, &mut self.sql);
        self.binds.push(BoundValue { ty, bytes });
    }

    /// Encodes a bound value and appends it with its placeholder.
    pub fn push_bound(&mut self, b: &Bound) -> (r: Result<(), EncodeError>)
        requires
            old(self).binds@.len() < usize::MAX,
        ensures
            r is Ok <==> value_fits(b.item, b.ty),
            r is Ok ==> final(self).sql@ == old(self).sql@ + placeholder(
                old(self).backend,
                old(self).binds@.len() as nat,
            ),
            r is Ok ==> binds_view(final(self).binds@) == binds_view(old(self).binds@).push(
                (b.ty, raw_of(b.item)),
            ),
            final(self).backend == old(self).backend,
    {
        let mut bytes: Vec<u8> = Vec::new();
        match to_sql(&b.item, b.ty, &mut bytes) {
            Err(e) => Err(e),
            Ok(IsNull::Yes) => {
                self.push_bound_value(b.ty, None);
                assert(binds_view(self.binds@) =~= binds_view(old(self).binds@).push(
                    (b.ty, raw_of(b.item)),
                ));
                Ok(())
            },
            Ok(IsNull::No) => {
                self.push_bound_value(b.ty, Some(bytes));
                assert(binds_view(self.binds@) =~= binds_view(old(self).binds@).push(
                    (b.ty, raw_of(b.item)),
                ));
                Ok(())
            },
        }
    }
}

fn op_str(op: BinOp) -> (r: &'static str)
    ensures
        r@ == op_text(op),
{
    proof {
        reveal_strlit(" + ");
        reveal_strlit(" - ");
        reveal_strlit(" * ");
        reveal_strlit(" / ");
        reveal_strlit(" = ");
    }
    match op {
        BinOp::Add => " + ",
        BinOp::Sub => " - ",
        BinOp::Mul => " * ",
        BinOp::Div => " / ",
        BinOp::Eq => " = ",
    }
}

fn join_str(k: JoinKind) -> (r: &'static str)
    ensures
        r@ == join_text(k),
{
    match k {
        JoinKind::Inner => " INNER JOIN ",
        JoinKind::LeftOuter => " LEFT OUTER JOIN ",
    }
}

/// Appends the text of `e` to the builder and its bound values to the
/// parameters, the k-th placeholder standing for the k-th value. Fails, with
/// the builder to be discarded, where a bound value does not fit its tag.
pub fn emit_expr(e: &Expr, out: &mut QueryBuilder) -> (r: Result<(), EncodeError>)
    requires
        old(out).binds@.len() + bound_count(*e) < usize::MAX,
    ensures
        r is Ok <==> leaves_fit(*e),
        final(out).backend == old(out).backend,
        r is Ok ==> final(out).sql@ == old(out).sql@ + expr_sql(
            *e,
            old(out).backend,
            old(out).binds@.len() as nat,
        ),
        r is Ok ==> binds_view(final(out).binds@) == binds_view(old(out).binds@) + expr_binds(*e),
        r is Ok ==> final(out).binds@.len() == old(out).binds@.len() + bound_count(*e),
    decreases e,
{
    match e {
        Expr::Column(c) => {
            proof {
                reveal_strlit(".");
            }
            out.push_identifier(c.table.as_str());
            out.push_sql(".");
            out.push_identifier(c.name.as_str());
            assert(binds_view(out.binds@) =~= binds_view(old(out).binds@) + expr_binds(*e));
            Ok(())
        },
        Expr::Bound(b) => {
            let r = out.push_bound(b);
            proof {
                if r is Ok {
                    assert(binds_view(out.binds@) =~= binds_view(old(out).binds@) + expr_binds(
                        *e,
                    ));
                    assert(binds_view(out.binds@).len() == out.binds@.len());
                    assert(binds_view(old(out).binds@).len() == old(out).binds@.len());
                }
            }
            r
        },
        Expr::Binary(op, l, r) => {
            emit_expr(l, out)?;
            out.push_sql(op_str(*op));
            let res = emit_expr(r, out);
            if res.is_err() {
                return res;
            }
            assert(binds_view(out.binds@) =~= binds_view(old(out).binds@) + expr_binds(*e));
            Ok(())
        },
        Expr::Nullable(x) => emit_expr(x, out),
    }
}

/// Appends the text of a FROM source and the bound values of its ON
/// conditions, in the order in which their placeholders stand.
pub fn emit_source(s: &Source, out: &mut QueryBuilder) -> (r: Result<(), EncodeError>)
    requires
        old(out).binds@.len() + source_count(*s) < usize::MAX,
    ensures
        r is Ok <==> source_fits(*s),
        final(out).backend == old(out).backend,
        r is Ok ==> final(out).sql@ == old(out).sql@ + source_sql(
            *s,
            old(out).backend,
            old(out).binds@.len() as nat,
        ),
        r is Ok ==> binds_view(final(out).binds@) == binds_view(old(out).binds@) + source_binds(
            *s,
        ),
        r is Ok ==> final(out).binds@.len() == old(out).binds@.len() + source_count(*s),
    decreases s,
{
    match s {
        Source::Table(t) => {
            out.push_identifier(t.as_str());
            assert(binds_view(out.binds@) =~= binds_view(old(out).binds@) + source_binds(*s));
            Ok(())
        },
        Source::Join(l, r, k, on) => {
            proof {
                reveal_strlit(" ON ");
                reveal_strlit(" INNER JOIN ");
                reveal_strlit(" LEFT OUTER JOIN ");
            }
            emit_source(l, out)?;
            out.push_sql(join_str(*k));
            emit_source(r, out)?;
            out.push_sql(" ON ");
            let res = emit_expr(on, out);
            if res.is_err() {
                return res;
            }
            assert(binds_view(out.binds@) =~= binds_view(old(out).binds@) + source_binds(*s));
            assert(out.sql@ =~= old(out).sql@ + source_sql(
                *s,
                old(out).backend,
                old(out).binds@.len() as nat,
            ));
            Ok(())
        },
    }
}

/// Builds `SELECT e FROM s` for a backend. The FROM clause is checked first,
/// then whether `e` may be selected from it, then the bound values are
/// encoded; on success the result holds the text and the parameters, the
/// select list's before those of the FROM clause.
pub fn build_select(e: &Expr, s: &Source, backend: Backend) -> (r: Result<QueryBuilder, QueryError>)
    requires
        bound_count(*e) + source_count(*s) < usize::MAX,
    ensures
        r == Err::<QueryBuilder, QueryError>(QueryError::InvalidSource) <==> !source_ok(*s),
        r == Err::<QueryBuilder, QueryError>(QueryError::NotSelectable) <==> source_ok(*s)
            && expr_type(*e, *s) is None,
        r is Err && r->Err_0 is Encode <==> source_ok(*s) && expr_type(*e, *s) is Some && !(
        leaves_fit(*e) && source_fits(*s)),
        r is Ok ==> r->Ok_0.backend == backend,
        r is Ok ==> r->Ok_0.sql@ == select_sql(*e, *s, backend),
        r is Ok ==> binds_view(r->Ok_0.binds@) == expr_binds(*e) + source_binds(*s),
{
    if !s.is_valid() {
        return Err(QueryError::InvalidSource);
    }
    if e.type_in(s).is_none() {
        return Err(QueryError::NotSelectable);
    }
    proof {
        reveal_strlit("SELECT ");
        reveal_strlit(" FROM ");
    }
    let mut out = QueryBuilder::new(backend);
    out.push_sql("SELECT ");
    match emit_expr(e, &mut out) {
        Err(x) => return Err(QueryError::Encode(x)),
        Ok(()) => {},
    }
    out.push_sql(" FROM ");
    match emit_source(s, &mut out) {
        Err(x) => return Err(QueryError::Encode(x)),
        Ok(()) => {},
    }
    assert(binds_view(out.binds@) =~= expr_binds(*e) + source_binds(*s));
    assert(out.sql@ =~= select_sql(*e, *s, backend));
    Ok(out)
}

/// Placeholders and bound values line up: an expression with N bound values
/// emits exactly N placeholders at consecutive positions from `n`, and
/// exactly N encoded values, the k-th placeholder belonging to the k-th value.
pub proof fn lemma_placeholder_alignment(e: Expr, n: nat)
    ensures
        expr_binds(e).len() == bound_count(e),
        placeholder_positions(e, n).len() == bound_count(e),
        forall|k: int| 0 <= k < bound_count(e) ==> #[trigger] placeholder_positions(e, n)[k] == n + k,
    decreases e,
{
    match e {
        Expr::Binary(_, l, r) => {
            lemma_placeholder_alignment(*l, n);
            lemma_placeholder_alignment(*r, n + bound_count(*l));
            assert forall|k: int| 0 <= k < bound_count(e) implies #[trigger] placeholder_positions(e, n)[k] == n + k by {
                if k >= bound_count(*l) {
                    assert(placeholder_positions(*r, n + bound_count(*l))[k - bound_count(*l)] == n + bound_count(*l) + (k - bound_count(*l)));
                }
            }
        },
        Expr::Nullable(x) => lemma_placeholder_alignment(*x, n),
        _ => {},
    }
}

} // verus!
