//! Running a select over relations held in memory: each FROM source yields
//! rows of bindings, joins pair rows whose ON condition is true, and a left
//! outer join keeps an unmatched left row with NULL on the right.
use vstd::prelude::*;
use crate::eval::{Binding, BindingView, EvalError, env_view, eval};
use crate::expression::{Expr, JoinKind, Source};
use crate::types::{Value, ValueView};

verus! {

/// The rows of a table. Each row holds one value per column, in column order.
#[derive(Debug)]
pub struct Relation {
    pub name: String,
    pub columns: Vec<String>,
    pub rows: Vec<Vec<Value>>,
}

pub open spec fn relation_ok(r: Relation) -> bool {
    forall|i: int| 0 <= i < r.rows@.len() ==> #[trigger] r.rows@[i]@.len() == r.columns@.len()
}

/// Row `i` of a relation as bindings.
pub open spec fn relation_env(r: Relation, i: int) -> Seq<BindingView> {
    Seq::new(r.columns@.len(), |j: int| (r.name@, r.columns@[j]@, r.rows@[i]@[j]@))
}

/// The columns of a relation, all NULL.
pub open spec fn null_env(r: Relation) -> Seq<BindingView> {
    Seq::new(r.columns@.len(), |j: int| (r.name@, r.columns@[j]@, ValueView::Null))
}

/// The position of the first relation of `db` named `t`.
pub open spec fn relation_index(db: Seq<Relation>, t: Seq<char>) -> Option<int>
    decreases db.len(),
{
    if db.len() == 0 {
        None
    } else if db.last().name@ == t {
        match relation_index(db.drop_last(), t) {
            Some(i) => Some(i),
            None => Some(db.len() - 1),
        }
    } else {
        relation_index(db.drop_last(), t)
    }
}

/// The rows that the right operand contributes for one left row.
pub open spec fn matching_rows(le: Seq<BindingView>, rs: Seq<Seq<BindingView>>, on: Expr) -> Result<Seq<Seq<BindingView>>, EvalError>
    decreases rs.len(),
{
    if rs.len() == 0 {
        Ok(Seq::empty())
    } else {
        match matching_rows(le, rs.drop_last(), on) {
            Err(x) => Err(x),
            Ok(m) => {
                let env = le + rs.last();
                match eval(on, env) {
                    Err(x) => Err(x),
                    Ok(v) => if v == ValueView::Bool(true) {
                        Ok(m.push(env))
                    } else {
                        Ok(m)
                    },
                }
            },
        }
    }
}

/// The rows of a join, left row by left row.
pub open spec fn join_rows(
    ls: Seq<Seq<BindingView>>,
    rs: Seq<Seq<BindingView>>,
    k: JoinKind,
    on: Expr,
    nulls: Seq<BindingView>,
) -> Result<Seq<Seq<BindingView>>, EvalError>
    decreases ls.len(),
{
    if ls.len() == 0 {
        Ok(Seq::empty())
    } else {
        match join_rows(ls.drop_last(), rs, k, on, nulls) {
            Err(x) => Err(x),
            Ok(done) => match matching_rows(ls.last(), rs, on) {
                Err(x) => Err(x),
                Ok(m) => if m.len() == 0 && k == JoinKind::LeftOuter {
                    Ok(done.push(ls.last() + nulls))
                } else {
                    Ok(done + m)
                },
            },
        }
    }
}

/// The bindings of every column of a source's tables, all NULL.
pub open spec fn source_nulls(s: Source, db: Seq<Relation>) -> Seq<BindingView>
    decreases s,
{
    match s {
        Source::Table(t) => match relation_index(db, t@) {
            Some(i) => null_env(db[i]),
            None => Seq::empty(),
        },
        Source::Join(l, r, _, _) => source_nulls(*l, db) + source_nulls(*r, db),
    }
}

/// The rows of a FROM source over the relations of `db`.
pub open spec fn source_rows(s: Source, db: Seq<Relation>) -> Result<Seq<Seq<BindingView>>, EvalError>
    decreases s,
{
    match s {
        Source::Table(t) => match relation_index(db, t@) {
            Some(i) => Ok(Seq::new(db[i].rows@.len(), |j: int| relation_env(db[i], j))),
            None => Err(EvalError::UnknownTable),
        },
        Source::Join(l, r, k, on) => match source_rows(*l, db) {
            Err(x) => Err(x),
            Ok(ls) => match source_rows(*r, db) {
                Err(x) => Err(x),
                Ok(rs) => join_rows(ls, rs, k, *on, source_nulls(*r, db)),
            },
        },
    }
}

pub open spec fn envs_view(v: Seq<Vec<Binding>>) -> Seq<Seq<BindingView>> {
    v.map_values(|e: Vec<Binding>| env_view(e@))
}

fn concat_env(a: &Vec<Binding>, b: &Vec<Binding>) -> (r: Vec<Binding>)
    ensures
        env_view(r@) == env_view(a@) + env_view(b@),
{
    let mut r: Vec<Binding> = Vec::new();
    let mut i: usize = 0;
    while i < a.len()
        invariant
            i <= a@.len(),
            env_view(r@) == env_view(a@).subrange(0, i as int),
        decreases a@.len() - i,
    {
        let d = a[i].duplicate();
        let ghost r0 = r@;
        r.push(d);
        assert(env_view(r@) =~= env_view(r0).push(a@[i as int]@));
        assert(env_view(a@).subrange(0, i + 1) =~= env_view(a@).subrange(0, i as int).push(a@[i as int]@));
        i = i + 1;
    }
    let mut j: usize = 0;
    while j < b.len()
        invariant
            j <= b@.len(),
            env_view(r@) == env_view(a@) + env_view(b@).subrange(0, j as int),
        decreases b@.len() - j,
    {
        let d = b[j].duplicate();
        let ghost r0 = r@;
        r.push(d);
        assert(env_view(r@) =~= env_view(r0).push(b@[j as int]@));
        assert(env_view(b@).subrange(0, j + 1) =~= env_view(b@).subrange(0, j as int).push(b@[j as int]@));
        j = j + 1;
    }
    assert(env_view(a@).subrange(0, a@.len() as int) =~= env_view(a@));
    assert(env_view(b@).subrange(0, b@.len() as int) =~= env_view(b@));
    r
}

fn find_relation(db: &Vec<Relation>, t: &String) -> (r: Option<usize>)
    ensures
        match r {
            Some(i) => relation_index(db@, t@) == Some(i as int),
            None => relation_index(db@, t@) is None,
        },
        r is Some ==> r->Some_0 < db@.len(),
{
    let mut k: usize = 0;
    while k < db.len()
        invariant
            k <= db@.len(),
            forall|j: int| 0 <= j < k ==> db@[j].name@ != t@,
        decreases db@.len() - k,
    {
        if db[k].name == *t {
            proof {
                lemma_relation_index_first(db@, t@, k as int);
            }
            return Some(k);
        }
        k = k + 1;
    }
    proof {
        lemma_relation_index_none(db@, t@);
    }
    None
}

proof fn lemma_relation_index_first(db: Seq<Relation>, t: Seq<char>, k: int)
    requires
        0 <= k < db.len(),
        db[k].name@ == t,
        forall|j: int| 0 <= j < k ==> db[j].name@ != t,
    ensures
        relation_index(db, t) == Some(k),
    decreases db.len(),
{
    if k < db.len() - 1 {
        lemma_relation_index_first(db.drop_last(), t, k);
    } else {
        lemma_relation_index_none(db.drop_last(), t);
    }
}

proof fn lemma_relation_index_none(db: Seq<Relation>, t: Seq<char>)
    requires
        forall|j: int| 0 <= j < db.len() ==> db[j].name@ != t,
    ensures
        relation_index(db, t) is None,
    decreases db.len(),
{
    if db.len() > 0 {
        lemma_relation_index_none(db.drop_last(), t);
    }
}

pub open spec fn db_ok(db: Seq<Relation>) -> bool {
    forall|i: int| 0 <= i < db.len() ==> relation_ok(#[trigger] db[i])
}

fn relation_row(rel: &Relation, i: usize, nulls: bool) -> (r: Vec<Binding>)
    requires
        relation_ok(*rel),
        nulls || i < rel.rows@.len(),
    ensures
        !nulls ==> env_view(r@) == relation_env(*rel, i as int),
        nulls ==> env_view(r@) == null_env(*rel),
{
    let mut r: Vec<Binding> = Vec::new();
    let mut j: usize = 0;
    while j < rel.columns.len()
        invariant
            relation_ok(*rel),
            nulls || i < rel.rows@.len(),
            j <= rel.columns@.len(),
            !nulls ==> env_view(r@) == relation_env(*rel, i as int).subrange(0, j as int),
            nulls ==> env_view(r@) == null_env(*rel).subrange(0, j as int),
        decreases rel.columns@.len() - j,
    {
        let value = if nulls {
            Value::Null
        } else {
            assert(rel.rows@[i as int]@.len() == rel.columns@.len());
            rel.rows[i][j].duplicate()
        };
        let b = Binding { table: rel.name.clone(), column: rel.columns[j].clone(), value };
        let ghost r0 = r@;
        r.push(b);
        assert(env_view(r@) =~= env_view(r0).push(b@));
        assert(relation_env(*rel, i as int).subrange(0, j + 1) =~= relation_env(*rel, i as int).subrange(0, j as int).push(relation_env(*rel, i as int)[j as int]));
        assert(null_env(*rel).subrange(0, j + 1) =~= null_env(*rel).subrange(0, j as int).push(null_env(*rel)[j as int]));
        j = j + 1;
    }
    assert(relation_env(*rel, i as int).subrange(0, j as int) =~= relation_env(*rel, i as int));
    assert(null_env(*rel).subrange(0, j as int) =~= null_env(*rel));
    r
}

fn match_rows(le: &Vec<Binding>, rs: &Vec<Vec<Binding>>, on: &Expr) -> (r: Result<Vec<Vec<Binding>>, EvalError>)
    ensures
        match r {
            Ok(m) => matching_rows(env_view(le@), envs_view(rs@), *on) == Ok::<Seq<Seq<BindingView>>, EvalError>(envs_view(m@)),
            Err(x) => matching_rows(env_view(le@), envs_view(rs@), *on) == Err::<Seq<Seq<BindingView>>, EvalError>(x),
        },
{
    let mut m: Vec<Vec<Binding>> = Vec::new();
    let mut i: usize = 0;
    assert(envs_view(m@) =~= Seq::<Seq<BindingView>>::empty());
    assert(envs_view(rs@).subrange(0, 0).len() == 0);
    while i < rs.len()
        invariant
            i <= rs@.len(),
            matching_rows(env_view(le@), envs_view(rs@).subrange(0, i as int), *on) == Ok::<Seq<Seq<BindingView>>, EvalError>(envs_view(m@)),
        decreases rs@.len() - i,
    {
        let ghost sub = envs_view(rs@).subrange(0, i + 1);
        assert(sub.drop_last() =~= envs_view(rs@).subrange(0, i as int));
        assert(sub.last() == env_view(rs@[i as int]@));
        let env = concat_env(le, &rs[i]);
        let v = on.eval(&env);
        match v {
            Err(x) => {
                proof {
                    lemma_matches_err(env_view(le@), envs_view(rs@), *on, i as int, x);
                }
                return Err(x);
            },
            Ok(v) => {
                if matches!(v, Value::Bool(true)) {
                    let ghost m0 = m@;
                    m.push(env);
                    assert(envs_view(m@) =~= envs_view(m0).push(env_view(env@)));
                }
            },
        }
        i = i + 1;
    }
    assert(envs_view(rs@).subrange(0, rs@.len() as int) =~= envs_view(rs@));
    Ok(m)
}

proof fn lemma_matches_err(le: Seq<BindingView>, rs: Seq<Seq<BindingView>>, on: Expr, i: int, x: EvalError)
    requires
        0 <= i < rs.len(),
        matching_rows(le, rs.subrange(0, i + 1), on) == Err::<Seq<Seq<BindingView>>, EvalError>(x),
    ensures
        matching_rows(le, rs, on) == Err::<Seq<Seq<BindingView>>, EvalError>(x),
    decreases rs.len() - i,
{
    if i + 1 < rs.len() {
        assert(rs.subrange(0, i + 2).drop_last() =~= rs.subrange(0, i + 1));
        lemma_matches_err(le, rs, on, i + 1, x);
    } else {
        assert(rs.subrange(0, i + 1) =~= rs);
    }
}

fn join_exec(
    ls: &Vec<Vec<Binding>>,
    rs: &Vec<Vec<Binding>>,
    k: JoinKind,
    on: &Expr,
    nulls: &Vec<Binding>,
) -> (r: Result<Vec<Vec<Binding>>, EvalError>)
    ensures
        match r {
            Ok(v) => join_rows(envs_view(ls@), envs_view(rs@), k, *on, env_view(nulls@)) == Ok::<Seq<Seq<BindingView>>, EvalError>(envs_view(v@)),
            Err(x) => join_rows(envs_view(ls@), envs_view(rs@), k, *on, env_view(nulls@)) == Err::<Seq<Seq<BindingView>>, EvalError>(x),
        },
{
    let ghost lv = envs_view(ls@);
    let ghost rv = envs_view(rs@);
    let ghost nv = env_view(nulls@);
    let mut out: Vec<Vec<Binding>> = Vec::new();
    let mut i: usize = 0;
    assert(envs_view(out@) =~= Seq::<Seq<BindingView>>::empty());
    assert(lv.subrange(0, 0).len() == 0);
    while i < ls.len()
        invariant
            i <= ls@.len(),
            lv == envs_view(ls@),
            rv == envs_view(rs@),
            nv == env_view(nulls@),
            join_rows(lv.subrange(0, i as int), rv, k, *on, nv) == Ok::<Seq<Seq<BindingView>>, EvalError>(envs_view(out@)),
        decreases ls@.len() - i,
    {
        let ghost sub = lv.subrange(0, i + 1);
        assert(sub.drop_last() =~= lv.subrange(0, i as int));
        assert(sub.last() == env_view(ls@[i as int]@));
        match match_rows(&ls[i], rs, on) {
            Err(x) => {
                proof {
                    lemma_join_err(lv, rv, k, *on, nv, i as int, x);
                }
                return Err(x);
            },
            Ok(mut m) => {
                let ghost o0 = envs_view(out@);
                if m.len() == 0 && k == JoinKind::LeftOuter {
                    let row = concat_env(&ls[i], nulls);
                    out.push(row);
                    assert(envs_view(out@) =~= o0.push(env_view(ls@[i as int]@) + nv));
                } else {
                    let ghost mv = envs_view(m@);
                    out.append(&mut m);
                    assert(envs_view(out@) =~= o0 + mv);
                }
            },
        }
        i = i + 1;
    }
    assert(lv.subrange(0, ls@.len() as int) =~= lv);
    Ok(out)
}

proof fn lemma_join_err(
    ls: Seq<Seq<BindingView>>,
    rs: Seq<Seq<BindingView>>,
    k: JoinKind,
    on: Expr,
    nulls: Seq<BindingView>,
    i: int,
    x: EvalError,
)
    requires
        0 <= i < ls.len(),
        join_rows(ls.subrange(0, i + 1), rs, k, on, nulls) == Err::<Seq<Seq<BindingView>>, EvalError>(x),
    ensures
        join_rows(ls, rs, k, on, nulls) == Err::<Seq<Seq<BindingView>>, EvalError>(x),
    decreases ls.len() - i,
{
    if i + 1 < ls.len() {
        assert(ls.subrange(0, i + 2).drop_last() =~= ls.subrange(0, i + 1));
        lemma_join_err(ls, rs, k, on, nulls, i + 1, x);
    } else {
        assert(ls.subrange(0, i + 1) =~= ls);
    }
}

impl Source {
    /// Every column of the source's tables, NULL.
    pub fn null_row(&self, db: &Vec<Relation>) -> (r: Vec<Binding>)
        requires
            db_ok(db@),
        ensures
            env_view(r@) == source_nulls(*self, db@),
        decreases self,
    {
        match self {
            Source::Table(t) => match find_relation(db, t) {
                Some(i) => {
                    assert(relation_ok(db@[i as int]));
                    relation_row(&db[i], 0, true)
                },
                None => {
                    let r: Vec<Binding> = Vec::new();
                    assert(env_view(r@) =~= Seq::<BindingView>::empty());
                    r
                },
            },
            Source::Join(l, r, _, _) => {
                let a = l.null_row(db);
                let b = r.null_row(db);
                concat_env(&a, &b)
            },
        }
    }

    /// The rows of the source over the relations of `db`.
    pub fn rows(&self, db: &Vec<Relation>) -> (r: Result<Vec<Vec<Binding>>, EvalError>)
        requires
            db_ok(db@),
        ensures
            match r {
                Ok(v) => source_rows(*self, db@) == Ok::<Seq<Seq<BindingView>>, EvalError>(envs_view(v@)),
                Err(x) => source_rows(*self, db@) == Err::<Seq<Seq<BindingView>>, EvalError>(x),
            },
        decreases self,
    {
        match self {
            Source::Table(t) => match find_relation(db, t) {
                None => Err(EvalError::UnknownTable),
                Some(i) => {
                    assert(relation_ok(db@[i as int]));
                    let rel = &db[i];
                    let ghost want = Seq::new(rel.rows@.len(), |j: int| relation_env(*rel, j));
                    let mut out: Vec<Vec<Binding>> = Vec::new();
                    let mut j: usize = 0;
                    while j < rel.rows.len()
                        invariant
                            relation_ok(*rel),
                            want == Seq::new(rel.rows@.len(), |j: int| relation_env(*rel, j)),
                            j <= rel.rows@.len(),
                            envs_view(out@) == want.subrange(0, j as int),
                        decreases rel.rows@.len() - j,
                    {
                        let row = relation_row(rel, j, false);
                        let ghost o0 = out@;
                        out.push(row);
                        assert(envs_view(out@) =~= envs_view(o0).push(env_view(row@)));
                        assert(want.subrange(0, j + 1) =~= want.subrange(0, j as int).push(want[j as int]));
                        j = j + 1;
                    }
                    assert(want.subrange(0, j as int) =~= want);
                    Ok(out)
                },
            },
            Source::Join(l, r, k, on) => {
                let ls = l.rows(db)?;
                let rs = r.rows(db)?;
                let nulls = r.null_row(db);
                join_exec(&ls, &rs, *k, on, &nulls)
            },
        }
    }
}

/// The values of a select list over the rows of a FROM source.
pub open spec fn select_values(e: Expr, rows: Seq<Seq<BindingView>>) -> Result<Seq<ValueView>, EvalError>
    decreases rows.len(),
{
    if rows.len() == 0 {
        Ok(Seq::empty())
    } else {
        match select_values(e, rows.drop_last()) {
            Err(x) => Err(x),
            Ok(vs) => match eval(e, rows.last()) {
                Err(x) => Err(x),
                Ok(v) => Ok(vs.push(v)),
            },
        }
    }
}

/// What `SELECT e FROM s` returns over the relations of `db`.
pub open spec fn select_result(e: Expr, s: Source, db: Seq<Relation>) -> Result<Seq<ValueView>, EvalError> {
    match source_rows(s, db) {
        Err(x) => Err(x),
        Ok(rows) => select_values(e, rows),
    }
}

pub open spec fn values_view(v: Seq<Value>) -> Seq<ValueView> {
    v.map_values(|x: Value| x@)
}

/// Runs `SELECT e FROM s` over relations held in memory, one value per row.
pub fn load(e: &Expr, s: &Source, db: &Vec<Relation>) -> (r: Result<Vec<Value>, EvalError>)
    requires
        db_ok(db@),
    ensures
        match r {
            Ok(v) => select_result(*e, *s, db@) == Ok::<Seq<ValueView>, EvalError>(values_view(v@)),
            Err(x) => select_result(*e, *s, db@) == Err::<Seq<ValueView>, EvalError>(x),
        },
{
    let rows = s.rows(db)?;
    let ghost rv = envs_view(rows@);
    let mut out: Vec<Value> = Vec::new();
    let mut i: usize = 0;
    assert(values_view(out@) =~= Seq::<ValueView>::empty());
    assert(rv.subrange(0, 0).len() == 0);
    while i < rows.len()
        invariant
            i <= rows@.len(),
            rv == envs_view(rows@),
            source_rows(*s, db@) == Ok::<Seq<Seq<BindingView>>, EvalError>(rv),
            select_values(*e, rv.subrange(0, i as int)) == Ok::<Seq<ValueView>, EvalError>(values_view(out@)),
        decreases rows@.len() - i,
    {
        let ghost sub = rv.subrange(0, i + 1);
        assert(sub.drop_last() =~= rv.subrange(0, i as int));
        assert(sub.last() == env_view(rows@[i as int]@));
        match e.eval(&rows[i]) {
            Err(x) => {
                proof {
                    lemma_select_err(*e, rv, i as int, x);
                }
                return Err(x);
            },
            Ok(v) => {
                let ghost o0 = out@;
                out.push(v);
                assert(values_view(out@) =~= values_view(o0).push(v@));
            },
        }
        i = i + 1;
    }
    assert(rv.subrange(0, rows@.len() as int) =~= rv);
    Ok(out)
}

proof fn lemma_select_err(e: Expr, rows: Seq<Seq<BindingView>>, i: int, x: EvalError)
    requires
        0 <= i < rows.len(),
        select_values(e, rows.subrange(0, i + 1)) == Err::<Seq<ValueView>, EvalError>(x),
    ensures
        select_values(e, rows) == Err::<Seq<ValueView>, EvalError>(x),
    decreases rows.len() - i,
{
    if i + 1 < rows.len() {
        assert(rows.subrange(0, i + 2).drop_last() =~= rows.subrange(0, i + 1));
        lemma_select_err(e, rows, i + 1, x);
    } else {
        assert(rows.subrange(0, i + 1) =~= rows);
    }
}

} // verus!
