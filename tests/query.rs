use diesel::backend::Backend;
use diesel::execute::{load, Relation};
use diesel::expression::{BinOp, Bound, Column, Expr, JoinKind, Source};
use diesel::join::{join_through, ForeignKey};
use diesel::query_builder::{build_select, emit_expr, emit_source, QueryBuilder, QueryError};
use diesel::codec::EncodeError;
use diesel::table::{ColumnDef, Table};
use diesel::types::{SqlType, Value};

fn col(t: &str, n: &str, ty: SqlType) -> Column {
    Column::new(t.to_string(), n.to_string(), ty)
}

fn lit(v: i32) -> Expr {
    Expr::Bound(Bound::new(SqlType::integer(), Value::Int(v)))
}

fn op(o: BinOp, l: Expr, r: Expr) -> Expr {
    Expr::Binary(o, Box::new(l), Box::new(r))
}

fn users_id() -> Column {
    col("users", "id", SqlType::integer())
}

fn posts_fk() -> ForeignKey {
    ForeignKey::new(col("posts", "user_id", SqlType::integer()), users_id())
}

fn comments_fk() -> ForeignKey {
    ForeignKey::new(col("comments", "post_id", SqlType::integer()), col("posts", "id", SqlType::integer()))
}

#[test]
fn select_id_plus_one_emits_one_placeholder_and_one_value() {
    let e = op(BinOp::Add, Expr::Column(users_id()), lit(1));
    let q = build_select(&e, &Source::Table("users".to_string()), Backend::Sqlite).unwrap();
    assert_eq!("SELECT \"users\".\"id\" + ? FROM \"users\"", q.sql);
    assert_eq!(1, q.binds.len());
    assert_eq!(SqlType::integer(), q.binds[0].ty);
    assert_eq!(Some(vec![0u8, 0, 0, 1]), q.binds[0].bytes);

    let db = vec![Relation {
        name: "users".to_string(),
        columns: vec!["id".to_string(), "name".to_string()],
        rows: vec![
            vec![Value::Int(1), Value::Text("Sean".to_string())],
            vec![Value::Int(2), Value::Text("Tess".to_string())],
        ],
    }];
    let got = load(&e, &Source::Table("users".to_string()), &db);
    assert_eq!(Ok(vec![Value::Int(2), Value::Int(3)]), got);
}

#[test]
fn placeholders_and_values_line_up_in_order() {
    let e = op(
        BinOp::Sub,
        op(BinOp::Mul, lit(7), Expr::Column(users_id())),
        op(BinOp::Add, lit(8), Expr::Bound(Bound::new(SqlType::integer().nullable(), Value::Null))),
    );
    let mut out = QueryBuilder::new(Backend::Pg);
    emit_expr(&e, &mut out).unwrap();
    assert_eq!("$1 * \"users\".\"id\" - $2 + $3", out.sql);
    assert_eq!(3, out.binds.len());
    assert_eq!(Some(vec![0u8, 0, 0, 7]), out.binds[0].bytes);
    assert_eq!(Some(vec![0u8, 0, 0, 8]), out.binds[1].bytes);
    assert_eq!(None, out.binds[2].bytes);
    assert_eq!(SqlType::integer().nullable(), out.binds[2].ty);
}

#[test]
fn a_value_that_does_not_fit_aborts_emission() {
    let bad = Expr::Bound(Bound::new(SqlType::integer(), Value::Null));
    let mut out = QueryBuilder::new(Backend::Pg);
    assert_eq!(Err(EncodeError::TypeMismatch), emit_expr(&bad, &mut out));
    let e = op(BinOp::Add, Expr::Column(users_id()), Expr::Bound(Bound::new(SqlType::integer(), Value::Null)));
    let r = build_select(&e, &Source::Table("users".to_string()), Backend::Pg);
    assert_eq!(Some(QueryError::Encode(EncodeError::TypeMismatch)), r.err());
}

#[test]
fn column_of_another_table_is_not_selectable() {
    let title = col("posts", "title", SqlType::varchar());
    assert_eq!(None, title.type_in(&Source::Table("users".to_string())));
    let r = build_select(&Expr::Column(title), &Source::Table("users".to_string()), Backend::Pg);
    assert_eq!(Some(QueryError::NotSelectable), r.err());
}

#[test]
fn mismatched_operands_are_not_selectable() {
    let name = Expr::Column(col("users", "name", SqlType::varchar()));
    let e = op(BinOp::Add, name, lit(1));
    assert_eq!(None, e.type_in(&Source::Table("users".to_string())));
    let e = op(BinOp::Add, lit(1), Expr::Bound(Bound::new(SqlType::integer().nullable(), Value::Int(2))));
    assert_eq!(None, e.type_in(&Source::Table("users".to_string())));
}

#[test]
fn left_outer_join_makes_child_columns_nullable() {
    let title = col("posts", "title", SqlType::varchar());
    let outer = posts_fk().join_from_parent(JoinKind::LeftOuter);
    let inner = posts_fk().join_from_parent(JoinKind::Inner);
    assert_eq!(Some(SqlType::varchar().nullable()), title.type_in(&outer));
    assert_eq!(Some(SqlType::varchar()), title.type_in(&inner));
    assert_eq!(Some(SqlType::varchar()), title.type_in(&Source::Table("posts".to_string())));
    assert_eq!(Some(SqlType::integer()), users_id().type_in(&outer));
    assert!(outer.is_valid());
}

#[test]
fn nullability_carries_through_a_chain_of_joins() {
    let body = col("comments", "body", SqlType::varchar());
    let a = join_through(&posts_fk(), &comments_fk(), JoinKind::LeftOuter, JoinKind::Inner);
    let b = join_through(&posts_fk(), &comments_fk(), JoinKind::Inner, JoinKind::LeftOuter);
    let c = join_through(&posts_fk(), &comments_fk(), JoinKind::Inner, JoinKind::Inner);
    assert_eq!(Some(SqlType::varchar().nullable()), body.type_in(&a));
    assert_eq!(Some(SqlType::varchar().nullable()), body.type_in(&b));
    assert_eq!(Some(SqlType::varchar()), body.type_in(&c));
    assert_eq!(Some(SqlType::integer()), users_id().type_in(&a));
}

#[test]
fn transitive_join_reads_as_manual_two_level_join() {
    let derived = join_through(&posts_fk(), &comments_fk(), JoinKind::Inner, JoinKind::LeftOuter);
    let manual = Source::Join(
        Box::new(Source::Join(
            Box::new(Source::Table("users".to_string())),
            Box::new(Source::Table("posts".to_string())),
            JoinKind::Inner,
            Box::new(posts_fk().on_condition()),
        )),
        Box::new(Source::Table("comments".to_string())),
        JoinKind::LeftOuter,
        Box::new(comments_fk().on_condition()),
    );
    let mut a = QueryBuilder::new(Backend::Pg);
    let mut b = QueryBuilder::new(Backend::Pg);
    emit_source(&derived, &mut a).unwrap();
    emit_source(&manual, &mut b).unwrap();
    assert_eq!(a.sql, b.sql);
    assert_eq!(
        "\"users\" INNER JOIN \"posts\" ON \"posts\".\"user_id\" = \"users\".\"id\" LEFT OUTER JOIN \"comments\" ON \"comments\".\"post_id\" = \"posts\".\"id\"",
        a.sql
    );
    assert!(derived.is_valid());
}

#[test]
fn join_from_child_puts_child_first() {
    let s = posts_fk().join_from_child(JoinKind::Inner);
    let mut out = QueryBuilder::new(Backend::Sqlite);
    emit_source(&s, &mut out).unwrap();
    assert_eq!("\"posts\" INNER JOIN \"users\" ON \"posts\".\"user_id\" = \"users\".\"id\"", out.sql);
}

#[test]
fn invalid_on_condition_is_rejected() {
    let s = Source::Join(
        Box::new(Source::Table("users".to_string())),
        Box::new(Source::Table("posts".to_string())),
        JoinKind::Inner,
        Box::new(lit(1)),
    );
    assert!(!s.is_valid());
    let r = build_select(&Expr::Column(users_id()), &s, Backend::Pg);
    assert_eq!(Some(QueryError::InvalidSource), r.err());
}

#[test]
fn left_outer_join_materializes_missing_posts_as_absent() {
    let title = col("posts", "title", SqlType::varchar());
    let from = posts_fk().join_from_parent(JoinKind::LeftOuter);
    assert_eq!(Some(SqlType::varchar().nullable()), title.type_in(&from));
    let db = vec![
        Relation {
            name: "users".to_string(),
            columns: vec!["id".to_string(), "name".to_string()],
            rows: vec![
                vec![Value::Int(1), Value::Text("Sean".to_string())],
                vec![Value::Int(2), Value::Text("Tess".to_string())],
            ],
        },
        Relation {
            name: "posts".to_string(),
            columns: vec!["id".to_string(), "user_id".to_string(), "title".to_string()],
            rows: vec![vec![Value::Int(1), Value::Int(1), Value::Text("Hello".to_string())]],
        },
    ];
    let got = load(&Expr::Column(title), &from, &db);
    assert_eq!(Ok(vec![Value::Text("Hello".to_string()), Value::Null]), got);
    let q = build_select(&Expr::Column(col("posts", "title", SqlType::varchar())), &from, Backend::Pg).unwrap();
    assert_eq!(
        "SELECT \"posts\".\"title\" FROM \"users\" LEFT OUTER JOIN \"posts\" ON \"posts\".\"user_id\" = \"users\".\"id\"",
        q.sql
    );
    assert!(q.binds.is_empty());
}

#[test]
fn inner_join_drops_unmatched_rows() {
    let title = col("posts", "title", SqlType::varchar());
    let from = posts_fk().join_from_parent(JoinKind::Inner);
    let db = vec![
        Relation {
            name: "users".to_string(),
            columns: vec!["id".to_string()],
            rows: vec![vec![Value::Int(1)], vec![Value::Int(2)]],
        },
        Relation {
            name: "posts".to_string(),
            columns: vec!["user_id".to_string(), "title".to_string()],
            rows: vec![
                vec![Value::Int(2), Value::Text("a".to_string())],
                vec![Value::Int(2), Value::Text("b".to_string())],
            ],
        },
    ];
    let got = load(&Expr::Column(title), &from, &db);
    assert_eq!(Ok(vec![Value::Text("a".to_string()), Value::Text("b".to_string())]), got);
}

#[test]
fn table_declaration_lists_columns() {
    let t = Table::new(
        "users",
        None,
        vec![ColumnDef::new("id", SqlType::integer()), ColumnDef::new("name", SqlType::varchar())],
        vec![ColumnDef::new("secret", SqlType::varchar())],
    );
    assert_eq!("id", t.primary_key);
    let all = t.all_columns();
    assert_eq!(2, all.len());
    assert_eq!("name", all[1].name);
    assert_eq!(SqlType::varchar(), all[1].ty);
    let secret = t.column("secret").unwrap();
    assert_eq!("users", secret.table);
    assert!(t.column("missing").is_none());
    assert_eq!("\"users\".*", t.star_sql(Backend::Pg));
    assert_eq!(Some(SqlType::integer()), all[0].type_in(&t.source()));
    let k = Table::new("posts", Some("post_id"), vec![], vec![]);
    assert_eq!("post_id", k.primary_key);
}
