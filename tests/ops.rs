use diesel::eval::EvalError;
use diesel::execute::{load, Relation};
use diesel::expression::{BinOp, Bound, Column, Expr, Source};
use diesel::types::{SqlType, Value};

fn users_relation(rows: Vec<(i32, &str)>) -> Relation {
    Relation {
        name: "users".to_string(),
        columns: vec!["id".to_string(), "name".to_string()],
        rows: rows
            .into_iter()
            .map(|(id, name)| vec![Value::Int(id), Value::Text(name.to_string())])
            .collect(),
    }
}

fn connection_with_sean_and_tess_in_users_table() -> Vec<Relation> {
    vec![users_relation(vec![(1, "Sean"), (2, "Tess")])]
}

fn id() -> Expr {
    Expr::Column(Column::new("users".to_string(), "id".to_string(), SqlType::integer()))
}

fn lit(v: i32) -> Expr {
    Expr::Bound(Bound::new(SqlType::integer(), Value::Int(v)))
}

fn op(o: BinOp, l: Expr, r: Expr) -> Expr {
    Expr::Binary(o, Box::new(l), Box::new(r))
}

fn users() -> Source {
    Source::Table("users".to_string())
}

fn select_ints(e: &Expr, db: &Vec<Relation>) -> Result<Vec<i32>, EvalError> {
    load(e, &users(), db).map(|vs| {
        vs.into_iter()
            .map(|v| match v {
                Value::Int(i) => i,
                other => panic!("not an integer: {:?}", other),
            })
            .collect()
    })
}

#[test]
fn adding_literal_to_column() {
    let connection = connection_with_sean_and_tess_in_users_table();

    let expected_data = vec![2, 3];
    let data = select_ints(&op(BinOp::Add, id(), lit(1)), &connection);
    assert_eq!(Ok(expected_data), data);

    let expected_data = vec![3, 4];
    let data = select_ints(&op(BinOp::Add, id(), lit(2)), &connection);
    assert_eq!(Ok(expected_data), data);
}

#[test]
fn adding_column_to_column() {
    let connection = connection_with_sean_and_tess_in_users_table();

    let expected_data = vec![2, 4];
    let data = select_ints(&op(BinOp::Add, id(), id()), &connection);
    assert_eq!(Ok(expected_data), data);
}

#[test]
fn adding_multiple_times() {
    let connection = connection_with_sean_and_tess_in_users_table();

    let expected_data = vec![4, 5];
    let data = select_ints(&op(BinOp::Add, op(BinOp::Add, id(), lit(1)), lit(2)), &connection);
    assert_eq!(Ok(expected_data), data);
}

#[test]
fn subtracting_literal_from_column() {
    let connection = connection_with_sean_and_tess_in_users_table();

    let expected_data = vec![0, 1];
    let data = select_ints(&op(BinOp::Sub, id(), lit(1)), &connection);
    assert_eq!(Ok(expected_data), data);
}

#[test]
fn adding_then_subtracting() {
    let connection = connection_with_sean_and_tess_in_users_table();

    let expected_data = vec![2, 3];
    let data = select_ints(&op(BinOp::Sub, op(BinOp::Add, id(), lit(2)), lit(1)), &connection);
    assert_eq!(Ok(expected_data), data);
}

#[test]
fn multiplying_column() {
    let connection = connection_with_sean_and_tess_in_users_table();

    let expected_data = vec![3, 6];
    let data = select_ints(&op(BinOp::Mul, id(), lit(3)), &connection);
    assert_eq!(Ok(expected_data), data);
}

#[test]
fn dividing_column() {
    let connection = connection_with_sean_and_tess_in_users_table();

    let expected_data = vec![0, 1];
    let data = select_ints(&op(BinOp::Div, id(), lit(2)), &connection);
    assert_eq!(Ok(expected_data), data);
}

#[test]
fn mix_and_match_all_numeric_ops() {
    let connection = vec![users_relation(vec![(1, "Sean"), (2, "Tess"), (3, "Jim"), (4, "Bob")])];

    let expected_data = vec![4, 6, 7, 9];
    let e = op(
        BinOp::Sub,
        op(BinOp::Add, op(BinOp::Div, op(BinOp::Mul, id(), lit(3)), lit(2)), lit(4)),
        lit(1),
    );
    let data = select_ints(&e, &connection);
    assert_eq!(Ok(expected_data), data);
}

#[test]
fn division_rounds_toward_zero() {
    let connection = vec![users_relation(vec![(-7, "Neg"), (7, "Pos")])];
    let data = select_ints(&op(BinOp::Div, id(), lit(2)), &connection);
    assert_eq!(Ok(vec![-3, 3]), data);
}

#[test]
fn division_by_zero_is_an_error() {
    let connection = connection_with_sean_and_tess_in_users_table();
    let data = select_ints(&op(BinOp::Div, id(), lit(0)), &connection);
    assert_eq!(Err(EvalError::DivisionByZero), data);
}

#[test]
fn overflow_is_an_error() {
    let connection = connection_with_sean_and_tess_in_users_table();
    let data = select_ints(&op(BinOp::Add, id(), lit(i32::MAX)), &connection);
    assert_eq!(Err(EvalError::Overflow), data);
    let data = select_ints(&op(BinOp::Mul, id(), lit(i32::MIN)), &connection);
    assert_eq!(Err(EvalError::Overflow), data);
}

#[test]
fn unknown_column_and_table_are_errors() {
    let connection = connection_with_sean_and_tess_in_users_table();
    let missing = Expr::Column(Column::new("users".to_string(), "age".to_string(), SqlType::integer()));
    assert_eq!(Err(EvalError::UnknownColumn), select_ints(&missing, &connection));
    let other = load(&id(), &Source::Table("posts".to_string()), &connection);
    assert_eq!(Err(EvalError::UnknownTable), other);
}

#[test]
fn comparing_text_with_integer_is_a_type_mismatch() {
    let connection = connection_with_sean_and_tess_in_users_table();
    let name = Expr::Column(Column::new("users".to_string(), "name".to_string(), SqlType::varchar()));
    let data = load(&op(BinOp::Eq, name, lit(1)), &users(), &connection);
    assert_eq!(Err(EvalError::TypeMismatch), data);
}
