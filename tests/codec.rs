use diesel::backend::Backend;
use diesel::codec::{
    build_from_row, from_sql, read_row, to_sql, DecodeError, EncodeError, IsNull, RawRow, RowError,
    UnexpectedNullError,
};
use diesel::types::{fits, SqlType, Value};

#[test]
fn option_to_sql() {
    let ty = SqlType::varchar().nullable();
    let mut bytes = Vec::<u8>::new();

    let is_null = to_sql(&Value::Null, ty, &mut bytes).unwrap();
    assert_eq!(IsNull::Yes, is_null);
    assert!(bytes.is_empty());

    let is_null = to_sql(&Value::Text("".to_string()), ty, &mut bytes).unwrap();
    assert_eq!(IsNull::No, is_null);
    assert!(bytes.is_empty());

    let is_null = to_sql(&Value::Text("Sean".to_string()), ty, &mut bytes).unwrap();
    let expectd_bytes: Vec<_> = "Sean".as_bytes().into();
    assert_eq!(IsNull::No, is_null);
    assert_eq!(expectd_bytes, bytes);
}

fn round_trip(v: Value, t: SqlType) -> Value {
    let mut bytes = Vec::new();
    let raw = match to_sql(&v, t, &mut bytes).unwrap() {
        IsNull::Yes => None,
        IsNull::No => Some(bytes),
    };
    from_sql(raw, t).unwrap()
}

#[test]
fn codec_round_trips_boundary_values() {
    for i in [0, 1, -1, i32::MAX, i32::MIN, 257] {
        assert_eq!(Value::Int(i), round_trip(Value::Int(i), SqlType::integer()));
    }
    for s in ["", "Sean", "Tëss ☃"] {
        let v = Value::Text(s.to_string());
        assert_eq!(v.clone(), round_trip(v, SqlType::varchar()));
    }
    assert_eq!(Value::Bool(true), round_trip(Value::Bool(true), SqlType::boolean()));
    assert_eq!(Value::Bool(false), round_trip(Value::Bool(false), SqlType::boolean()));
    assert_eq!(Value::Null, round_trip(Value::Null, SqlType::integer().nullable()));
    assert_eq!(Value::Int(5), round_trip(Value::Int(5), SqlType::integer().nullable()));
}

#[test]
fn integers_are_four_bytes_most_significant_first() {
    let mut bytes = Vec::new();
    assert_eq!(Ok(IsNull::No), to_sql(&Value::Int(258), SqlType::integer(), &mut bytes));
    assert_eq!(vec![0u8, 0, 1, 2], bytes);
    let mut bytes = Vec::new();
    to_sql(&Value::Int(-1), SqlType::integer(), &mut bytes).unwrap();
    assert_eq!(vec![255u8, 255, 255, 255], bytes);
    assert_eq!(Ok(Value::Int(16909060)), from_sql(Some(vec![1, 2, 3, 4]), SqlType::integer()));
}

#[test]
fn decoding_null_is_absent_only_when_nullable() {
    assert_eq!(Ok(Value::Null), from_sql(None, SqlType::varchar().nullable()));
    assert_eq!(Err(DecodeError::UnexpectedNull), from_sql(None, SqlType::varchar()));
}

#[test]
fn decode_errors() {
    assert_eq!(Err(DecodeError::WrongWidth), from_sql(Some(vec![1, 2, 3]), SqlType::integer()));
    assert_eq!(Err(DecodeError::WrongWidth), from_sql(Some(vec![]), SqlType::boolean()));
    assert_eq!(Err(DecodeError::Malformed), from_sql(Some(vec![2]), SqlType::boolean()));
    assert_eq!(Err(DecodeError::Malformed), from_sql(Some(vec![0xff, 0xfe]), SqlType::varchar()));
}

#[test]
fn encode_errors() {
    let mut bytes = Vec::new();
    assert_eq!(Err(EncodeError::TypeMismatch), to_sql(&Value::Null, SqlType::integer(), &mut bytes));
    assert_eq!(
        Err(EncodeError::TypeMismatch),
        to_sql(&Value::Text("x".to_string()), SqlType::integer(), &mut bytes)
    );
    assert!(bytes.is_empty());
    assert!(!fits(&Value::Int(1), SqlType::varchar()));
    assert!(fits(&Value::Null, SqlType::varchar().nullable()));
}

#[test]
fn unexpected_null_error_describes_itself() {
    let e = UnexpectedNullError::new("column 2 was NULL".to_string());
    assert_eq!("column 2 was NULL", e.description());
}

#[test]
fn type_metadata_ignores_nullability() {
    assert_eq!(23, Backend::Pg.type_metadata(SqlType::integer()));
    assert_eq!(23, Backend::Pg.type_metadata(SqlType::integer().nullable()));
    assert_eq!(1043, Backend::Pg.type_metadata(SqlType::varchar()));
    assert_eq!(16, Backend::Pg.type_metadata(SqlType::boolean()));
    assert_eq!(3, Backend::Sqlite.type_metadata(SqlType::varchar().nullable()));
}

#[test]
fn identifiers_are_quoted_and_escaped() {
    let mut s = String::new();
    Backend::Pg.quote_identifier("we\"ird", &mut s);
    assert_eq!("\"we\"\"ird\"", s);
    let mut p = String::new();
    Backend::Pg.push_placeholder(11, &mut p);
    Backend::Sqlite.push_placeholder(11, &mut p);
    assert_eq!("$12?", p);
}

#[test]
fn rows_are_read_column_by_column() {
    let types = vec![SqlType::integer(), SqlType::varchar().nullable()];
    let got = read_row(vec![Some(vec![0, 0, 0, 9]), None], &types);
    assert_eq!(Ok(vec![Value::Int(9), Value::Null]), got);
    let got = read_row(vec![Some(vec![0, 0, 0, 9]), Some(b"Tess".to_vec())], &types);
    assert_eq!(Ok(vec![Value::Int(9), Value::Text("Tess".to_string())]), got);
}

#[test]
fn unexpected_null_names_its_column() {
    let types = vec![SqlType::varchar().nullable(), SqlType::integer()];
    let got = read_row(vec![None, None], &types);
    assert_eq!(Err(RowError { position: 1, error: DecodeError::UnexpectedNull }), got);
    let got = read_row(vec![None], &types);
    assert_eq!(Err(RowError { position: 0, error: DecodeError::WrongWidth }), got);
}

#[test]
fn build_from_row_consumes_one_value() {
    let mut row = RawRow::new(vec![None, Some(vec![1])]);
    assert_eq!(Ok(Value::Null), build_from_row(&mut row, SqlType::boolean().nullable()));
    assert_eq!(1, row.next);
    assert_eq!(Ok(Value::Bool(true)), build_from_row(&mut row, SqlType::boolean()));
    assert_eq!(2, row.next);
}
