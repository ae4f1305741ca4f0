//! Encoding host values as bound parameters and decoding raw column values.
use vstd::prelude::*;
use vstd::utf8::{decode_utf8, encode_utf8, valid_utf8};
use crate::types::{BaseType, SqlType, Value, ValueView, value_fits};

verus! {

/// Whether an encoded parameter is SQL NULL.
#[derive(Debug, Clone, Copy, PartialEq, Eq, Structural)]
pub enum IsNull {
    Yes,
    No,
}

/// Why a host value could not be encoded for a tag.
#[derive(Debug, Clone, Copy, PartialEq, Eq, Structural)]
pub enum EncodeError {
    /// The value is of another type than the tag, or NULL for a NOT NULL tag.
    TypeMismatch,
}

/// Why a raw column value could not be decoded.
#[derive(Debug, Clone, Copy, PartialEq, Eq, Structural)]
pub enum DecodeError {
    /// The raw value has a width that the tag does not allow.
    WrongWidth,
    /// The bytes are no encoding of any value of the tag.
    Malformed,
    /// A NOT NULL column was read back as NULL.
    UnexpectedNull,
}

/// A NOT NULL column read back as NULL.
#[derive(Debug, Clone, PartialEq, Eq)]
pub struct UnexpectedNullError {
    pub msg: String,
}

impl UnexpectedNullError {
    pub fn new(msg: String) -> (r: UnexpectedNullError)
        ensures
            r.msg@ == msg@,
    {
        UnexpectedNullError { msg }
    }

    pub fn description(&self) -> (r: &str)
        ensures
            r@ == self.msg@,
    {
        self.msg.as_str()
    }
}

/// The four bytes of an integer, most significant first.
pub open spec fn int_bytes(v: i32) -> Seq<u8> {
    let u = v as u32;
    seq![(u >> 24u32) as u8, (u >> 16u32) as u8, (u >> 8u32) as u8, u as u8]
}

/// The integer whose most significant byte comes first in `b`.
pub open spec fn int_of_bytes(b: Seq<u8>) -> i32 {
    (((b[0] as u32) << 24u32) | ((b[1] as u32) << 16u32) | ((b[2] as u32) << 8u32)
        | (b[3] as u32)) as i32
}

pub open spec fn bool_bytes(v: bool) -> Seq<u8> {
    if v { seq![1u8] } else { seq![0u8] }
}

/// The bytes that encode a value that is not NULL.
pub open spec fn encoding(v: Value) -> Seq<u8> {
    match v {
        Value::Null => Seq::empty(),
        Value::Int(i) => int_bytes(i),
        Value::Text(s) => encode_utf8(s@),
        Value::Bool(b) => bool_bytes(b),
    }
}

/// Relies on `String::from_utf8`: it succeeds exactly on valid UTF-8, and then
/// holds the characters that the bytes encode.
#[verifier::external_body]
fn text_from_utf8(b: Vec<u8>) -> (r: Option<String>)
    ensures
        r is Some <==> valid_utf8(b@),
        r is Some ==> r->Some_0@ == decode_utf8(b@),
{
    String::from_utf8(b).ok()
}

proof fn lemma_int_bytes_round_trip(v: i32)
    ensures
        int_of_bytes(int_bytes(v)) == v,
{
    let u = v as u32;
    assert(((((u >> 24u32) as u8 as u32) << 24u32) | (((u >> 16u32) as u8 as u32) << 16u32)
        | (((u >> 8u32) as u8 as u32) << 8u32) | (u as u8 as u32)) == u) by (bit_vector);
    assert((v as u32) as i32 == v) by (bit_vector);
}

fn push_all(out: &mut Vec<u8>, b: &[u8])
    ensures
        final(out)@ == old(out)@ + b@,
{
    let mut i: usize = 0;
    while i < b.len()
        invariant
            i <= b@.len(),
            out@ == old(out)@ + b@.subrange(0, i as int),
        decreases b@.len() - i,
    {
        out.push(b[i]);
        i = i + 1;
        assert(b@.subrange(0, i as int) == b@.subrange(0, i - 1) + seq![b@[i - 1]]);
    }
    assert(b@.subrange(0, b@.len() as int) == b@);
}

/// Encodes `v` for the tag `t`, appending its bytes to `out` unless it is NULL.
/// A NULL value appends nothing and reports `IsNull::Yes`; any other value
/// appends its encoding and reports `IsNull::No`.
pub fn to_sql(v: &Value, t: SqlType, out: &mut Vec<u8>) -> (r: Result<IsNull, EncodeError>)
    ensures
        r is Err <==> !value_fits(*v, t),
        r is Err ==> final(out)@ == old(out)@,
        r == Ok::<IsNull, EncodeError>(IsNull::Yes) <==> value_fits(*v, t) && *v == Value::Null,
        r == Ok::<IsNull, EncodeError>(IsNull::No) ==> final(out)@ == old(out)@ + encoding(*v),
        r == Ok::<IsNull, EncodeError>(IsNull::Yes) ==> final(out)@ == old(out)@,
{
    match v {
        Value::Null => {
            if t.nullable {
                Ok(IsNull::Yes)
            } else {
                Err(EncodeError::TypeMismatch)
            }
        },
        Value::Int(i) => {
            if t.base != BaseType::Integer {
                return Err(EncodeError::TypeMismatch);
            }
            let u = *i as u32;
            out.push((u >> 24u32) as u8);
            out.push((u >> 16u32) as u8);
            out.push((u >> 8u32) as u8);
            out.push(u as u8);
            Ok(IsNull::No)
        },
        Value::Text(s) => {
            if t.base != BaseType::VarChar {
                return Err(EncodeError::TypeMismatch);
            }
            push_all(out, s.as_str().as_bytes());
            Ok(IsNull::No)
        },
        Value::Bool(b) => {
            if t.base != BaseType::Bool {
                return Err(EncodeError::TypeMismatch);
            }
            out.push(if *b { 1u8 } else { 0u8 });
            Ok(IsNull::No)
        },
    }
}

/// What a raw column value (`None` for SQL NULL) decodes to under a tag.
pub open spec fn decoded(raw: Option<Seq<u8>>, t: SqlType) -> Result<ValueView, DecodeError> {
    match raw {
        None => if t.nullable {
            Ok(ValueView::Null)
        } else {
            Err(DecodeError::UnexpectedNull)
        },
        Some(b) => match t.base {
            BaseType::Integer => if b.len() == 4 {
                Ok(ValueView::Int(int_of_bytes(b)))
            } else {
                Err(DecodeError::WrongWidth)
            },
            BaseType::Bool => if b.len() != 1 {
                Err(DecodeError::WrongWidth)
            } else if b[0] == 0 {
                Ok(ValueView::Bool(false))
            } else if b[0] == 1 {
                Ok(ValueView::Bool(true))
            } else {
                Err(DecodeError::Malformed)
            },
            BaseType::VarChar => if valid_utf8(b) {
                Ok(ValueView::Text(decode_utf8(b)))
            } else {
                Err(DecodeError::Malformed)
            },
        },
    }
}

/// The raw form of an encoded value: `None` for NULL, else its bytes.
pub open spec fn raw_of(v: Value) -> Option<Seq<u8>> {
    match v {
        Value::Null => None,
        _ => Some(encoding(v)),
    }
}

pub open spec fn raw_view(raw: Option<Vec<u8>>) -> Option<Seq<u8>> {
    match raw {
        None => None,
        Some(b) => Some(b@),
    }
}

/// Decodes a raw column value, `None` standing for SQL NULL. NULL under a
/// `Nullable` tag is the absent value and reads no bytes.
pub fn from_sql(raw: Option<Vec<u8>>, t: SqlType) -> (r: Result<Value, DecodeError>)
    ensures
        match r {
            Ok(v) => decoded(raw_view(raw), t) == Ok::<ValueView, DecodeError>(v@),
            Err(e) => decoded(raw_view(raw), t) == Err::<ValueView, DecodeError>(e),
        },
{
    match raw {
        None => {
            if t.nullable {
                Ok(Value::Null)
            } else {
                Err(DecodeError::UnexpectedNull)
            }
        },
        Some(b) => match t.base {
            BaseType::Integer => {
                if b.len() != 4 {
                    return Err(DecodeError::WrongWidth);
                }
                let u: u32 = ((b[0] as u32) << 24u32) | ((b[1] as u32) << 16u32) | ((b[2] as u32)
                    << 8u32) | (b[3] as u32);
                Ok(Value::Int(u as i32))
            },
            BaseType::Bool => {
                if b.len() != 1 {
                    Err(DecodeError::WrongWidth)
                } else if b[0] == 0 {
                    Ok(Value::Bool(false))
                } else if b[0] == 1 {
                    Ok(Value::Bool(true))
                } else {
                    Err(DecodeError::Malformed)
                }
            },
            BaseType::VarChar => match text_from_utf8(b) {
                Some(s) => Ok(Value::Text(s)),
                None => Err(DecodeError::Malformed),
            },
        },
    }
}

/// Decoding what encoding produced gives the value back, for every value that
/// fits the tag; under a `Nullable` tag NULL decodes to the absent value.
pub proof fn lemma_codec_round_trip(v: Value, t: SqlType)
    requires
        value_fits(v, t),
    ensures
        decoded(raw_of(v), t) == Ok::<ValueView, DecodeError>(v@),
{
    match v {
        Value::Int(i) => lemma_int_bytes_round_trip(i),
        Value::Text(s) => {
            vstd::utf8::encode_utf8_valid_utf8(s@);
            vstd::utf8::encode_utf8_decode_utf8(s@);
        },
        _ => {},
    }
}

/// The raw values of one result row, read left to right; `None` is SQL NULL.
#[derive(Debug)]
pub struct RawRow {
    pub values: Vec<Option<Vec<u8>>>,
    pub next: usize,
}

/// Why a row could not be read: the position of the column, and the error.
#[derive(Debug, Clone, Copy, PartialEq, Eq, Structural)]
pub struct RowError {
    pub position: usize,
    pub error: DecodeError,
}

impl RawRow {
    pub fn new(values: Vec<Option<Vec<u8>>>) -> (r: RawRow)
        ensures
            r.values@ == values@,
            r.next == 0,
    {
        RawRow { values, next: 0 }
    }

    /// The next raw value, which is then consumed.
    pub fn take(&mut self) -> (r: Option<Vec<u8>>)
        requires
            old(self).next < old(self).values@.len(),
        ensures
            raw_view(r) == raw_view(old(self).values@[old(self).next as int]),
            final(self).values@ == old(self).values@,
            final(self).next == old(self).next + 1,
    {
        let i = self.next;
        let n = self.values.len();
        assert(i < n);
        let r = match &self.values[i] {
            None => None,
            Some(b) => {
                let mut c: Vec<u8> = Vec::new();
                push_all(&mut c, b.as_slice());
                Some(c)
            },
        };
        self.next = i + 1;
        r
    }
}

/// Decodes the next column of a row under tag `t`.
pub fn build_from_row(row: &mut RawRow, t: SqlType) -> (r: Result<Value, DecodeError>)
    requires
        old(row).next < old(row).values@.len(),
    ensures
        final(row).values@ == old(row).values@,
        final(row).next == old(row).next + 1,
        match r {
            Ok(v) => decoded(raw_view(old(row).values@[old(row).next as int]), t) == Ok::<
                ValueView,
                DecodeError,
            >(v@),
            Err(e) => decoded(raw_view(old(row).values@[old(row).next as int]), t) == Err::<
                ValueView,
                DecodeError,
            >(e),
        },
{
    let raw = row.take();
    from_sql(raw, t)
}

/// Reads a whole row, one column per tag. Fails on the first column that does
/// not decode, naming its position; a row of another width is `WrongWidth`.
pub fn read_row(values: Vec<Option<Vec<u8>>>, types: &Vec<SqlType>) -> (r: Result<Vec<Value>, RowError>)
    ensures
        values@.len() != types@.len() ==> r == Err::<Vec<Value>, RowError>(
            RowError { position: 0, error: DecodeError::WrongWidth },
        ),
        r is Ok ==> r->Ok_0@.len() == types@.len() && forall|j: int|
            0 <= j < types@.len() ==> decoded(raw_view(values@[j]), types@[j]) == Ok::<
                ValueView,
                DecodeError,
            >(#[trigger] r->Ok_0@[j]@),
        r is Err && values@.len() == types@.len() ==> r->Err_0.position < types@.len() && decoded(
            raw_view(values@[r->Err_0.position as int]),
            types@[r->Err_0.position as int],
        ) == Err::<ValueView, DecodeError>(r->Err_0.error) && forall|j: int|
            0 <= j < r->Err_0.position ==> #[trigger] decoded(raw_view(values@[j]), types@[j]) is Ok,
{
    if values.len() != types.len() {
        return Err(RowError { position: 0, error: DecodeError::WrongWidth });
    }
    let mut row = RawRow::new(values);
    let mut out: Vec<Value> = Vec::new();
    while row.next < types.len()
        invariant
            row.values@ == values@,
            values@.len() == types@.len(),
            row.next <= types@.len(),
            out@.len() == row.next,
            forall|j: int|
                0 <= j < row.next ==> decoded(raw_view(values@[j]), types@[j]) == Ok::<
                    ValueView,
                    DecodeError,
                >(#[trigger] out@[j]@),
        decreases types@.len() - row.next,
    {
        let i = row.next;
        match build_from_row(&mut row, types[i]) {
            Ok(v) => out.push(v),
            Err(e) => {
                assert forall|j: int| 0 <= j < i implies #[trigger] decoded(raw_view(values@[j]), types@[j]) is Ok by {
                    assert(decoded(raw_view(values@[j]), types@[j]) == Ok::<ValueView, DecodeError>(out@[j]@));
                }
                return Err(RowError { position: i, error: e });
            },
        }
    }
    Ok(out)
}

} // verus!
