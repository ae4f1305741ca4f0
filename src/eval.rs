//! Evaluation of expressions over in-memory rows, as a database would compute
//! a select list: integer arithmetic with overflow and division checks, NULL
//! propagating through operators.
use vstd::prelude::*;
use crate::expression::{BinOp, Expr};
use crate::types::{Value, ValueView};

verus! {

/// The value of one column in a row in flight.
#[derive(Debug)]
pub struct Binding {
    pub table: String,
    pub column: String,
    pub value: Value,
}

/// Why an expression could not be evaluated on a row.
#[derive(Debug, Clone, Copy, PartialEq, Eq, Structural)]
pub enum EvalError {
    /// A column that the row does not hold.
    UnknownColumn,
    /// Operands of types that the operator does not accept.
    TypeMismatch,
    /// An integer result outside the 32-bit range.
    Overflow,
    /// Division by zero.
    DivisionByZero,
    /// A table that no relation holds.
    UnknownTable,
}

impl Value {
    /// A value with the same content.
    pub fn duplicate(&self) -> (r: Value)
        ensures
            r@ == self@,
    {
        match self {
            Value::Null => Value::Null,
            Value::Int(i) => Value::Int(*i),
            Value::Text(s) => Value::Text(s.clone()),
            Value::Bool(b) => Value::Bool(*b),
        }
    }
}

/// A binding as table name, column name and value.
pub type BindingView = (Seq<char>, Seq<char>, ValueView);

impl View for Binding {
    type V = BindingView;

    open spec fn view(&self) -> BindingView {
        (self.table@, self.column@, self.value@)
    }
}

pub open spec fn env_view(row: Seq<Binding>) -> Seq<BindingView> {
    row.map_values(|b: Binding| b@)
}

impl Binding {
    pub fn duplicate(&self) -> (r: Binding)
        ensures
            r@ == self@,
    {
        Binding { table: self.table.clone(), column: self.column.clone(), value: self.value.duplicate() }
    }
}

/// The value of the first binding of `table.column` in the row.
pub open spec fn lookup(row: Seq<BindingView>, table: Seq<char>, column: Seq<char>) -> Option<ValueView>
    decreases row.len(),
{
    if row.len() == 0 {
        None
    } else if row[0].0 == table && row[0].1 == column {
        Some(row[0].2)
    } else {
        lookup(row.drop_first(), table, column)
    }
}

/// Integer division rounding toward zero, as SQL does.
pub open spec fn trunc_div(a: int, b: int) -> int {
    let q = abs(a) / abs(b);
    if (a < 0) != (b < 0) { -q } else { q }
}

pub open spec fn abs(a: int) -> int {
    if a < 0 { -a } else { a }
}

pub open spec fn in_i32(x: int) -> bool {
    i32::MIN <= x <= i32::MAX
}

/// An arithmetic operator on two integers.
pub open spec fn arith(op: BinOp, a: i32, b: i32) -> Result<ValueView, EvalError> {
    let x: int = match op {
        BinOp::Add => a + b,
        BinOp::Sub => a - b,
        BinOp::Mul => a * b,
        _ => if b == 0 { 0 } else { trunc_div(a as int, b as int) },
    };
    if (op == BinOp::Div) && b == 0 {
        Err(EvalError::DivisionByZero)
    } else if in_i32(x) {
        Ok(ValueView::Int(x as i32))
    } else {
        Err(EvalError::Overflow)
    }
}

/// A binary operator on two values: NULL on either side gives NULL, `=`
/// compares values of one type, the others work on integers.
pub open spec fn apply(op: BinOp, a: ValueView, b: ValueView) -> Result<ValueView, EvalError> {
    if a is Null || b is Null {
        Ok(ValueView::Null)
    } else if op == BinOp::Eq {
        match (a, b) {
            (ValueView::Int(x), ValueView::Int(y)) => Ok(ValueView::Bool(x == y)),
            (ValueView::Text(x), ValueView::Text(y)) => Ok(ValueView::Bool(x == y)),
            (ValueView::Bool(x), ValueView::Bool(y)) => Ok(ValueView::Bool(x == y)),
            _ => Err(EvalError::TypeMismatch),
        }
    } else {
        match (a, b) {
            (ValueView::Int(x), ValueView::Int(y)) => arith(op, x, y),
            _ => Err(EvalError::TypeMismatch),
        }
    }
}

/// The value of an expression on a row; the left operand is evaluated first.
pub open spec fn eval(e: Expr, row: Seq<BindingView>) -> Result<ValueView, EvalError>
    decreases e,
{
    match e {
        Expr::Column(c) => match lookup(row, c.table@, c.name@) {
            Some(v) => Ok(v),
            None => Err(EvalError::UnknownColumn),
        },
        Expr::Bound(b) => Ok(b.item@),
        Expr::Nullable(x) => eval(*x, row),
        Expr::Binary(op, l, r) => match eval(*l, row) {
            Err(x) => Err(x),
            Ok(a) => match eval(*r, row) {
                Err(x) => Err(x),
                Ok(b) => apply(op, a, b),
            },
        },
    }
}

pub fn find<'a>(row: &'a Vec<Binding>, table: &String, column: &String) -> (r: Option<&'a Value>)
    ensures
        match r {
            Some(v) => lookup(env_view(row@), table@, column@) == Some(v@),
            None => lookup(env_view(row@), table@, column@) is None,
        },
{
    let mut i: usize = 0;
    assert(env_view(row@).subrange(0, row@.len() as int) =~= env_view(row@));
    while i < row.len()
        invariant
            i <= row@.len(),
            lookup(env_view(row@), table@, column@) == lookup(env_view(row@).subrange(i as int, row@.len() as int), table@, column@),
        decreases row@.len() - i,
    {
        let ghost rest = env_view(row@).subrange(i as int, row@.len() as int);
        assert(rest.drop_first() =~= env_view(row@).subrange(i + 1, row@.len() as int));
        assert(rest[0] == row@[i as int]@);
        if row[i].table == *table && row[i].column == *column {
            return Some(&row[i].value);
        }
        i = i + 1;
    }
    None
}

fn arith_exec(op: BinOp, a: i32, b: i32) -> (r: Result<Value, EvalError>)
    requires
        op != BinOp::Eq,
    ensures
        match r {
            Ok(v) => arith(op, a, b) == Ok::<ValueView, EvalError>(v@),
            Err(x) => arith(op, a, b) == Err::<ValueView, EvalError>(x),
        },
{
    let x: i64 = match op {
        BinOp::Add => a as i64 + b as i64,
        BinOp::Sub => a as i64 - b as i64,
        BinOp::Mul => {
            proof {
                assert(-2147483648 * 2147483648 <= (a as int) * (b as int) <= 2147483648 * 2147483648)
                    by (nonlinear_arith)
                    requires
                        -2147483648 <= a <= 2147483647,
                        -2147483648 <= b <= 2147483647,
                ;
            }
            a as i64 * b as i64
        },
        _ => {
            if b == 0 {
                return Err(EvalError::DivisionByZero);
            }
            let ua: i64 = if a < 0 { -(a as i64) } else { a as i64 };
            let ub: i64 = if b < 0 { -(b as i64) } else { b as i64 };
            let q: i64 = ua / ub;
            proof {
                assert(0 <= q <= ua) by (nonlinear_arith)
                    requires
                        q == ua / ub,
                        0 <= ua,
                        1 <= ub,
                ;
            }
            if (a < 0) != (b < 0) { -q } else { q }
        },
    };
    if x < i32::MIN as i64 || x > i32::MAX as i64 {
        Err(EvalError::Overflow)
    } else {
        Ok(Value::Int(x as i32))
    }
}

fn apply_exec(op: BinOp, a: Value, b: Value) -> (r: Result<Value, EvalError>)
    ensures
        match r {
            Ok(v) => apply(op, a@, b@) == Ok::<ValueView, EvalError>(v@),
            Err(x) => apply(op, a@, b@) == Err::<ValueView, EvalError>(x),
        },
{
    if matches!(a, Value::Null) || matches!(b, Value::Null) {
        return Ok(Value::Null);
    }
    if op == BinOp::Eq {
        match (a, b) {
            (Value::Int(x), Value::Int(y)) => Ok(Value::Bool(x == y)),
            (Value::Text(x), Value::Text(y)) => Ok(Value::Bool(x == y)),
            (Value::Bool(x), Value::Bool(y)) => Ok(Value::Bool(x == y)),
            _ => Err(EvalError::TypeMismatch),
        }
    } else {
        match (a, b) {
            (Value::Int(x), Value::Int(y)) => arith_exec(op, x, y),
            _ => Err(EvalError::TypeMismatch),
        }
    }
}

impl Expr {
    /// The value of the expression on a row.
    pub fn eval(&self, row: &Vec<Binding>) -> (r: Result<Value, EvalError>)
        ensures
            match r {
                Ok(v) => eval(*self, env_view(row@)) == Ok::<ValueView, EvalError>(v@),
                Err(x) => eval(*self, env_view(row@)) == Err::<ValueView, EvalError>(x),
            },
        decreases self,
    {
        match self {
            Expr::Column(c) => match find(row, &c.table, &c.name) {
                Some(v) => Ok(v.duplicate()),
                None => Err(EvalError::UnknownColumn),
            },
            Expr::Bound(b) => Ok(b.item.duplicate()),
            Expr::Nullable(x) => x.eval(row),
            Expr::Binary(op, l, r) => {
                let a = l.eval(row)?;
                let b = r.eval(row)?;
                apply_exec(*op, a, b)
            },
        }
    }
}

} // verus!
