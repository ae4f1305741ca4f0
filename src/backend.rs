//! The rules of each database dialect: identifier quoting, parameter
//! placeholders and per-type metadata.
use vstd::prelude::*;
use vstd::string::{StrSliceExecFns, StringExecFns};
use crate::types::{BaseType, SqlType};

verus! {

/// A database dialect.
#[derive(Debug, Clone, Copy, PartialEq, Eq, Structural)]
pub enum Backend {
    /// Numbered placeholders `$1`, `$2`, ...; type metadata is the type's OID.
    Pg,
    /// Anonymous placeholders `?`; type metadata is the storage class.
    Sqlite,
}

/// An identifier with each double quote doubled.
pub open spec fn escaped(s: Seq<char>) -> Seq<char>
    decreases s.len(),
{
    if s.len() == 0 {
        Seq::empty()
    } else {
        let c = s.last();
        escaped(s.drop_last()) + if c == '"' {
            seq!['"', '"']
        } else {
            seq![c]
        }
    }
}

/// An identifier as it stands in SQL text: in double quotes, escaped.
pub open spec fn quoted(s: Seq<char>) -> Seq<char> {
    seq!['"'] + escaped(s) + seq!['"']
}

pub open spec fn digit_char(d: nat) -> char {
    if d == 0 { '0' }
    else if d == 1 { '1' }
    else if d == 2 { '2' }
    else if d == 3 { '3' }
    else if d == 4 { '4' }
    else if d == 5 { '5' }
    else if d == 6 { '6' }
    else if d == 7 { '7' }
    else if d == 8 { '8' }
    else { '9' }
}

/// The decimal digits of `n`.
pub open spec fn decimal(n: nat) -> Seq<char>
    decreases n,
{
    if n < 10 {
        seq![digit_char(n)]
    } else {
        decimal(n / 10) + seq![digit_char(n % 10)]
    }
}

/// The placeholder for the parameter at zero-based position `index`.
pub open spec fn placeholder(b: Backend, index: nat) -> Seq<char> {
    match b {
        Backend::Pg => seq!['$'] + decimal(index + 1),
        Backend::Sqlite => seq!['?'],
    }
}

/// The type metadata of a tag; a nullable tag has the metadata of its base.
pub open spec fn metadata_of(b: Backend, t: SqlType) -> u32 {
    match b {
        Backend::Pg => match t.base {
            BaseType::Integer => 23,
            BaseType::VarChar => 1043,
            BaseType::Bool => 16,
        },
        Backend::Sqlite => match t.base {
            BaseType::Integer => 1,
            BaseType::VarChar => 3,
            BaseType::Bool => 1,
        },
    }
}

fn digit_str(d: u64) -> (r: &'static str)
    requires
        d < 10,
    ensures
        r@ == seq![digit_char(d as nat)],
{
    proof {
        reveal_strlit("0");
        reveal_strlit("1");
        reveal_strlit("2");
        reveal_strlit("3");
        reveal_strlit("4");
        reveal_strlit("5");
        reveal_strlit("6");
        reveal_strlit("7");
        reveal_strlit("8");
        reveal_strlit("9");
    }
    if d == 0 { "0" }
    else if d == 1 { "1" }
    else if d == 2 { "2" }
    else if d == 3 { "3" }
    else if d == 4 { "4" }
    else if d == 5 { "5" }
    else if d == 6 { "6" }
    else if d == 7 { "7" }
    else if d == 8 { "8" }
    else { "9" }
}

fn push_decimal(out: &mut String, n: u64)
    ensures
        final(out)@ == old(out)@ + decimal(n as nat),
    decreases n,
{
    if n >= 10 {
        push_decimal(out, n / 10);
    }
    out.append(digit_str(n % 10));
}

impl Backend {
    /// Appends `name` to `out` as a quoted identifier.
    pub fn quote_identifier(&self, name: &str, out: &mut String)
        ensures
            final(out)@ == old(out)@ + quoted(name@),
    {
        proof {
            reveal_strlit("\"");
        }
        out.append("\"");
        let n = name.unicode_len();
        let mut i: usize = 0;
        while i < n
            invariant
                n == name@.len(),
                i <= n,
                out@ == old(out)@ + seq!['"'] + escaped(name@.subrange(0, i as int)),
            decreases n - i,
        {
            let c = name.get_char(i);
            assert(name@.subrange(0, i + 1).drop_last() == name@.subrange(0, i as int));
            assert(name@.subrange(0, i + 1).last() == c);
            if c == '"' {
                proof {
                    reveal_strlit("\"");
                }
                out.append("\"");
                out.append("\"");
            } else {
                let one = name.substring_char(i, i + 1);
                assert(one@ =~= seq![c]);
                out.append(one);
            }
            assert(out@ =~= old(out)@ + seq!['"'] + escaped(name@.subrange(0, i + 1)));
            i = i + 1;
        }
        assert(name@.subrange(0, n as int) == name@);
        out.append("\"");
    }

    /// Appends the placeholder of the parameter at zero-based position `index`.
    pub fn push_placeholder(&self, index: usize, out: &mut String)
        requires
            index < usize::MAX,
        ensures
            final(out)@ == old(out)@ + placeholder(*self, index as nat),
    {
        proof {
            reveal_strlit("$");
            reveal_strlit("?");
        }
        match self {
            Backend::Pg => {
                out.append("$");
                push_decimal(out, (index + 1) as u64);
            },
            Backend::Sqlite => out.append("?"),
        }
    }

    /// The metadata that the driver needs to send a parameter of tag `t`.
    pub fn type_metadata(&self, t: SqlType) -> (r: u32)
        ensures
            r == metadata_of(*self, t),
    {
        match self {
            Backend::Pg => match t.base {
                BaseType::Integer => 23,
                BaseType::VarChar => 1043,
                BaseType::Bool => 16,
            },
            Backend::Sqlite => match t.base {
                BaseType::Integer => 1,
                BaseType::VarChar => 3,
                BaseType::Bool => 1,
            },
        }
    }
}

} // verus!
