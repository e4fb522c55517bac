//! Schema parser: one framed record becomes an ordered tuple of
//! fixed-point values, under a column count inferred from the first
//! parsed record and enforced afterwards.
//!
//! A record is split on commas; each field is trimmed and parsed as a
//! number; fields that do not parse are skipped, so labels or units
//! mixed into a record do not disturb the numeric columns. The first
//! parsed record fixes the schema to its numeric field count (even
//! zero); later records with a different count are rejected as a
//! recoverable `ColumnMismatch` and leave the schema and history
//! untouched.

use vstd::prelude::*;
use crate::numeric::{field_fixed, field_is_numeric, parse_field};
use crate::text::{find_byte, lemma_find_byte_is, trim_bytes, trimmed};

verus! {

/// Recoverable parse failure: the record's numeric field count differs
/// from the established schema (expected, actual).
#[derive(Clone, Copy, Debug, PartialEq, Eq, Structural)]
pub enum ParseError {
    ColumnMismatch(usize, usize),
}

/// The comma-separated fields of a record, split at every comma.
pub open spec fn split_fields(s: Seq<u8>) -> Seq<Seq<u8>>
    decreases s.len(),
{
    let j = find_byte(s, 44);
    if j >= s.len() {
        seq![s]
    } else {
        seq![s.subrange(0, j as int)] + split_fields(s.subrange(j + 1 as int, s.len() as int))
    }
}

/// Fixed-point values of the numeric fields, in order; non-numeric
/// fields are skipped.
pub open spec fn field_values(fs: Seq<Seq<u8>>) -> Seq<i64>
    decreases fs.len(),
{
    if fs.len() == 0 {
        Seq::empty()
    } else {
        let rest = field_values(fs.drop_first());
        if field_is_numeric(trimmed(fs[0])) {
            seq![field_fixed(trimmed(fs[0]))] + rest
        } else {
            rest
        }
    }
}

/// The ordered numeric values carried by one record.
pub open spec fn line_values(s: Seq<u8>) -> Seq<i64> {
    field_values(split_fields(s))
}

/// Splitting at a comma position: if `s[st..j)` is comma-free and `j`
/// is a comma or the end, the fields of `s[st..]` are `s[st..j)`
/// followed by the fields of `s[j+1..]`.
proof fn lemma_split_fields_step(s: Seq<u8>, st: int, j: int)
    requires
        0 <= st <= j <= s.len(),
        forall|k: int| st <= k < j ==> s[k] != 44,
        j == s.len() || s[j] == 44,
    ensures
        j == s.len() ==> split_fields(s.subrange(st, s.len() as int)) == seq![
            s.subrange(st, j),
        ],
        j < s.len() ==> split_fields(s.subrange(st, s.len() as int)) == seq![s.subrange(st, j)]
            + split_fields(s.subrange(j + 1, s.len() as int)),
{
    let t = s.subrange(st, s.len() as int);
    assert(forall|k: int| 0 <= k < j - st ==> t[k] != 44);
    lemma_find_byte_is(t, 44, j - st);
    if j == s.len() {
        assert(t =~= s.subrange(st, j));
    } else {
        assert(t.subrange(0, j - st) =~= s.subrange(st, j));
        assert(t.subrange(j - st + 1, t.len() as int) =~= s.subrange(j + 1, s.len() as int));
    }
}

/// Infers a column count from the first parsed record and enforces it
/// for the rest of the session.
pub struct SerialParser {
    columns: usize,
}

impl SerialParser {
    /// The column count this parser currently enforces; zero while no
    /// schema is established.
    pub closed spec fn spec_columns(&self) -> usize {
        self.columns
    }

    /// A fresh parser with no established schema.
    pub fn new() -> (r: Self)
        ensures
            r.spec_columns() == 0,
    {
        Self { columns: 0 }
    }

    /// Forget the established schema, so the next connection infers its
    /// own.
    pub fn reset(&mut self)
        ensures
            final(self).spec_columns() == 0,
    {
        self.columns = 0;
    }

    /// The established column count (zero while none is).
    pub fn columns(&self) -> (r: usize)
        ensures
            r == self.spec_columns(),
    {
        self.columns
    }

    /// Parse one record into its numeric values and enforce the schema.
    ///
    /// With no schema established the record's own count is adopted,
    /// even zero. An established schema turns a differing count into
    /// `ColumnMismatch(expected, actual)` and stays untouched.
    pub fn parse_values(&mut self, line: &[u8]) -> (r: Result<Vec<i64>, ParseError>)
        ensures
            old(self).spec_columns() == 0 || line_values(line@).len() == old(
                self,
            ).spec_columns() ==> {
                &&& r is Ok
                &&& r->Ok_0@ == line_values(line@)
                &&& final(self).spec_columns() == line_values(line@).len()
            },
            old(self).spec_columns() != 0 && line_values(line@).len() != old(
                self,
            ).spec_columns() ==> {
                &&& r == Err::<Vec<i64>, ParseError>(
                    ParseError::ColumnMismatch(
                        old(self).spec_columns(),
                        line_values(line@).len() as usize,
                    ),
                )
                &&& final(self).spec_columns() == old(self).spec_columns()
            },
    {
        let n = line.len();
        let mut res: Vec<i64> = Vec::new();
        let mut st: usize = 0;
        proof {
            assert(line@.subrange(0, n as int) =~= line@);
        }
        loop
            invariant_except_break
                0 <= st <= n == line@.len(),
                line_values(line@) == res@ + field_values(
                    split_fields(line@.subrange(st as int, n as int)),
                ),
            ensures
                res@ == line_values(line@),
            decreases n - st,
        {
            let mut j = st;
            while j < n && line[j] != 44
                invariant
                    st <= j <= n == line@.len(),
                    forall|k: int| st <= k < j ==> line@[k] != 44,
                decreases n - j,
            {
                j = j + 1;
            }
            let field = trim_bytes(&line[st..j]);
            let ghost fs = split_fields(line@.subrange(st as int, n as int));
            proof {
                lemma_split_fields_step(line@, st as int, j as int);
                assert(field@ == trimmed(line@.subrange(st as int, j as int)));
                if j < n {
                    assert(fs.drop_first() =~= split_fields(
                        line@.subrange(j + 1 as int, n as int),
                    ));
                } else {
                    assert(fs.drop_first() =~= Seq::<Seq<u8>>::empty());
                }
                assert(fs[0] == line@.subrange(st as int, j as int));
            }
            match parse_field(field.as_slice()) {
                Some(v) => {
                    res.push(v);
                },
                None => {},
            }
            proof {
                if j < n {
                    assert(line_values(line@) =~= res@ + field_values(
                        split_fields(line@.subrange(j + 1 as int, n as int)),
                    ));
                } else {
                    assert(field_values(fs.drop_first()) =~= Seq::<i64>::empty());
                    assert(line_values(line@) =~= res@);
                }
            }
            if j == n {
                break;
            }
            st = j + 1;
        }
        let actual = res.len();
        if self.columns != 0 && self.columns != actual {
            return Err(ParseError::ColumnMismatch(self.columns, actual));
        }
        self.columns = actual;
        Ok(res)
    }
}

} // verus!
