//! Column values and their SQL literals.

use vstd::prelude::*;
use vstd::utf8::{decode_utf8, valid_utf8};
use crate::error::BackupError;
use crate::text::{
    decimal, push_decimal, push_signed_decimal, push_zero_padded, signed_decimal, zero_padded,
};

verus! {

broadcast use {vstd::string::axiom_spec_iter, vstd::string::to_string_from_display_ensures_for_str};

/// One cell as the database driver hands it over.
#[derive(Debug)]
pub enum ColumnValue {
    Null,
    /// Character data that is already text.
    Text(String),
    /// Raw bytes: string columns arrive this way, as do binary payloads.
    Binary(Vec<u8>),
    SignedInt(i64),
    UnsignedInt(u64),
    /// A floating-point value, carried as its shortest round-trip decimal
    /// text (`1.5`, `-0.25`, `NaN`, `inf`).
    Float(String),
    /// year, month, day
    Date(u16, u8, u8),
    /// year, month, day, hour, minute, second, microseconds
    DateTime(u16, u8, u8, u8, u8, u8, u32),
    /// is negative, days, hours, minutes, seconds, microseconds
    Time(bool, u32, u8, u8, u8, u32),
}

/// A character that may appear in the decimal text of a floating-point value.
pub open spec fn is_float_char(c: char) -> bool {
    ('0' <= c && c <= '9') || c == '-' || c == '+' || c == '.' || c == 'e' || c == 'E'
        || c == 'N' || c == 'a' || c == 'i' || c == 'n' || c == 'f'
}

impl ColumnValue {
    /// Well-formed: a float's text is made of the characters such a text has.
    pub open spec fn wf(&self) -> bool {
        match self {
            ColumnValue::Float(t) => forall|i: int| 0 <= i < t@.len() ==> is_float_char(#[trigger] t@[i]),
            _ => true,
        }
    }
}

/// The text wrapped in single quotes.
pub open spec fn quoted(s: Seq<char>) -> Seq<char> {
    seq!['\''] + s + seq!['\'']
}

/// One character as it stands inside a quoted SQL string.
pub open spec fn escape_char(c: char) -> Seq<char> {
    if c == '\'' {
        seq!['\'', '\'']
    } else if c == '\\' {
        seq!['\\', '\\']
    } else {
        seq![c]
    }
}

/// The text with each quote doubled and each backslash doubled.
pub open spec fn escape_text(s: Seq<char>) -> Seq<char>
    decreases s.len(),
{
    if s.len() == 0 {
        seq![]
    } else {
        escape_text(s.drop_last()) + escape_char(s.last())
    }
}

/// The quoted, escaped SQL string literal of a text.
pub open spec fn text_literal(s: Seq<char>) -> Seq<char> {
    quoted(escape_text(s))
}

/// A lowercase hexadecimal digit.
pub open spec fn hex_digit(d: int) -> char {
    seq!['0', '1', '2', '3', '4', '5', '6', '7', '8', '9', 'a', 'b', 'c', 'd', 'e', 'f'][d]
}

/// Two lowercase hexadecimal digits per byte, high half first.
pub open spec fn hex_text(b: Seq<u8>) -> Seq<char> {
    Seq::new(
        2 * b.len(),
        |i: int|
            if i % 2 == 0 {
                hex_digit(b[i / 2] as int / 16)
            } else {
                hex_digit(b[i / 2] as int % 16)
            },
    )
}

/// The hexadecimal literal of a binary payload.
pub open spec fn hex_literal(b: Seq<u8>) -> Seq<char> {
    seq!['0', 'x'] + hex_text(b)
}

/// The literal of a byte string: a text literal where the bytes are UTF-8,
/// a hexadecimal literal where they are not.
pub open spec fn bytes_literal(b: Seq<u8>) -> Seq<char> {
    if valid_utf8(b) {
        text_literal(decode_utf8(b))
    } else {
        hex_literal(b)
    }
}

/// `YYYY-MM-DD`.
pub open spec fn date_text(year: nat, month: nat, day: nat) -> Seq<char> {
    zero_padded(year, 4) + seq!['-'] + zero_padded(month, 2) + seq!['-'] + zero_padded(day, 2)
}

/// Empty without microseconds, else `.ffffff`.
pub open spec fn fraction_text(micros: nat) -> Seq<char> {
    if micros == 0 {
        seq![]
    } else {
        seq!['.'] + zero_padded(micros, 6)
    }
}

/// `HH:MM:SS` with the optional microsecond suffix.
pub open spec fn clock_text(hours: nat, minutes: nat, seconds: nat, micros: nat) -> Seq<char> {
    zero_padded(hours, 2) + seq![':'] + zero_padded(minutes, 2) + seq![':'] + zero_padded(seconds, 2)
        + fraction_text(micros)
}

/// The literal of `NULL`.
pub open spec fn null_literal() -> Seq<char> {
    seq!['N', 'U', 'L', 'L']
}

/// The SQL literal that a column value serializes to.
pub open spec fn literal(v: ColumnValue) -> Seq<char> {
    match v {
        ColumnValue::Null => null_literal(),
        ColumnValue::Text(s) => text_literal(s@),
        ColumnValue::Binary(b) => bytes_literal(b@),
        ColumnValue::SignedInt(n) => signed_decimal(n as int),
        ColumnValue::UnsignedInt(n) => decimal(n as nat),
        ColumnValue::Float(t) => t@,
        ColumnValue::Date(y, m, d) => quoted(date_text(y as nat, m as nat, d as nat)),
        ColumnValue::DateTime(y, mo, d, h, mi, s, us) => if h == 0 && mi == 0 && s == 0 && us == 0 {
            quoted(date_text(y as nat, mo as nat, d as nat))
        } else {
            quoted(
                date_text(y as nat, mo as nat, d as nat) + seq![' '] + clock_text(
                    h as nat,
                    mi as nat,
                    s as nat,
                    us as nat,
                ),
            )
        },
        ColumnValue::Time(neg, days, h, mi, s, us) => quoted(
            (if neg {
                seq!['-']
            } else {
                seq![]
            }) + clock_text(h as nat + 24 * days as nat, mi as nat, s as nat, us as nat),
        ),
    }
}

/// Relies on `hex::encode`: two lowercase hexadecimal digits per byte, high
/// half first.
#[verifier::external_body]
fn hex_encode(bytes: &Vec<u8>) -> (r: String)
    ensures
        r@ == hex_text(bytes@),
{
    hex::encode(bytes)
}

/// Relies on `String::from_utf8`: it succeeds exactly on valid UTF-8 and then
/// holds the decoded characters.
#[verifier::external_body]
fn utf8_string(bytes: &Vec<u8>) -> (r: Option<String>)
    ensures
        r is Some <==> valid_utf8(bytes@),
        r matches Some(s) ==> s@ == decode_utf8(bytes@),
{
    String::from_utf8(bytes.clone()).ok()
}

/// Appends the escaped, quoted literal of a text.
pub fn push_text_literal(out: &mut String, s: &str)
    ensures
        final(out)@ == old(out)@ + text_literal(s@),
{
    let ghost start = out@;
    out.push('\'');
    for c in it: s.chars()
        invariant
            it.seq() == s@,
            out@ == start + seq!['\''] + escape_text(it.seq().take(it.index() as int)),
    {
        proof {
            assert(it.seq().take(it.index() + 1).drop_last() =~= it.seq().take(it.index() as int));
        }
        if c == '\'' {
            out.push('\'');
            out.push('\'');
        } else if c == '\\' {
            out.push('\\');
            out.push('\\');
        } else {
            out.push(c);
        }
        assert(out@ =~= start + seq!['\''] + escape_text(it.seq().take(it.index() + 1)));
    }
    assert(s@.take(s@.len() as int) =~= s@);
    out.push('\'');
    assert(out@ =~= start + text_literal(s@));
}

fn push_date(out: &mut String, year: u16, month: u8, day: u8)
    ensures
        final(out)@ == old(out)@ + date_text(year as nat, month as nat, day as nat),
{
    let ghost start = out@;
    push_zero_padded(out, year as u64, 4);
    out.push('-');
    push_zero_padded(out, month as u64, 2);
    out.push('-');
    push_zero_padded(out, day as u64, 2);
    assert(out@ =~= start + date_text(year as nat, month as nat, day as nat));
}

fn push_clock(out: &mut String, hours: u64, minutes: u8, seconds: u8, micros: u32)
    ensures
        final(out)@ == old(out)@ + clock_text(hours as nat, minutes as nat, seconds as nat, micros as nat),
{
    let ghost start = out@;
    push_zero_padded(out, hours, 2);
    out.push(':');
    push_zero_padded(out, minutes as u64, 2);
    out.push(':');
    push_zero_padded(out, seconds as u64, 2);
    let ghost mid = out@;
    if micros != 0 {
        out.push('.');
        push_zero_padded(out, micros as u64, 6);
    }
    assert(out@ =~= mid + fraction_text(micros as nat));
    assert(out@ =~= start + clock_text(hours as nat, minutes as nat, seconds as nat, micros as nat));
}

/// Serializes one column value into a SQL literal that can be spliced into a
/// statement as it is.
pub fn sql_literal(value: &ColumnValue) -> (r: String)
    ensures
        r@ == literal(*value),
{
    let mut out = String::new();
    match value {
        ColumnValue::Null => {
            out.push_str("NULL");
            proof {
                reveal_strlit("NULL");
            }
            assert(out@ =~= null_literal());
        },
        ColumnValue::Text(s) => {
            push_text_literal(&mut out, s.as_str());
            assert(out@ =~= text_literal(s@));
        },
        ColumnValue::Binary(b) => {
            match utf8_string(b) {
                Some(s) => {
                    push_text_literal(&mut out, s.as_str());
                    assert(out@ =~= text_literal(s@));
                },
                None => {
                    out.push('0');
                    out.push('x');
                    let h = hex_encode(b);
                    out.push_str(h.as_str());
                    assert(out@ =~= hex_literal(b@));
                },
            }
        },
        ColumnValue::SignedInt(n) => {
            push_signed_decimal(&mut out, *n);
            assert(out@ =~= signed_decimal(*n as int));
        },
        ColumnValue::UnsignedInt(n) => {
            push_decimal(&mut out, *n);
            assert(out@ =~= decimal(*n as nat));
        },
        ColumnValue::Float(t) => {
            out.push_str(t.as_str());
            assert(out@ =~= t@);
        },
        ColumnValue::Date(y, m, d) => {
            out.push('\'');
            push_date(&mut out, *y, *m, *d);
            out.push('\'');
            assert(out@ =~= quoted(date_text(*y as nat, *m as nat, *d as nat)));
        },
        ColumnValue::DateTime(y, mo, d, h, mi, sec, us) => {
            out.push('\'');
            push_date(&mut out, *y, *mo, *d);
            if !(*h == 0 && *mi == 0 && *sec == 0 && *us == 0) {
                out.push(' ');
                push_clock(&mut out, *h as u64, *mi, *sec, *us);
            }
            out.push('\'');
            assert(out@ =~= literal(*value));
        },
        ColumnValue::Time(neg, days, h, mi, sec, us) => {
            out.push('\'');
            if *neg {
                out.push('-');
            }
            let hours: u64 = *h as u64 + 24 * (*days as u64);
            push_clock(&mut out, hours, *mi, *sec, *us);
            out.push('\'');
            assert(out@ =~= literal(*value));
        },
    }
    out
}

/// One fetched row: column names and, for each, its value if it is still
/// there.
pub struct Row {
    pub columns: Vec<String>,
    pub values: Vec<Option<ColumnValue>>,
}

/// The value of the first column named `name` at or after position `i`.
pub open spec fn cell_from(row: Row, name: Seq<char>, i: int) -> Option<ColumnValue>
    decreases row.columns@.len() - i,
{
    if i < 0 || i >= row.columns@.len() {
        None
    } else if row.columns@[i]@ == name {
        if i < row.values@.len() {
            row.values@[i]
        } else {
            None
        }
    } else {
        cell_from(row, name, i + 1)
    }
}

/// The value of the first column named `name`, if it is there.
pub open spec fn cell(row: Row, name: Seq<char>) -> Option<ColumnValue> {
    cell_from(row, name, 0)
}

/// The literal of the named column's value, or an error that says the value
/// could not be fetched, which is distinct from a value that is `NULL`.
pub fn get_escaped_value(row: &Row, column_name: &str) -> (r: Result<String, BackupError>)
    ensures
        r is Ok <==> cell(*row, column_name@) is Some,
        r matches Ok(s) ==> s@ == literal(cell(*row, column_name@)->0),
        r matches Err(e) ==> e matches BackupError::ValueUnavailable(n) && n@ == column_name@,
{
    let name = column_name.to_string();
    let mut i: usize = 0;
    while i < row.columns.len()
        invariant
            0 <= i <= row.columns@.len(),
            name@ == column_name@,
            cell(*row, column_name@) == cell_from(*row, column_name@, i as int),
        decreases row.columns@.len() - i,
    {
        if row.columns[i] == name {
            if i < row.values.len() {
                match &row.values[i] {
                    Some(v) => {
                        return Ok(sql_literal(v));
                    },
                    None => {
                        return Err(BackupError::ValueUnavailable(name));
                    },
                }
            }
            return Err(BackupError::ValueUnavailable(name));
        }
        i = i + 1;
    }
    Err(BackupError::ValueUnavailable(name))
}

} // verus!
