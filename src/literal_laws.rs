//! What holds of every serialized literal: reading it back the way SQL reads
//! it and serializing the result again gives the same literal, quotes inside a
//! quoted literal are always doubled, and invalid UTF-8 becomes a hexadecimal
//! literal.

use vstd::prelude::*;
use vstd::utf8::valid_utf8;
use crate::text::{decimal, digit_char, signed_decimal, zero_padded};
use crate::value::{
    bytes_literal, clock_text, date_text, escape_char, escape_text, fraction_text, hex_digit,
    hex_literal, hex_text, is_float_char, literal, null_literal, quoted, text_literal, ColumnValue,
};

verus! {

/// What a literal reads back as.
pub enum ParsedLiteral {
    Null,
    Text(Seq<char>),
    Bytes(Seq<u8>),
    /// A bare token: a number.
    Bare(Seq<char>),
}

/// The text inside a quoted string with each doubled quote or backslash read
/// as one.
pub open spec fn unescape_text(s: Seq<char>) -> Seq<char>
    decreases s.len(),
{
    if s.len() == 0 {
        seq![]
    } else if s.len() >= 2 && (s[0] == '\'' || s[0] == '\\') && s[1] == s[0] {
        seq![s[0]] + unescape_text(s.subrange(2, s.len() as int))
    } else {
        seq![s[0]] + unescape_text(s.subrange(1, s.len() as int))
    }
}

/// Every quote and every backslash in the text stands in a doubled pair.
pub open spec fn well_escaped(s: Seq<char>) -> bool
    decreases s.len(),
{
    if s.len() == 0 {
        true
    } else if s[0] == '\'' || s[0] == '\\' {
        s.len() >= 2 && s[1] == s[0] && well_escaped(s.subrange(2, s.len() as int))
    } else {
        well_escaped(s.subrange(1, s.len() as int))
    }
}

/// The value of a hexadecimal digit.
pub open spec fn hex_value(c: char) -> int {
    if '0' <= c && c <= '9' {
        c as int - '0' as int
    } else if 'a' <= c && c <= 'f' {
        c as int - 'a' as int + 10
    } else {
        0
    }
}

/// The bytes that a run of hexadecimal digit pairs spells.
pub open spec fn hex_bytes(h: Seq<char>) -> Seq<u8> {
    Seq::new(h.len() / 2, |i: int| (hex_value(h[2 * i]) * 16 + hex_value(h[2 * i + 1])) as u8)
}

/// A literal read back: `NULL`, a quoted string, a `0x` hexadecimal string or
/// a bare token.
pub open spec fn parse_literal(lit: Seq<char>) -> ParsedLiteral {
    if lit == null_literal() {
        ParsedLiteral::Null
    } else if lit.len() >= 2 && lit[0] == '\'' && lit.last() == '\'' {
        ParsedLiteral::Text(unescape_text(lit.subrange(1, lit.len() - 1)))
    } else if lit.len() >= 2 && lit[0] == '0' && lit[1] == 'x' {
        ParsedLiteral::Bytes(hex_bytes(lit.subrange(2, lit.len() as int)))
    } else {
        ParsedLiteral::Bare(lit)
    }
}

/// The literal that a read-back value serializes to.
pub open spec fn parsed_literal(p: ParsedLiteral) -> Seq<char> {
    match p {
        ParsedLiteral::Null => null_literal(),
        ParsedLiteral::Text(s) => text_literal(s),
        ParsedLiteral::Bytes(b) => bytes_literal(b),
        ParsedLiteral::Bare(t) => t,
    }
}

/// No character of the text is a quote or a backslash.
pub open spec fn plain_text(s: Seq<char>) -> bool {
    forall|i: int| 0 <= i < s.len() ==> #[trigger] s[i] != '\'' && s[i] != '\\'
}

/// Every character of the text is a decimal digit.
pub open spec fn all_digits(s: Seq<char>) -> bool {
    forall|i: int| 0 <= i < s.len() ==> '0' <= #[trigger] s[i] && s[i] <= '9'
}

proof fn lemma_digit_char(d: nat)
    requires
        d < 10,
    ensures
        '0' <= digit_char(d) <= '9',
{
}

proof fn lemma_decimal_digits(n: nat)
    ensures
        all_digits(decimal(n)),
        decimal(n).len() >= 1,
    decreases n,
{
    lemma_digit_char(n % 10);
    if n >= 10 {
        lemma_decimal_digits(n / 10);
    }
}

proof fn lemma_zero_padded_digits(n: nat, w: nat)
    ensures
        all_digits(zero_padded(n, w)),
{
    lemma_decimal_digits(n);
}

proof fn lemma_escape_front(c: char, t: Seq<char>)
    ensures
        escape_text(seq![c] + t) == escape_char(c) + escape_text(t),
    decreases t.len(),
{
    if t.len() == 0 {
        assert(seq![c] + t =~= seq![c]);
        assert((seq![c] + t).drop_last() =~= Seq::<char>::empty());
        assert(escape_text(Seq::<char>::empty()) =~= Seq::<char>::empty());
        assert(escape_text(seq![c]) =~= escape_char(c));
        assert(escape_char(c) + escape_text(t) =~= escape_char(c));
    } else {
        assert((seq![c] + t).drop_last() =~= seq![c] + t.drop_last());
        lemma_escape_front(c, t.drop_last());
        assert(escape_text(seq![c] + t) =~= escape_char(c) + escape_text(t));
    }
}

/// Escaping then unescaping gives the text back, and the escaped text has
/// every quote and backslash doubled.
pub proof fn lemma_escape_round_trip(s: Seq<char>)
    ensures
        unescape_text(escape_text(s)) == s,
        well_escaped(escape_text(s)),
    decreases s.len(),
{
    if s.len() > 0 {
        let rest = s.drop_first();
        assert(s =~= seq![s[0]] + rest);
        lemma_escape_front(s[0], rest);
        lemma_escape_round_trip(rest);
        let e = escape_text(s);
        if s[0] == '\'' || s[0] == '\\' {
            assert(e.subrange(2, e.len() as int) =~= escape_text(rest));
        } else {
            assert(e.subrange(1, e.len() as int) =~= escape_text(rest));
        }
        assert(unescape_text(e) =~= s);
    } else {
        assert(escape_text(s) =~= Seq::<char>::empty());
        assert(unescape_text(escape_text(s)) =~= s);
    }
}

proof fn lemma_plain_escape(s: Seq<char>)
    requires
        plain_text(s),
    ensures
        escape_text(s) == s,
    decreases s.len(),
{
    if s.len() > 0 {
        assert(plain_text(s.drop_last()));
        lemma_plain_escape(s.drop_last());
        assert(s =~= s.drop_last().push(s.last()));
        assert(escape_char(s.last()) =~= seq![s.last()]);
    }
}

proof fn lemma_hex_round_trip(b: Seq<u8>)
    ensures
        hex_bytes(hex_text(b)) == b,
{
    assert forall|d: int| 0 <= d < 16 implies hex_value(#[trigger] hex_digit(d)) == d by {
        assert(0 <= d < 16);
    }
    let h = hex_text(b);
    assert forall|i: int| 0 <= i < b.len() implies #[trigger] hex_bytes(h)[i] == b[i] by {
        assert((2 * i) / 2 == i);
        assert((2 * i + 1) / 2 == i);
        assert((2 * i) % 2 == 0);
        assert((2 * i + 1) % 2 == 1);
        let x = b[i] as int;
        assert(hex_value(h[2 * i]) == x / 16);
        assert(hex_value(h[2 * i + 1]) == x % 16);
    }
    assert(hex_bytes(h) =~= b);
}

/// A quoted literal of plain text reads back as that text and serializes
/// to the same literal again.
proof fn lemma_plain_quoted(body: Seq<char>)
    requires
        plain_text(body),
    ensures
        parsed_literal(parse_literal(quoted(body))) == quoted(body),
        quoted(body).subrange(1, quoted(body).len() - 1) == body,
        well_escaped(body),
{
    let lit = quoted(body);
    lemma_plain_escape(body);
    lemma_escape_round_trip(body);
    assert(lit.subrange(1, lit.len() - 1) =~= body);
    assert(lit != null_literal()) by {
        assert(lit[0] == '\'');
    }
}

/// Reading a serialized literal back the way SQL reads it, then serializing
/// what was read, gives the same literal; and inside every quoted literal
/// each quote (and backslash) stands doubled, so none ends the string early.
pub proof fn lemma_literal_reserializes(v: ColumnValue)
    requires
        v.wf(),
    ensures
        parsed_literal(parse_literal(literal(v))) == literal(v),
        literal(v).len() >= 2 && literal(v)[0] == '\'' ==> well_escaped(
            literal(v).subrange(1, literal(v).len() - 1),
        ),
{
    match v {
        ColumnValue::Null => {
            lemma_bare_reserializes(null_literal());
        },
        ColumnValue::Text(s) => {
            lemma_text_literal_reserializes(s@);
        },
        ColumnValue::Binary(b) => {
            lemma_bytes_reserializes(b@);
        },
        ColumnValue::SignedInt(n) => {
            lemma_signed_reserializes(n as int);
        },
        ColumnValue::UnsignedInt(n) => {
            lemma_signed_reserializes(n as int);
        },
        ColumnValue::Float(t) => {
            lemma_float_reserializes(t@);
        },
        ColumnValue::Date(y, m, d) => {
            let body = date_text(y as nat, m as nat, d as nat);
            lemma_date_plain(y as nat, m as nat, d as nat);
            lemma_plain_quoted(body);
        },
        ColumnValue::DateTime(..) => {
            lemma_datetime_reserializes(v);
        },
        ColumnValue::Time(..) => {
            lemma_time_reserializes(v);
        },
    }
}

/// `NULL` and bare tokens read back as themselves.
proof fn lemma_bare_reserializes(lit: Seq<char>)
    requires
        lit == null_literal() || ((lit.len() >= 1 ==> lit[0] != '\'') && (lit.len() >= 2 ==> lit[1]
            != 'x')),
    ensures
        parsed_literal(parse_literal(lit)) == lit,
        lit.len() >= 2 ==> lit[0] != '\'',
{
    if lit == null_literal() {
        assert(lit[0] == 'N');
    }
}

proof fn lemma_bytes_reserializes(b: Seq<u8>)
    ensures
        parsed_literal(parse_literal(bytes_literal(b))) == bytes_literal(b),
        bytes_literal(b).len() >= 2 && bytes_literal(b)[0] == '\'' ==> well_escaped(
            bytes_literal(b).subrange(1, bytes_literal(b).len() - 1),
        ),
{
    if valid_utf8(b) {
        lemma_text_literal_reserializes(vstd::utf8::decode_utf8(b));
    } else {
        let lit = hex_literal(b);
        lemma_hex_round_trip(b);
        assert(lit[0] == '0');
        assert(lit.subrange(2, lit.len() as int) =~= hex_text(b));
    }
}

proof fn lemma_signed_reserializes(n: int)
    ensures
        parsed_literal(parse_literal(signed_decimal(n))) == signed_decimal(n),
        signed_decimal(n).len() >= 1 ==> signed_decimal(n)[0] != '\'',
        n >= 0 ==> signed_decimal(n) == decimal(n as nat),
{
    let lit = signed_decimal(n);
    if n < 0 {
        lemma_decimal_digits((-n) as nat);
        let m = decimal((-n) as nat);
        assert(lit[0] == '-');
        assert(lit.len() >= 2 ==> lit[1] == m[0]);
    } else {
        lemma_decimal_digits(n as nat);
        assert('0' <= lit[0] <= '9');
        assert(lit.len() >= 2 ==> '0' <= lit[1] <= '9');
    }
    lemma_bare_reserializes(lit);
}

proof fn lemma_float_reserializes(t: Seq<char>)
    requires
        forall|i: int| 0 <= i < t.len() ==> is_float_char(#[trigger] t[i]),
    ensures
        parsed_literal(parse_literal(t)) == t,
        t.len() >= 1 ==> t[0] != '\'',
{
    assert(t.len() >= 1 ==> is_float_char(t[0]));
    assert(t.len() >= 2 ==> is_float_char(t[1]));
    lemma_bare_reserializes(t);
}

proof fn lemma_datetime_reserializes(v: ColumnValue)
    requires
        v is DateTime,
    ensures
        parsed_literal(parse_literal(literal(v))) == literal(v),
        literal(v).len() >= 2 && literal(v)[0] == '\'' ==> well_escaped(
            literal(v).subrange(1, literal(v).len() - 1),
        ),
{
    let lit = literal(v);
    match v {
        ColumnValue::DateTime(y, mo, d, h, mi, s, us) => {
        let date = date_text(y as nat, mo as nat, d as nat);
        lemma_date_plain(y as nat, mo as nat, d as nat);
        if h == 0 && mi == 0 && s == 0 && us == 0 {
            lemma_plain_quoted(date);
            assert(lit.subrange(1, lit.len() - 1) =~= date);
        } else {
            let clock = clock_text(h as nat, mi as nat, s as nat, us as nat);
            lemma_clock_plain(h as nat, mi as nat, s as nat, us as nat);
            let body = date + seq![' '] + clock;
            assert(plain_text(body)) by {
                assert forall|i: int| 0 <= i < body.len() implies #[trigger] body[i] != '\''
                    && body[i] != '\\' by {
                    if i < date.len() {
                        assert(body[i] == date[i]);
                    } else if i > date.len() {
                        assert(body[i] == clock[i - date.len() - 1]);
                    }
                }
            }
            lemma_plain_quoted(body);
            assert(lit.subrange(1, lit.len() - 1) =~= body);
        }
        },
        _ => {},
    }
}

proof fn lemma_time_reserializes(v: ColumnValue)
    requires
        v is Time,
    ensures
        parsed_literal(parse_literal(literal(v))) == literal(v),
        literal(v).len() >= 2 && literal(v)[0] == '\'' ==> well_escaped(
            literal(v).subrange(1, literal(v).len() - 1),
        ),
{
    let lit = literal(v);
    match v {
        ColumnValue::Time(neg, days, h, mi, s, us) => {
        let clock = clock_text(h as nat + 24 * days as nat, mi as nat, s as nat, us as nat);
        lemma_clock_plain(h as nat + 24 * days as nat, mi as nat, s as nat, us as nat);
        let sign: Seq<char> = if neg {
            seq!['-']
        } else {
            seq![]
        };
        let body = sign + clock;
        assert(plain_text(body)) by {
            assert forall|i: int| 0 <= i < body.len() implies #[trigger] body[i] != '\''
                && body[i] != '\\' by {
                if i >= sign.len() {
                    assert(body[i] == clock[i - sign.len()]);
                }
            }
        }
        lemma_plain_quoted(body);
        assert(lit.subrange(1, lit.len() - 1) =~= body);
        },
        _ => {},
    }
}

proof fn lemma_text_literal_reserializes(s: Seq<char>)
    ensures
        parsed_literal(parse_literal(text_literal(s))) == text_literal(s),
        text_literal(s).subrange(1, text_literal(s).len() - 1) == escape_text(s),
        well_escaped(escape_text(s)),
{
    let lit = text_literal(s);
    lemma_escape_round_trip(s);
    assert(lit.subrange(1, lit.len() - 1) =~= escape_text(s));
    assert(lit != null_literal()) by {
        assert(lit[0] == '\'');
    }
}

proof fn lemma_digits_plain(s: Seq<char>)
    requires
        all_digits(s),
    ensures
        plain_text(s),
{
    assert forall|i: int| 0 <= i < s.len() implies #[trigger] s[i] != '\'' && s[i] != '\\' by {
        assert('0' <= s[i] <= '9');
    }
}

proof fn lemma_date_plain(y: nat, m: nat, d: nat)
    ensures
        plain_text(date_text(y, m, d)),
{
    let a = zero_padded(y, 4);
    let b = zero_padded(m, 2);
    let c = zero_padded(d, 2);
    lemma_zero_padded_digits(y, 4);
    lemma_zero_padded_digits(m, 2);
    lemma_zero_padded_digits(d, 2);
    lemma_digits_plain(a);
    lemma_digits_plain(b);
    lemma_digits_plain(c);
    let t = date_text(y, m, d);
    assert forall|i: int| 0 <= i < t.len() implies #[trigger] t[i] != '\'' && t[i] != '\\' by {
        if i < a.len() {
            assert(t[i] == a[i]);
        } else if a.len() < i < a.len() + 1 + b.len() {
            assert(t[i] == b[i - a.len() - 1]);
        } else if i > a.len() + 1 + b.len() {
            assert(t[i] == c[i - a.len() - b.len() - 2]);
        }
    }
}

proof fn lemma_clock_plain(h: nat, mi: nat, s: nat, us: nat)
    ensures
        plain_text(clock_text(h, mi, s, us)),
{
    let a = zero_padded(h, 2);
    let b = zero_padded(mi, 2);
    let c = zero_padded(s, 2);
    let f = fraction_text(us);
    lemma_zero_padded_digits(h, 2);
    lemma_zero_padded_digits(mi, 2);
    lemma_zero_padded_digits(s, 2);
    lemma_zero_padded_digits(us, 6);
    lemma_digits_plain(a);
    lemma_digits_plain(b);
    lemma_digits_plain(c);
    lemma_digits_plain(zero_padded(us, 6));
    assert(plain_text(f)) by {
        if us != 0 {
            let p = zero_padded(us, 6);
            assert forall|i: int| 0 <= i < f.len() implies #[trigger] f[i] != '\'' && f[i] != '\\' by {
                if i > 0 {
                    assert(f[i] == p[i - 1]);
                }
            }
        }
    }
    let t = clock_text(h, mi, s, us);
    assert forall|i: int| 0 <= i < t.len() implies #[trigger] t[i] != '\'' && t[i] != '\\' by {
        if i < a.len() {
            assert(t[i] == a[i]);
        } else if a.len() < i < a.len() + 1 + b.len() {
            assert(t[i] == b[i - a.len() - 1]);
        } else if a.len() + 1 + b.len() < i < a.len() + b.len() + 2 + c.len() {
            assert(t[i] == c[i - a.len() - b.len() - 2]);
        } else if i >= a.len() + b.len() + 2 + c.len() {
            assert(t[i] == f[i - a.len() - b.len() - 2 - c.len()]);
        }
    }
}

/// Bytes that are not valid UTF-8 always serialize to a `0x` hexadecimal
/// literal, never to a quoted string.
pub proof fn lemma_invalid_utf8_is_hex(v: ColumnValue)
    requires
        v is Binary,
        !valid_utf8(v->Binary_0@),
    ensures
        literal(v) == seq!['0', 'x'] + hex_text(v->Binary_0@),
        literal(v)[0] != '\'',
{
}

} // verus!
