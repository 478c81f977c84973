//! The value literal codec of the catalog-driven (MySQL) engine: one fetched
//! cell, with its column's declared type, becomes SQL literal text.
use vstd::prelude::*;
use vstd::utf8::{decode_utf8, valid_utf8};

use crate::schema::ColumnProps;
use crate::text::{push_char, starts_with};

verus! {

/// A cell as the text protocol delivers it: `NULL`, or the value's bytes.
#[derive(Debug, Clone)]
pub enum SqlValue {
    Null,
    Bytes(Vec<u8>),
}

/// The abstract value a literal stands for.
pub enum Literal {
    Null,
    Text(Seq<char>),
    Binary(Seq<u8>),
}

pub open spec fn null_keyword() -> Seq<char> {
    seq!['N', 'U', 'L', 'L']
}

/// Declared types of true binary columns start with `binary`.
pub open spec fn binary_prefix() -> Seq<char> {
    seq!['b', 'i', 'n', 'a', 'r', 'y']
}

pub open spec fn is_binary_type(data_type: Seq<char>) -> bool {
    binary_prefix().is_prefix_of(data_type)
}

/// How one character appears inside a quoted literal: a single quote is
/// preceded by a backslash, every other character stands as it is.
pub open spec fn escaped_char(c: char) -> Seq<char> {
    if c == '\'' {
        seq!['\\', '\'']
    } else {
        seq![c]
    }
}

pub open spec fn escape_quotes(s: Seq<char>) -> Seq<char>
    decreases s.len(),
{
    if s.len() == 0 {
        seq![]
    } else {
        escape_quotes(s.drop_last()) + escaped_char(s.last())
    }
}

/// A single-quoted literal whose inner quotes are escaped.
pub open spec fn quoted(s: Seq<char>) -> Seq<char> {
    seq!['\''] + escape_quotes(s) + seq!['\'']
}

/// Upper-case hexadecimal digit for `d` (`0 <= d < 16`).
pub open spec fn hex_digit(d: int) -> char {
    if d < 10 {
        (48 + d) as char
    } else {
        (55 + d) as char
    }
}

/// Two upper-case hexadecimal digits per byte.
pub open spec fn hex_upper(b: Seq<u8>) -> Seq<char>
    decreases b.len(),
{
    if b.len() == 0 {
        seq![]
    } else {
        hex_upper(b.drop_last()) + seq![
            hex_digit(b.last() as int / 16),
            hex_digit(b.last() as int % 16),
        ]
    }
}

/// `X'<hex>'`
pub open spec fn binary_literal(b: Seq<u8>) -> Seq<char> {
    seq!['X', '\''] + hex_upper(b) + seq!['\'']
}

/// The view of a cell.
pub open spec fn value_view(v: SqlValue) -> Option<Seq<u8>> {
    match v {
        SqlValue::Null => None,
        SqlValue::Bytes(b) => Some(b@),
    }
}

/// Literal text of a cell in a column of type `data_type`; `None` when a
/// non-binary column holds bytes that are not UTF-8 text.
pub open spec fn literal_text(data_type: Seq<char>, v: Option<Seq<u8>>) -> Option<Seq<char>> {
    match v {
        None => Some(null_keyword()),
        Some(b) => if is_binary_type(data_type) {
            Some(binary_literal(b))
        } else if valid_utf8(b) {
            Some(quoted(decode_utf8(b)))
        } else {
            None
        },
    }
}

/// The value a cell stands for, under the column's declared type.
pub open spec fn literal_value(data_type: Seq<char>, v: Option<Seq<u8>>) -> Literal {
    match v {
        None => Literal::Null,
        Some(b) => if is_binary_type(data_type) {
            Literal::Binary(b)
        } else {
            Literal::Text(decode_utf8(b))
        },
    }
}

/// Relies on `mysql::from_value_opt::<String>`, which converts a
/// `Value::Bytes` with `String::from_utf8`: the text when the bytes are UTF-8.
#[verifier::external_body]
fn utf8_text(b: &Vec<u8>) -> (r: Option<String>)
    ensures
        r is Some <==> valid_utf8(b@),
        r is Some ==> r->0@ == decode_utf8(b@),
{
    mysql::from_value_opt::<String>(mysql::Value::Bytes(b.clone())).ok()
}

fn hex_char(d: u8) -> (c: char)
    requires
        d < 16,
    ensures
        c == hex_digit(d as int),
{
    if d < 10 {
        (48u8 + d) as char
    } else {
        (55u8 + d) as char
    }
}

/// Appends `X'<hex>'` for the bytes `b`.
pub fn push_binary_literal(out: &mut String, b: &Vec<u8>)
    ensures
        final(out)@ == old(out)@ + binary_literal(b@),
{
    let ghost start = out@;
    push_char(out, 'X');
    push_char(out, '\'');
    let mut i: usize = 0;
    while i < b.len()
        invariant
            i <= b.len(),
            out@ == start + seq!['X', '\''] + hex_upper(b@.take(i as int)),
        decreases b.len() - i,
    {
        let byte = b[i];
        push_char(out, hex_char(byte / 16));
        push_char(out, hex_char(byte % 16));
        assert(b@.take(i + 1).drop_last() =~= b@.take(i as int));
        i = i + 1;
    }
    assert(b@.take(b.len() as int) =~= b@);
    push_char(out, '\'');
    assert(out@ =~= start + binary_literal(b@));
}

/// Appends the single-quoted form of `s`, escaping its single quotes.
pub fn push_quoted(out: &mut String, s: &str)
    ensures
        final(out)@ == old(out)@ + quoted(s@),
{
    let ghost start = out@;
    push_char(out, '\'');
    for c in it: s.chars()
        invariant
            it.seq() == s@,
            out@ == start + seq!['\''] + escape_quotes(s@.take(it.index() as int)),
    {
        let ghost i = it.index();
        assert(s@.take(i + 1).drop_last() =~= s@.take(i));
        if c == '\'' {
            push_char(out, '\\');
            push_char(out, '\'');
        } else {
            push_char(out, c);
        }
        assert(out@ =~= start + seq!['\''] + escape_quotes(s@.take(i + 1)));
    }
    assert(s@.take(s@.len() as int) =~= s@);
    push_char(out, '\'');
    assert(out@ =~= start + quoted(s@));
}

/// Literal text for one cell of a column described by `column_props`:
/// `NULL`, `X'<hex>'` for binary columns, else the quoted text. `None` when
/// a non-binary column holds bytes that are not UTF-8.
pub fn parse_mysql_value_to_string(column_props: &ColumnProps, value: &SqlValue) -> (r: Option<
    String,
>)
    ensures
        r matches Some(t) ==> literal_text(column_props.data_type@, value_view(*value)) == Some(t@),
        r is None ==> literal_text(column_props.data_type@, value_view(*value)) is None,
{
    let mut out = String::new();
    match value {
        SqlValue::Null => {
            push_char(&mut out, 'N');
            push_char(&mut out, 'U');
            push_char(&mut out, 'L');
            push_char(&mut out, 'L');
            assert(out@ =~= null_keyword());
            Some(out)
        },
        SqlValue::Bytes(b) => {
            let binary = starts_with(column_props.data_type.as_str(), "binary");
            proof {
                reveal_strlit("binary");
                assert("binary"@ =~= binary_prefix());
            }
            if binary {
                push_binary_literal(&mut out, b);
                assert(out@ =~= binary_literal(b@));
                Some(out)
            } else {
                match utf8_text(b) {
                    Some(t) => {
                        push_quoted(&mut out, t.as_str());
                        assert(out@ =~= quoted(decode_utf8(b@)));
                        Some(out)
                    },
                    None => None,
                }
            }
        },
    }
}

/// Literals for tables exported whole, whose cells come without column
/// descriptions: `NULL`, or the quoted text.
pub struct SimpleTablesQueryGenerator<'config> {
    pub config: &'config crate::config::Config,
}

impl<'config> SimpleTablesQueryGenerator<'config> {
    pub fn parse_mysql_value_to_string(&self, value: &SqlValue) -> (r: Option<String>)
        ensures
            r matches Some(t) ==> literal_text(Seq::empty(), value_view(*value)) == Some(t@),
            r is None ==> literal_text(Seq::empty(), value_view(*value)) is None,
    {
        match value {
            SqlValue::Null => {
                let mut out = String::new();
                push_char(&mut out, 'N');
                push_char(&mut out, 'U');
                push_char(&mut out, 'L');
                push_char(&mut out, 'L');
                assert(out@ =~= null_keyword());
                Some(out)
            },
            SqlValue::Bytes(b) => {
                assert(!is_binary_type(Seq::empty()));
                match utf8_text(b) {
                    Some(t) => {
                        let mut out = String::new();
                        push_quoted(&mut out, t.as_str());
                        assert(out@ =~= quoted(decode_utf8(b@)));
                        Some(out)
                    },
                    None => None,
                }
            },
        }
    }
}

/// Value of a hexadecimal digit character.
pub open spec fn hex_value(c: char) -> Option<int> {
    let n = c as int;
    if 48 <= n <= 57 {
        Some(n - 48)
    } else if 65 <= n <= 70 {
        Some(n - 55)
    } else if 97 <= n <= 102 {
        Some(n - 87)
    } else {
        None
    }
}

/// Bytes from pairs of hexadecimal digits.
pub open spec fn parse_hex_digits(t: Seq<char>) -> Option<Seq<u8>>
    decreases t.len(),
{
    if t.len() == 0 {
        Some(seq![])
    } else if t.len() == 1 {
        None
    } else {
        match (hex_value(t[0]), hex_value(t[1]), parse_hex_digits(t.subrange(2, t.len() as int))) {
            (Some(h), Some(l), Some(rest)) => Some(seq![(h * 16 + l) as u8] + rest),
            _ => None,
        }
    }
}

/// The characters a quoted literal's body stands for: `\'` is a quote, a
/// bare quote or any other backslash is not part of this grammar.
pub open spec fn unescape(t: Seq<char>) -> Option<Seq<char>>
    decreases t.len(),
{
    if t.len() == 0 {
        Some(seq![])
    } else if t[0] == '\\' {
        if t.len() >= 2 && t[1] == '\'' {
            match unescape(t.subrange(2, t.len() as int)) {
                Some(r) => Some(seq!['\''] + r),
                None => None,
            }
        } else {
            None
        }
    } else if t[0] == '\'' {
        None
    } else {
        match unescape(t.drop_first()) {
            Some(r) => Some(seq![t[0]] + r),
            None => None,
        }
    }
}

/// Reads back a literal: `NULL`, `X'<hex>'` or `'<text>'`.
pub open spec fn parse_literal(t: Seq<char>) -> Option<Literal> {
    if t == null_keyword() {
        Some(Literal::Null)
    } else if t.len() >= 3 && t[0] == 'X' && t[1] == '\'' && t.last() == '\'' {
        match parse_hex_digits(t.subrange(2, t.len() - 1)) {
            Some(b) => Some(Literal::Binary(b)),
            None => None,
        }
    } else if t.len() >= 2 && t[0] == '\'' && t.last() == '\'' {
        match unescape(t.subrange(1, t.len() - 1)) {
            Some(s) => Some(Literal::Text(s)),
            None => None,
        }
    } else {
        None
    }
}

proof fn lemma_escape_prepend(c: char, s: Seq<char>)
    ensures
        escape_quotes(seq![c] + s) == escaped_char(c) + escape_quotes(s),
    decreases s.len(),
{
    if s.len() == 0 {
        reveal_with_fuel(escape_quotes, 2);
        assert(seq![c] + s =~= seq![c]);
        assert(seq![c].drop_last() =~= Seq::<char>::empty());
        assert(escaped_char(c) + escape_quotes(s) =~= escaped_char(c));
    } else {
        lemma_escape_prepend(c, s.drop_last());
        assert((seq![c] + s).drop_last() =~= seq![c] + s.drop_last());
        assert(escape_quotes(seq![c] + s) =~= escaped_char(c) + escape_quotes(s));
    }
}

proof fn lemma_unescape_escape(s: Seq<char>)
    requires
        !s.contains('\\'),
    ensures
        unescape(escape_quotes(s)) == Some(s),
    decreases s.len(),
{
    if s.len() == 0 {
    } else {
        let c = s[0];
        let rest = s.drop_first();
        assert(s =~= seq![c] + rest);
        assert(!rest.contains('\\')) by {
            if rest.contains('\\') {
                let i = choose|i: int| 0 <= i < rest.len() && rest[i] == '\\';
                assert(s[i + 1] == '\\');
            }
        }
        assert(c != '\\') by {
            assert(s[0] == c);
        }
        lemma_escape_prepend(c, rest);
        lemma_unescape_escape(rest);
        let t = escape_quotes(s);
        if c == '\'' {
            assert(t.subrange(2, t.len() as int) =~= escape_quotes(rest));
            assert(seq!['\''] + rest =~= s);
        } else {
            assert(t.drop_first() =~= escape_quotes(rest));
            assert(seq![c] + rest =~= s);
        }
    }
}

proof fn lemma_hex_prepend(b: u8, bs: Seq<u8>)
    ensures
        hex_upper(seq![b] + bs) == seq![hex_digit(b as int / 16), hex_digit(b as int % 16)]
            + hex_upper(bs),
    decreases bs.len(),
{
    if bs.len() == 0 {
        reveal_with_fuel(hex_upper, 2);
        assert(seq![b] + bs =~= seq![b]);
        assert(seq![b].drop_last() =~= Seq::<u8>::empty());
        assert(hex_upper(seq![b]) =~= seq![hex_digit(b as int / 16), hex_digit(b as int % 16)]);
        assert(seq![hex_digit(b as int / 16), hex_digit(b as int % 16)] + hex_upper(bs)
            =~= seq![hex_digit(b as int / 16), hex_digit(b as int % 16)]);
    } else {
        lemma_hex_prepend(b, bs.drop_last());
        assert((seq![b] + bs).drop_last() =~= seq![b] + bs.drop_last());
        assert(hex_upper(seq![b] + bs) =~= seq![hex_digit(b as int / 16), hex_digit(b as int % 16)]
            + hex_upper(bs));
    }
}

proof fn lemma_hex_digit_value(d: int)
    requires
        0 <= d < 16,
    ensures
        hex_value(hex_digit(d)) == Some(d),
{
}

proof fn lemma_parse_hex(bs: Seq<u8>)
    ensures
        parse_hex_digits(hex_upper(bs)) == Some(bs),
    decreases bs.len(),
{
    if bs.len() > 0 {
        let b = bs[0];
        let rest = bs.drop_first();
        assert(bs =~= seq![b] + rest);
        lemma_hex_prepend(b, rest);
        lemma_parse_hex(rest);
        lemma_hex_digit_value(b as int / 16);
        lemma_hex_digit_value(b as int % 16);
        let t = hex_upper(bs);
        assert(t.subrange(2, t.len() as int) =~= hex_upper(rest));
        assert(((b as int / 16) * 16 + b as int % 16) as u8 == b);
        assert(seq![b] + rest =~= bs);
    }
}

/// Reading back the literal text of a value gives the value: `NULL` for a
/// null cell, the bytes for a binary column, the text otherwise. Text that
/// holds a backslash is outside this: the codec escapes quotes only.
pub proof fn lemma_literal_round_trip(data_type: Seq<char>, v: Option<Seq<u8>>)
    requires
        v matches Some(b) ==> is_binary_type(data_type) || !decode_utf8(b).contains('\\'),
    ensures
        literal_text(data_type, v) matches Some(t) ==> parse_literal(t) == Some(
            literal_value(data_type, v),
        ),
{
    match v {
        None => {},
        Some(b) => {
            if is_binary_type(data_type) {
                let t = binary_literal(b);
                lemma_parse_hex(b);
                assert(t.subrange(2, t.len() - 1) =~= hex_upper(b));
                assert(t[0] != null_keyword()[0]);
            } else if valid_utf8(b) {
                let s = decode_utf8(b);
                let t = quoted(s);
                lemma_unescape_escape(s);
                assert(t.subrange(1, t.len() - 1) =~= escape_quotes(s));
                assert(t[0] != null_keyword()[0]);
            }
        },
    }
}

} // verus!
