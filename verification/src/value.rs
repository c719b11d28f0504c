//! Dynamically typed column values.

use vstd::prelude::*;
use crate::db_error::{DbError, DbResult};
use crate::text::{
    chars_of, decimal, push_decimal, push_signed_decimal, push_str, signed_decimal, string_from_chars,
};

verus! {

/// A column value. `Real` holds the IEEE-754 bit pattern of a 64-bit float,
/// which is what identifies a real value; arithmetic on it happens elsewhere.
#[derive(Debug, Clone, PartialEq)]
pub enum Value {
    Null,
    Integer(i64),
    Real(u64),
    Text(String),
    Blob(Vec<u8>),
    Boolean(bool),
}

/// The mathematical content of a `Value`.
pub enum ValueView {
    Null,
    Integer(i64),
    Real(u64),
    Text(Seq<char>),
    Blob(Seq<u8>),
    Boolean(bool),
}

impl View for Value {
    type V = ValueView;

    open spec fn view(&self) -> ValueView {
        match self {
            Value::Null => ValueView::Null,
            Value::Integer(i) => ValueView::Integer(*i),
            Value::Real(b) => ValueView::Real(*b),
            Value::Text(s) => ValueView::Text(s@),
            Value::Blob(b) => ValueView::Blob(b@),
            Value::Boolean(b) => ValueView::Boolean(*b),
        }
    }
}

/// A character of text as written between double quotes: a quote, a
/// backslash, a newline, a carriage return, a tab and a NUL get a backslash
/// escape; any other character stands as it is.
pub open spec fn quoted_char(c: char) -> Seq<char> {
    if c == '"' {
        seq!['\\', '"']
    } else if c == '\\' {
        seq!['\\', '\\']
    } else if c == '\n' {
        seq!['\\', 'n']
    } else if c == '\r' {
        seq!['\\', 'r']
    } else if c == '\t' {
        seq!['\\', 't']
    } else if c == '\0' {
        seq!['\\', '0']
    } else {
        seq![c]
    }
}

/// Text with each character written as `quoted_char` writes it.
pub open spec fn quoted_text(s: Seq<char>) -> Seq<char>
    decreases s.len(),
{
    if s.len() == 0 {
        Seq::empty()
    } else {
        quoted_text(s.drop_last()) + quoted_char(s.last())
    }
}

/// Bytes as decimal numbers separated by `, `.
pub open spec fn byte_list(b: Seq<u8>) -> Seq<char>
    decreases b.len(),
{
    if b.len() == 0 {
        Seq::empty()
    } else if b.len() == 1 {
        decimal(b[0] as nat)
    } else {
        byte_list(b.drop_last()) + ", "@ + decimal(b.last() as nat)
    }
}

/// How a value is written in a type-mismatch error: the variant's name,
/// then its content in brackets: a signed decimal integer, the decimal bit
/// pattern of a real, quoted text, the list of bytes, or `true`/`false`.
pub open spec fn value_text(v: ValueView) -> Seq<char> {
    match v {
        ValueView::Null => "Null"@,
        ValueView::Integer(i) => "Integer("@ + signed_decimal(i as int) + ")"@,
        ValueView::Real(b) => "Real("@ + decimal(b as nat) + ")"@,
        ValueView::Text(t) => "Text(\""@ + quoted_text(t) + "\")"@,
        ValueView::Blob(b) => "Blob(["@ + byte_list(b) + "])"@,
        ValueView::Boolean(b) => if b {
            "Boolean(true)"@
        } else {
            "Boolean(false)"@
        },
    }
}

fn push_quoted_char(out: &mut Vec<char>, c: char)
    ensures
        final(out)@ == old(out)@ + quoted_char(c),
{
    if c == '"' {
        out.push('\\');
        out.push('"');
    } else if c == '\\' {
        out.push('\\');
        out.push('\\');
    } else if c == '\n' {
        out.push('\\');
        out.push('n');
    } else if c == '\r' {
        out.push('\\');
        out.push('r');
    } else if c == '\t' {
        out.push('\\');
        out.push('t');
    } else if c == '\0' {
        out.push('\\');
        out.push('0');
    } else {
        out.push(c);
    }
    assert(final(out)@ =~= old(out)@ + quoted_char(c));
}

fn push_quoted_text(out: &mut Vec<char>, t: &str)
    ensures
        final(out)@ == old(out)@ + quoted_text(t@),
{
    let cs = chars_of(t);
    let ghost start = out@;
    let mut i: usize = 0;
    while i < cs.len()
        invariant
            cs@ == t@,
            i <= cs@.len(),
            out@ == start + quoted_text(cs@.take(i as int)),
        decreases cs.len() - i,
    {
        assert(cs@.take(i as int + 1).drop_last() =~= cs@.take(i as int));
        push_quoted_char(out, cs[i]);
        i = i + 1;
        assert(out@ =~= start + quoted_text(cs@.take(i as int)));
    }
    assert(cs@.take(cs@.len() as int) =~= cs@);
}

fn push_byte_list(out: &mut Vec<char>, b: &Vec<u8>)
    ensures
        final(out)@ == old(out)@ + byte_list(b@),
{
    let ghost start = out@;
    let mut i: usize = 0;
    while i < b.len()
        invariant
            i <= b@.len(),
            out@ == start + byte_list(b@.take(i as int)),
        decreases b.len() - i,
    {
        assert(b@.take(i as int + 1).drop_last() =~= b@.take(i as int));
        if i > 0 {
            push_str(out, ", ");
        }
        push_decimal(out, b[i] as u64);
        i = i + 1;
        assert(out@ =~= start + byte_list(b@.take(i as int)));
    }
    assert(b@.take(b@.len() as int) =~= b@);
}

/// The text of a value in a type-mismatch error (see `value_text`).
pub fn value_description(v: &Value) -> (s: String)
    ensures
        s@ == value_text(v@),
{
    let mut out: Vec<char> = Vec::new();
    match v {
        Value::Null => push_str(&mut out, "Null"),
        Value::Integer(i) => {
            push_str(&mut out, "Integer(");
            push_signed_decimal(&mut out, *i);
            push_str(&mut out, ")");
        },
        Value::Real(b) => {
            push_str(&mut out, "Real(");
            push_decimal(&mut out, *b);
            push_str(&mut out, ")");
        },
        Value::Text(t) => {
            push_str(&mut out, "Text(\"");
            push_quoted_text(&mut out, t.as_str());
            push_str(&mut out, "\")");
        },
        Value::Blob(b) => {
            push_str(&mut out, "Blob([");
            push_byte_list(&mut out, b);
            push_str(&mut out, "])");
        },
        Value::Boolean(b) => {
            if *b {
                push_str(&mut out, "Boolean(true)");
            } else {
                push_str(&mut out, "Boolean(false)");
            }
        },
    }
    assert(out@ =~= value_text(v@));
    string_from_chars(out.as_slice())
}

/// The error for reading `v` as a value of the kind `expected`.
pub open spec fn is_mismatch(e: DbError, expected: Seq<char>, v: ValueView) -> bool {
    &&& e matches DbError::TypeMismatch { expected: x, actual: a }
    &&& x@ == expected
    &&& a@ == value_text(v)
}

fn mismatch(expected: &str, v: &Value) -> (e: DbError)
    ensures
        is_mismatch(e, expected@, v@),
{
    DbError::TypeMismatch { expected: String::from_str(expected), actual: value_description(v) }
}

impl Value {
    /// A copy of the value.
    pub fn duplicate(&self) -> (r: Value)
        ensures
            r@ == self@,
    {
        match self {
            Value::Null => Value::Null,
            Value::Integer(i) => Value::Integer(*i),
            Value::Real(b) => Value::Real(*b),
            Value::Text(s) => Value::Text(s.clone()),
            Value::Blob(b) => {
                let c = b.clone();
                assert(c@ =~= b@);
                Value::Blob(c)
            },
            Value::Boolean(b) => Value::Boolean(*b),
        }
    }

    pub fn as_i64(&self) -> (r: DbResult<i64>)
        ensures
            self@ matches ValueView::Integer(i) ==> r == Ok::<i64, DbError>(i),
            !(self@ is Integer) ==> (r matches Err(e) && is_mismatch(e, "Integer"@, self@)),
    {
        match self {
            Value::Integer(i) => Ok(*i),
            _ => Err(mismatch("Integer", self)),
        }
    }

    pub fn as_str(&self) -> (r: DbResult<&str>)
        ensures
            self@ matches ValueView::Text(s) ==> (r matches Ok(t) && t@ == s),
            !(self@ is Text) ==> (r matches Err(e) && is_mismatch(e, "Text"@, self@)),
    {
        match self {
            Value::Text(s) => Ok(s.as_str()),
            _ => Err(mismatch("Text", self)),
        }
    }

    pub fn as_bytes(&self) -> (r: DbResult<&[u8]>)
        ensures
            self@ matches ValueView::Blob(b) ==> (r matches Ok(t) && t@ == b),
            !(self@ is Blob) ==> (r matches Err(e) && is_mismatch(e, "Blob"@, self@)),
    {
        match self {
            Value::Blob(b) => Ok(b.as_slice()),
            _ => Err(mismatch("Blob", self)),
        }
    }

    /// Booleans, and integers read as "non-zero".
    pub fn as_bool(&self) -> (r: DbResult<bool>)
        ensures
            self@ matches ValueView::Boolean(b) ==> r == Ok::<bool, DbError>(b),
            self@ matches ValueView::Integer(i) ==> r == Ok::<bool, DbError>(i != 0),
            !(self@ is Boolean || self@ is Integer) ==> (r matches Err(e) && is_mismatch(e, "Boolean"@, self@)),
    {
        match self {
            Value::Boolean(b) => Ok(*b),
            Value::Integer(i) => Ok(*i != 0),
            _ => Err(mismatch("Boolean", self)),
        }
    }

    pub fn is_null(&self) -> (r: bool)
        ensures
            r == (self@ is Null),
    {
        match self {
            Value::Null => true,
            _ => false,
        }
    }
}

/// A value as SQLite stores it: booleans become the integers 1 and 0.
#[derive(Debug, Clone, PartialEq)]
pub enum StoredValue {
    Null,
    Integer(i64),
    Real(u64),
    Text(String),
    Blob(Vec<u8>),
}

impl Value {
    /// The value as SQLite stores it: every kind as itself, except that
    /// `true` is stored as 1 and `false` as 0.
    pub fn to_stored(&self) -> (r: StoredValue)
        ensures
            match self@ {
                ValueView::Null => r is Null,
                ValueView::Integer(i) => r == StoredValue::Integer(i),
                ValueView::Real(b) => r == StoredValue::Real(b),
                ValueView::Text(t) => r matches StoredValue::Text(s) && s@ == t,
                ValueView::Blob(d) => r matches StoredValue::Blob(e) && e@ == d,
                ValueView::Boolean(b) => r == StoredValue::Integer(if b { 1 } else { 0 }),
            },
    {
        match self {
            Value::Null => StoredValue::Null,
            Value::Integer(i) => StoredValue::Integer(*i),
            Value::Real(b) => StoredValue::Real(*b),
            Value::Text(s) => StoredValue::Text(s.clone()),
            Value::Blob(b) => {
                let c = b.clone();
                assert(c@ =~= b@);
                StoredValue::Blob(c)
            },
            Value::Boolean(b) => StoredValue::Integer(if *b { 1 } else { 0 }),
        }
    }
}

impl From<i64> for Value {
    fn from(v: i64) -> (r: Value) {
        Value::Integer(v)
    }
}

impl vstd::std_specs::convert::FromSpecImpl<i64> for Value {
    open spec fn obeys_from_spec() -> bool {
        true
    }

    open spec fn from_spec(v: i64) -> Value {
        Value::Integer(v)
    }
}

impl From<i32> for Value {
    fn from(v: i32) -> (r: Value) {
        Value::Integer(v as i64)
    }
}

impl vstd::std_specs::convert::FromSpecImpl<i32> for Value {
    open spec fn obeys_from_spec() -> bool {
        true
    }

    open spec fn from_spec(v: i32) -> Value {
        Value::Integer(v as i64)
    }
}

impl From<bool> for Value {
    fn from(v: bool) -> (r: Value) {
        Value::Boolean(v)
    }
}

impl vstd::std_specs::convert::FromSpecImpl<bool> for Value {
    open spec fn obeys_from_spec() -> bool {
        true
    }

    open spec fn from_spec(v: bool) -> Value {
        Value::Boolean(v)
    }
}

impl From<String> for Value {
    fn from(v: String) -> (r: Value) {
        Value::Text(v)
    }
}

impl vstd::std_specs::convert::FromSpecImpl<String> for Value {
    open spec fn obeys_from_spec() -> bool {
        true
    }

    open spec fn from_spec(v: String) -> Value {
        Value::Text(v)
    }
}

impl From<Vec<u8>> for Value {
    fn from(v: Vec<u8>) -> (r: Value) {
        Value::Blob(v)
    }
}

impl vstd::std_specs::convert::FromSpecImpl<Vec<u8>> for Value {
    open spec fn obeys_from_spec() -> bool {
        true
    }

    open spec fn from_spec(v: Vec<u8>) -> Value {
        Value::Blob(v)
    }
}

impl<'a> From<&'a str> for Value {
    /// A text value holding a copy of `v`.
    fn from(v: &'a str) -> (r: Value)
        ensures
            r@ == ValueView::Text(v@),
    {
        Value::Text(v.to_owned())
    }
}

/// The text value is known only by its view (`Value::from` above states it):
/// two strings with one view are not known to be the same value, so no
/// `from_spec` is promised.
impl<'a> vstd::std_specs::convert::FromSpecImpl<&'a str> for Value {
    open spec fn obeys_from_spec() -> bool {
        false
    }

    open spec fn from_spec(v: &'a str) -> Value {
        choose|r: Value| r@ == ValueView::Text(v@)
    }
}

/// The lower-case hexadecimal digit of `d` (`0 <= d < 16`).
pub open spec fn hex_digit(d: nat) -> char {
    if d < 10 {
        ((48 + d) as u8) as char
    } else {
        ((87 + d) as u8) as char
    }
}

/// Two lower-case hexadecimal digits per byte, in order.
pub open spec fn hex_text(data: Seq<u8>) -> Seq<char>
    decreases data.len(),
{
    if data.len() == 0 {
        Seq::empty()
    } else {
        hex_text(data.drop_last()) + seq![
            hex_digit((data.last() / 16) as nat),
            hex_digit((data.last() % 16) as nat),
        ]
    }
}

fn hex_char(d: u8) -> (c: char)
    requires
        d < 16,
    ensures
        c == hex_digit(d as nat),
{
    if d < 10 {
        let b: u8 = 48 + d;
        b as char
    } else {
        let b: u8 = 87 + d;
        b as char
    }
}

/// Renders binary data as text: two lower-case hexadecimal digits per byte.
pub fn base64_encode(data: &[u8]) -> (s: String)
    ensures
        s@ == hex_text(data@),
{
    let mut out: Vec<char> = Vec::new();
    let mut i: usize = 0;
    while i < data.len()
        invariant
            0 <= i <= data@.len(),
            out@ == hex_text(data@.take(i as int)),
        decreases data.len() - i,
    {
        let b = data[i];
        out.push(hex_char(b / 16));
        out.push(hex_char(b % 16));
        proof {
            assert(data@.take(i + 1).drop_last() =~= data@.take(i as int));
        }
        i = i + 1;
        assert(out@ =~= hex_text(data@.take(i as int)));
    }
    assert(data@.take(data@.len() as int) =~= data@);
    string_from_chars(out.as_slice())
}

} // verus!
