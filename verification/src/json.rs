use vstd::prelude::*;

verus! {

/// A JSON document, as the store reads and writes it.
///
/// A number is held as its literal text (`42`, `-1.5e3`): the store never
/// computes with it, and the text survives a round trip unchanged.
#[derive(Debug, PartialEq)]
pub enum Json {
    Null,
    Bool(bool),
    Num(String),
    Str(String),
    Arr(Vec<Json>),
    Obj(Vec<(String, Json)>),
}

impl Json {
    /// A scalar is what a variable may hold: a string, number or boolean.
    pub open spec fn is_scalar(&self) -> bool {
        match self {
            Json::Bool(_) => true,
            Json::Num(_) => true,
            Json::Str(_) => true,
            _ => false,
        }
    }

    /// Checks whether this value is a scalar.
    pub fn scalar(&self) -> (r: bool)
        ensures
            r == self.is_scalar(),
    {
        match self {
            Json::Bool(_) => true,
            Json::Num(_) => true,
            Json::Str(_) => true,
            _ => false,
        }
    }
}

/// The lower-case hexadecimal digit of a value below sixteen.
pub open spec fn hex_char_spec(d: int) -> char {
    if d == 0 { '0' } else if d == 1 { '1' } else if d == 2 { '2' } else if d == 3 { '3' }
    else if d == 4 { '4' } else if d == 5 { '5' } else if d == 6 { '6' } else if d == 7 { '7' }
    else if d == 8 { '8' } else if d == 9 { '9' } else if d == 10 { 'a' } else if d == 11 { 'b' }
    else if d == 12 { 'c' } else if d == 13 { 'd' } else if d == 14 { 'e' } else if d == 15 { 'f' }
    else { '0' }
}

/// How one character is written inside a JSON string token.
pub open spec fn escaped_char(c: char) -> Seq<char> {
    if c == '"' { seq!['\\', '"'] }
    else if c == '\\' { seq!['\\', '\\'] }
    else if c == '\n' { seq!['\\', 'n'] }
    else if c == '\r' { seq!['\\', 'r'] }
    else if c == '\t' { seq!['\\', 't'] }
    else if (c as u32) < 32 {
        seq!['\\', 'u', '0', '0', hex_char_spec((c as u32) as int / 16), hex_char_spec((c as u32) as int % 16)]
    } else { seq![c] }
}

/// The escaped form of the first `i` characters of `s`.
pub open spec fn escaped_prefix(s: Seq<char>, i: int) -> Seq<char>
    decreases i,
{
    if i <= 0 || i > s.len() {
        Seq::empty()
    } else {
        escaped_prefix(s, i - 1) + escaped_char(s[i - 1])
    }
}

/// A JSON string token: the escaped characters between two quotes.
pub open spec fn string_token(s: Seq<char>) -> Seq<char> {
    seq!['"'] + escaped_prefix(s, s.len() as int) + seq!['"']
}

/// The compact text of a JSON value: no spaces, fields in held order.
pub open spec fn json_text(j: Json) -> Seq<char>
    decreases j, 2int, 0int,
{
    match j {
        Json::Null => seq!['n', 'u', 'l', 'l'],
        Json::Bool(b) => if b { seq!['t', 'r', 'u', 'e'] } else { seq!['f', 'a', 'l', 's', 'e'] },
        Json::Num(t) => t@,
        Json::Str(s) => string_token(s@),
        Json::Arr(items) => seq!['['] + arr_items_text(items, items.len() as int) + seq![']'],
        Json::Obj(fields) => seq!['{'] + obj_fields_text(fields, fields.len() as int) + seq!['}'],
    }
}

/// The comma-separated text of the first `i` elements of an array.
pub open spec fn arr_items_text(items: Vec<Json>, i: int) -> Seq<char>
    decreases items, 1int, i,
{
    if i <= 0 || i > items.len() {
        Seq::empty()
    } else if i == 1 {
        json_text(items[0])
    } else {
        arr_items_text(items, i - 1) + seq![','] + json_text(items[i - 1])
    }
}

/// The comma-separated text of the first `i` members of an object.
pub open spec fn obj_fields_text(fields: Vec<(String, Json)>, i: int) -> Seq<char>
    decreases fields, 1int, i,
{
    if i <= 0 || i > fields.len() {
        Seq::empty()
    } else if i == 1 {
        string_token(fields[0].0@) + seq![':'] + json_text(fields[0].1)
    } else {
        obj_fields_text(fields, i - 1) + seq![','] + string_token(fields[i - 1].0@) + seq![':']
            + json_text(fields[i - 1].1)
    }
}

/// The lower-case hexadecimal digit of a value below sixteen.
pub fn hex_char(d: u8) -> (r: char)
    ensures
        r == hex_char_spec(d as int),
{
    match d {
        0 => '0', 1 => '1', 2 => '2', 3 => '3',
        4 => '4', 5 => '5', 6 => '6', 7 => '7',
        8 => '8', 9 => '9', 10 => 'a', 11 => 'b',
        12 => 'c', 13 => 'd', 14 => 'e', 15 => 'f',
        _ => '0',
    }
}

/// Writes one character of a JSON string token, escaped as needed.
pub fn emit_escaped_char(c: char, out: &mut Vec<char>)
    ensures
        final(out)@ == old(out)@ + escaped_char(c),
{
    if c == '"' {
        out.push('\\');
        out.push('"');
    } else if c == '\\' {
        out.push('\\');
        out.push('\\');
    } else if c == '\n' {
        out.push('\\');
        out.push('n');
    } else if c == '\r' {
        out.push('\\');
        out.push('r');
    } else if c == '\t' {
        out.push('\\');
        out.push('t');
    } else {
        let code = c as u32;
        if code < 32 {
            out.push('\\');
            out.push('u');
            out.push('0');
            out.push('0');
            out.push(hex_char((code / 16) as u8));
            out.push(hex_char((code % 16) as u8));
        } else {
            out.push(c);
        }
    }
    proof {
        assert(out@ =~= old(out)@ + escaped_char(c));
    }
}

/// Writes a whole JSON string token, quotes included.
pub fn emit_string_token(s: &str, out: &mut Vec<char>)
    ensures
        final(out)@ == old(out)@ + string_token(s@),
{
    out.push('"');
    let n = s.unicode_len();
    let mut i: usize = 0;
    while i < n
        invariant
            n == s@.len(),
            0 <= i <= n,
            out@ == old(out)@ + seq!['"'] + escaped_prefix(s@, i as int),
        decreases n - i,
    {
        emit_escaped_char(s.get_char(i), out);
        i = i + 1;
    }
    out.push('"');
    proof {
        assert(out@ =~= old(out)@ + string_token(s@));
    }
}

/// Writes the compact text of a JSON value.
#[verifier::loop_isolation(false)]
#[verifier::rlimit(100)]
pub fn emit_json(j: &Json, out: &mut Vec<char>)
    ensures
        final(out)@ == old(out)@ + json_text(*j),
    decreases *j, 2int, 0int,
{
    match j {
        Json::Null => {
            out.push('n');
            out.push('u');
            out.push('l');
            out.push('l');
            proof {
                assert(out@ =~= old(out)@ + json_text(*j));
            }
        },
        Json::Bool(b) => {
            if *b {
                out.push('t');
                out.push('r');
                out.push('u');
                out.push('e');
            } else {
                out.push('f');
                out.push('a');
                out.push('l');
                out.push('s');
                out.push('e');
            }
            proof {
                assert(out@ =~= old(out)@ + json_text(*j));
            }
        },
        Json::Num(t) => {
            let mut k: usize = 0;
            let n = t.as_str().unicode_len();
            while k < n
                invariant
                    n == t@.len(),
                    0 <= k <= n,
                    out@ == old(out)@ + t@.subrange(0, k as int),
                decreases n - k,
            {
                out.push(t.as_str().get_char(k));
                proof {
                    assert(out@ =~= old(out)@ + t@.subrange(0, k + 1 as int));
                }
                k = k + 1;
            }
            proof {
                assert(out@ =~= old(out)@ + json_text(*j));
            }
        },
        Json::Str(s) => {
            emit_string_token(s.as_str(), out);
        },
        Json::Arr(items) => {
            out.push('[');
            let mut k: usize = 0;
            while k < items.len()
                invariant
                    0 <= k <= items.len(),
                    out@ == old(out)@ + seq!['['] + arr_items_text(*items, k as int),
                decreases items.len() - k,
            {
                if k > 0 {
                    out.push(',');
                }
                emit_json(&items[k], out);
                k = k + 1;
            }
            out.push(']');
            proof {
                assert(out@ =~= old(out)@ + json_text(*j));
            }
        },
        Json::Obj(fields) => {
            out.push('{');
            let mut k: usize = 0;
            while k < fields.len()
                invariant
                    0 <= k <= fields.len(),
                    out@ == old(out)@ + seq!['{'] + obj_fields_text(*fields, k as int),
                decreases fields.len() - k,
            {
                if k > 0 {
                    out.push(',');
                }
                emit_string_token(fields[k].0.as_str(), out);
                out.push(':');
                emit_json(&fields[k].1, out);
                k = k + 1;
            }
            out.push('}');
            proof {
                assert(out@ =~= old(out)@ + json_text(*j));
            }
        },
    }
}

/// The compact text of a JSON value, as a string.
pub fn json_to_string(j: &Json) -> (r: String)
    ensures
        r@ == json_text(*j),
{
    let mut out: Vec<char> = Vec::new();
    emit_json(j, &mut out);
    crate::text::chars_to_string(&out)
}

} // verus!
