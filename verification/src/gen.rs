use vstd::prelude::*;
use crate::text::chars_to_string;

verus! {

/// True of a lower-case hexadecimal digit.
pub open spec fn is_hex_lower(c: char) -> bool {
    ('0' <= c && c <= '9') || ('a' <= c && c <= 'f')
}

/// The hyphenated lower-case form of a UUID: 36 characters, hyphens at
/// positions 8, 13, 18 and 23, hexadecimal digits everywhere else.
pub open spec fn uuid_shaped(s: Seq<char>) -> bool {
    &&& s.len() == 36
    &&& forall|i: int|
        0 <= i < 36 ==> {
            if i == 8 || i == 13 || i == 18 || i == 23 {
                #[trigger] s[i] == '-'
            } else {
                is_hex_lower(s[i])
            }
        }
}

/// Relies on uuid::Uuid::new_v4 and the Display impl of uuid: a fresh
/// random UUID, rendered in the lower-case hyphenated form.
#[verifier::external_body]
pub fn gen_uuid() -> (r: String)
    ensures
        uuid_shaped(r@),
{
    uuid::Uuid::new_v4().to_string()
}

/// Relies on chrono::Utc::now and chrono's DateTime::timestamp: the
/// current Unix time in whole seconds. Nothing is promised of the value.
#[verifier::external_body]
pub fn unix_timestamp() -> (r: i64) {
    chrono::Utc::now().timestamp()
}

/// The decimal digit of a value below ten.
pub open spec fn dec_digit(d: int) -> char {
    if d == 0 { '0' } else if d == 1 { '1' } else if d == 2 { '2' } else if d == 3 { '3' }
    else if d == 4 { '4' } else if d == 5 { '5' } else if d == 6 { '6' } else if d == 7 { '7' }
    else if d == 8 { '8' } else if d == 9 { '9' } else { '0' }
}

/// The decimal text of a non-negative number, no leading zeroes.
pub open spec fn dec_nat_text(n: int) -> Seq<char>
    decreases n,
    when n >= 0
{
    if n < 10 {
        seq![dec_digit(n)]
    } else {
        dec_nat_text(n / 10).push(dec_digit(n % 10))
    }
}

/// The decimal text of a number: a minus sign when negative.
pub open spec fn dec_int_text(n: int) -> Seq<char> {
    if n < 0 {
        seq!['-'] + dec_nat_text(-n)
    } else {
        dec_nat_text(n)
    }
}

/// The decimal digit of a value below ten.
fn dec_digit_exec(d: u8) -> (r: char)
    ensures
        r == dec_digit(d as int),
{
    match d {
        0 => '0', 1 => '1', 2 => '2', 3 => '3', 4 => '4',
        5 => '5', 6 => '6', 7 => '7', 8 => '8', 9 => '9',
        _ => '0',
    }
}

/// Writes the decimal digits of a number.
fn push_dec_u64(n: u64, out: &mut Vec<char>)
    ensures
        final(out)@ == old(out)@ + dec_nat_text(n as int),
    decreases n,
{
    if n < 10 {
        out.push(dec_digit_exec(n as u8));
        proof {
            assert(out@ =~= old(out)@ + dec_nat_text(n as int));
        }
    } else {
        push_dec_u64(n / 10, out);
        out.push(dec_digit_exec((n % 10) as u8));
        proof {
            assert(out@ =~= old(out)@ + dec_nat_text(n as int));
        }
    }
}

/// The decimal text of a signed number.
pub fn i64_to_dec_string(n: i64) -> (r: String)
    ensures
        r@ == dec_int_text(n as int),
{
    let mut out: Vec<char> = Vec::new();
    if n >= 0 {
        push_dec_u64(n as u64, &mut out);
    } else {
        out.push('-');
        let mag: u64 = if n == i64::MIN {
            9223372036854775808u64
        } else {
            (-n) as u64
        };
        proof {
            assert(mag as int == -(n as int));
        }
        push_dec_u64(mag, &mut out);
        proof {
            assert(out@ =~= seq!['-'] + dec_nat_text(-(n as int)));
        }
    }
    chars_to_string(&out)
}

/// The decimal text of the current Unix time, freshly read.
pub fn gen_timestamp_text() -> (r: String)
    ensures
        exists|t: int| i64::MIN <= t <= i64::MAX && r@ == dec_int_text(t),
{
    let t = unix_timestamp();
    let r = i64_to_dec_string(t);
    proof {
        assert(i64::MIN <= t as int <= i64::MAX && r@ == dec_int_text(t as int));
    }
    r
}

} // verus!
