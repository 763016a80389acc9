//! Database values and their textual rendering.

use vstd::prelude::*;
use vstd::string::StringExecFns;

verus! {

/// A floating-point value as IEEE 754 bits, together with the text that
/// Rust's `Display` gives for it. The library decides finiteness from the
/// bits; it never formats a float itself.
pub struct FloatValue {
    pub bits: u64,
    pub display: String,
}

/// One value of a result row.
pub enum DbValue {
    Null,
    Text(String),
    TextArray(Vec<String>),
    Numeric(String),
    Integer(i64),
    Float(FloatValue),
    Boolean(bool),
}

/// Whether the IEEE 754 double with these bits is finite (its exponent
/// field is not all ones).
pub open spec fn float_bits_finite(bits: u64) -> bool {
    (bits >> 52u64) & 0x7ffu64 != 0x7ffu64
}

pub open spec fn digit_char(d: nat) -> char {
    if d == 0 {
        '0'
    } else if d == 1 {
        '1'
    } else if d == 2 {
        '2'
    } else if d == 3 {
        '3'
    } else if d == 4 {
        '4'
    } else if d == 5 {
        '5'
    } else if d == 6 {
        '6'
    } else if d == 7 {
        '7'
    } else if d == 8 {
        '8'
    } else {
        '9'
    }
}

/// Decimal digits of a natural number, most significant first, no leading zeros.
pub open spec fn decimal_digits(n: nat) -> Seq<char>
    decreases n,
{
    if n < 10 {
        seq![digit_char(n)]
    } else {
        decimal_digits(n / 10).push(digit_char(n % 10))
    }
}

/// The decimal rendering of an integer, with a leading `-` when negative.
pub open spec fn decimal(n: int) -> Seq<char> {
    if n < 0 {
        seq!['-'] + decimal_digits((-n) as nat)
    } else {
        decimal_digits(n as nat)
    }
}

/// The parts joined with `sep` between consecutive parts.
pub open spec fn join(parts: Seq<Seq<char>>, sep: Seq<char>) -> Seq<char>
    decreases parts.len(),
{
    if parts.len() == 0 {
        Seq::empty()
    } else if parts.len() == 1 {
        parts[0]
    } else {
        join(parts.drop_last(), sep) + sep + parts.last()
    }
}

pub open spec fn views(v: Seq<String>) -> Seq<Seq<char>> {
    v.map_values(|s: String| s@)
}

/// How a value is shown in the table.
pub open spec fn spec_format_db_value(v: DbValue) -> Seq<char> {
    match v {
        DbValue::Null => "null"@,
        DbValue::Text(s) => s@,
        DbValue::TextArray(vs) => seq!['{'] + join(views(vs@), ","@) + seq!['}'],
        DbValue::Numeric(s) => s@,
        DbValue::Integer(n) => decimal(n as int),
        DbValue::Float(f) => if float_bits_finite(f.bits) {
            f.display@
        } else {
            "null"@
        },
        DbValue::Boolean(b) => if b {
            "true"@
        } else {
            "false"@
        },
    }
}

fn digit(d: u64) -> (c: char)
    requires
        d < 10,
    ensures
        c == digit_char(d as nat),
{
    match d {
        0 => '0',
        1 => '1',
        2 => '2',
        3 => '3',
        4 => '4',
        5 => '5',
        6 => '6',
        7 => '7',
        8 => '8',
        _ => '9',
    }
}

fn push_digits(s: &mut String, m: u64)
    ensures
        final(s)@ == old(s)@ + decimal_digits(m as nat),
    decreases m,
{
    if m >= 10 {
        push_digits(s, m / 10);
    }
    crate::text::push_char(s, digit(m % 10));
}

/// The decimal rendering of `n` (what `i64::to_string` gives).
pub fn integer_text(n: i64) -> (r: String)
    ensures
        r@ == decimal(n as int),
{
    let mut s = String::new();
    if n < 0 {
        crate::text::push_char(&mut s, '-');
        let m: u64 = (-(n as i128)) as u64;
        push_digits(&mut s, m);
    } else {
        push_digits(&mut s, n as u64);
    }
    s
}

/// The strings joined with `sep` between consecutive strings.
pub fn join_strings(parts: &Vec<String>, sep: &str) -> (r: String)
    ensures
        r@ == join(views(parts@), sep@),
{
    let mut s = String::new();
    let mut i: usize = 0;
    while i < parts.len()
        invariant
            i <= parts.len(),
            s@ == join(views(parts@.take(i as int)), sep@),
        decreases parts.len() - i,
    {
        assert(views(parts@.take(i + 1)).drop_last() =~= views(parts@.take(i as int)));
        if i > 0 {
            s.append(sep);
        } else {
            assert(views(parts@.take(0)) =~= Seq::<Seq<char>>::empty());
        }
        s.append(parts[i].as_str());
        i += 1;
    }
    assert(parts@.take(parts.len() as int) =~= parts@);
    s
}

/// Whether the float with these bits is finite.
pub fn float_is_finite(bits: u64) -> (r: bool)
    ensures
        r == float_bits_finite(bits),
        r == ((bits >> 52u64) & 0x7ffu64 != 0x7ffu64),
{
    (bits >> 52u64) & 0x7ffu64 != 0x7ffu64
}

/// The text shown for a value: `null` for SQL NULL and for a float that is
/// not finite, the text itself for text and numeric values, `{a,b}` for an
/// array, the decimal digits of an integer, `true` or `false`.
pub fn format_db_value(value: &DbValue) -> (r: String)
    ensures
        r@ == spec_format_db_value(*value),
        value matches DbValue::Float(f) ==> r@ == if (f.bits >> 52u64) & 0x7ffu64 != 0x7ffu64 {
            f.display@
        } else {
            "null"@
        },
{
    match value {
        DbValue::Null => String::from_str("null"),
        DbValue::Text(s) => s.clone(),
        DbValue::TextArray(values) => {
            let mut s = String::from_str("{");
            let joined = join_strings(values, ",");
            s.append(joined.as_str());
            crate::text::push_char(&mut s, '}');
            proof {
                reveal_strlit("{");
            }
            s
        },
        DbValue::Numeric(s) => s.clone(),
        DbValue::Integer(n) => integer_text(*n),
        DbValue::Float(f) => {
            if float_is_finite(f.bits) {
                f.display.clone()
            } else {
                String::from_str("null")
            }
        },
        DbValue::Boolean(b) => {
            if *b {
                String::from_str("true")
            } else {
                String::from_str("false")
            }
        },
    }
}

} // verus!
