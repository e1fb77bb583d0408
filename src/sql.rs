//! Encoding of values at the boundary with the relational store.
//!
//! The store keeps identifiers as signed 64-bit integers and role-sets as
//! array literals such as `'{1,2,3}'`.
use vstd::prelude::*;

verus! {

/// The decimal digits, indexed by their value.
pub open spec fn digits() -> Seq<char> {
    seq!['0', '1', '2', '3', '4', '5', '6', '7', '8', '9']
}

/// Decimal form of a natural number, without leading zeros.
pub open spec fn decimal(n: nat) -> Seq<char>
    decreases n,
{
    if n < 10 {
        seq![digits()[n as int]]
    } else {
        decimal(n / 10).push(digits()[(n % 10) as int])
    }
}

/// Decimal form of an integer, with a leading `-` when it is negative.
pub open spec fn int_text(i: int) -> Seq<char> {
    if i < 0 {
        seq!['-'] + decimal((-i) as nat)
    } else {
        decimal(i as nat)
    }
}

/// The integers of `ids`, in order, separated by commas.
pub open spec fn joined(ids: Seq<i64>) -> Seq<char>
    decreases ids.len(),
{
    if ids.len() == 0 {
        Seq::empty()
    } else if ids.len() == 1 {
        int_text(ids[0] as int)
    } else {
        joined(ids.drop_last()) + seq![','] + int_text(ids.last() as int)
    }
}

/// The store's array literal for `ids`: `'{` then the integers separated by
/// commas, then `}'`.
pub open spec fn pg_array_text(ids: Seq<i64>) -> Seq<char> {
    seq!['\'', '{'] + joined(ids) + seq!['}', '\'']
}

/// The store's literal for an optional text: the text between single quotes,
/// or `NULL`.
pub open spec fn option_text(option: Option<Seq<char>>) -> Seq<char> {
    match option {
        Some(v) => seq!['\''] + v + seq!['\''],
        None => seq!['N', 'U', 'L', 'L'],
    }
}

/// The text of one decimal digit.
fn digit_text(d: u64) -> (r: &'static str)
    requires
        d < 10,
    ensures
        r@ == seq![digits()[d as int]],
{
    proof {
        reveal_strlit("0");
        reveal_strlit("1");
        reveal_strlit("2");
        reveal_strlit("3");
        reveal_strlit("4");
        reveal_strlit("5");
        reveal_strlit("6");
        reveal_strlit("7");
        reveal_strlit("8");
        reveal_strlit("9");
    }
    match d {
        0 => "0",
        1 => "1",
        2 => "2",
        3 => "3",
        4 => "4",
        5 => "5",
        6 => "6",
        7 => "7",
        8 => "8",
        _ => "9",
    }
}

/// Appends the decimal form of `n`.
fn push_decimal(text: &mut String, n: u64)
    ensures
        final(text)@ == old(text)@ + decimal(n as nat),
    decreases n,
{
    if n >= 10 {
        push_decimal(text, n / 10);
    }
    text.append(digit_text(n % 10));
    assert(final(text)@ =~= old(text)@ + decimal(n as nat));
}

/// Appends the decimal form of `v`, with a leading `-` when it is negative.
fn push_int(text: &mut String, v: i64)
    ensures
        final(text)@ == old(text)@ + int_text(v as int),
{
    if v < 0 {
        proof {
            reveal_strlit("-");
        }
        text.append("-");
        let magnitude: u64 = if v == i64::MIN {
            9223372036854775808u64
        } else {
            (-v) as u64
        };
        push_decimal(text, magnitude);
        assert(final(text)@ =~= old(text)@ + int_text(v as int));
    } else {
        push_decimal(text, v as u64);
    }
}

/// Converts an identifier to the store's signed representation.
pub fn to_i64(id: u64) -> (r: i64)
    requires
        id <= i64::MAX,
    ensures
        r as int == id as int,
{
    id as i64
}

/// Converts an identifier back from the store's signed representation.
pub fn from_i64(value: i64) -> (r: u64)
    requires
        value >= 0,
    ensures
        r as int == value as int,
{
    value as u64
}

/// The store's array literal holding `ids`, in order.
pub fn as_pg_array(ids: &[i64]) -> (r: String)
    ensures
        r@ == pg_array_text(ids@),
{
    let mut array = String::new();
    proof {
        reveal_strlit("'{");
    }
    array.append("'{");
    let mut i: usize = 0;
    while i < ids.len()
        invariant
            i <= ids@.len(),
            array@ == seq!['\'', '{'] + joined(ids@.take(i as int)),
        decreases ids@.len() - i,
    {
        let ghost before = array@;
        if i > 0 {
            array.append(",");
        }
        push_int(&mut array, ids[i]);
        proof {
            let next = ids@.take(i + 1);
            assert(next.drop_last() =~= ids@.take(i as int));
            assert(next.last() == ids@[i as int]);
            if i == 0 {
                assert(next[0] == ids@[0]);
                assert(joined(ids@.take(0)) =~= Seq::<char>::empty());
                assert(array@ =~= seq!['\'', '{'] + joined(next));
            } else {
                assert(joined(next) == joined(ids@.take(i as int)) + seq![','] + int_text(
                    ids@[i as int] as int,
                ));
                reveal_strlit(",");
                assert(array@ =~= before + seq![','] + int_text(ids@[i as int] as int));
                assert(array@ =~= seq!['\'', '{'] + joined(next));
            }
        }
        i = i + 1;
    }
    proof {
        reveal_strlit("}'");
    }
    array.append("}'");
    assert(ids@.take(ids@.len() as int) =~= ids@);
    array
}

/// The store's literal for an optional text: `'text'`, or `NULL` when absent.
pub fn stringify_option(option: Option<&str>) -> (r: String)
    ensures
        r@ == option_text(
            match option {
                Some(v) => Some(v@),
                None => None,
            },
        ),
{
    proof {
        reveal_strlit("'");
        reveal_strlit("NULL");
    }
    match option {
        Some(value) => {
            let mut text = String::new();
            text.append("'");
            text.append(value);
            text.append("'");
            text
        },
        None => String::from_str("NULL"),
    }
}

} // verus!
