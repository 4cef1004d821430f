//! Character-level building blocks of the wire format: decimal numerals
//! for colors and layers, boolean literals, comma-joined lists, and the
//! JSON string literal for a text field.

use vstd::prelude::*;
use vstd::string::StringExecFns;

verus! {

/// The decimal digit character for `d` (meaningful for `d < 10`).
pub open spec fn dec_digit(d: nat) -> char {
    if d == 0 {
        '0'
    } else if d == 1 {
        '1'
    } else if d == 2 {
        '2'
    } else if d == 3 {
        '3'
    } else if d == 4 {
        '4'
    } else if d == 5 {
        '5'
    } else if d == 6 {
        '6'
    } else if d == 7 {
        '7'
    } else if d == 8 {
        '8'
    } else {
        '9'
    }
}

/// The decimal numeral of `n`: no sign, no leading zeros, a single `'0'`
/// for zero.
pub open spec fn dec_nat(n: nat) -> Seq<char>
    decreases n,
{
    if n < 10 {
        seq![dec_digit(n)]
    } else {
        dec_nat(n / 10) + seq![dec_digit(n % 10)]
    }
}

/// The decimal numeral of `n`, with a leading `'-'` when `n` is negative.
pub open spec fn dec_int(n: int) -> Seq<char> {
    if n < 0 {
        seq!['-'] + dec_nat((-n) as nat)
    } else {
        dec_nat(n as nat)
    }
}

/// A decimal numeral is never empty, and has at least two characters for
/// a value of ten or more.
pub proof fn lemma_dec_nat_len(n: nat)
    ensures
        dec_nat(n).len() >= 1,
        n >= 10 ==> dec_nat(n).len() >= 2,
    decreases n,
{
    if n >= 10 {
        lemma_dec_nat_len(n / 10);
    }
}

/// Every character of a decimal numeral is a digit.
pub proof fn lemma_dec_nat_digits(n: nat)
    ensures
        forall|i: int|
            0 <= i < dec_nat(n).len() ==> '0' <= #[trigger] dec_nat(n)[i] && dec_nat(n)[i] <= '9',
    decreases n,
{
    if n < 10 {
    } else {
        lemma_dec_nat_digits(n / 10);
        assert forall|i: int|
            0 <= i < dec_nat(n).len() implies '0' <= #[trigger] dec_nat(n)[i] && dec_nat(n)[i]
            <= '9' by {
            if i < dec_nat(n / 10).len() {
                assert(dec_nat(n)[i] == dec_nat(n / 10)[i]);
            } else {
                assert(dec_nat(n)[i] == dec_digit(n % 10));
            }
        }
    }
}

/// Distinct values have distinct decimal numerals.
pub proof fn lemma_dec_nat_injective(a: nat, b: nat)
    requires
        dec_nat(a) == dec_nat(b),
    ensures
        a == b,
    decreases a,
{
    lemma_dec_nat_len(a);
    lemma_dec_nat_len(b);
    if a < 10 && b < 10 {
        assert(dec_nat(a)[0] == dec_digit(a));
        assert(dec_nat(b)[0] == dec_digit(b));
    } else if a < 10 {
        assert(dec_nat(a).len() == 1);
        assert(false);
    } else if b < 10 {
        assert(dec_nat(b).len() == 1);
        assert(false);
    } else {
        assert(dec_nat(a).last() == dec_digit(a % 10));
        assert(dec_nat(b).last() == dec_digit(b % 10));
        assert(a % 10 == b % 10);
        assert(dec_nat(a).drop_last() =~= dec_nat(a / 10));
        assert(dec_nat(b).drop_last() =~= dec_nat(b / 10));
        lemma_dec_nat_injective(a / 10, b / 10);
        vstd::arithmetic::div_mod::lemma_fundamental_div_mod(a as int, 10);
        vstd::arithmetic::div_mod::lemma_fundamental_div_mod(b as int, 10);
    }
}

/// Every character of a signed decimal numeral is a digit or the sign.
pub proof fn lemma_dec_int_chars(n: int)
    ensures
        forall|i: int|
            0 <= i < dec_int(n).len() ==> ('0' <= #[trigger] dec_int(n)[i] && dec_int(n)[i] <= '9')
                || dec_int(n)[i] == '-',
{
    if n < 0 {
        lemma_dec_nat_digits((-n) as nat);
        assert forall|i: int|
            0 <= i < dec_int(n).len() implies ('0' <= #[trigger] dec_int(n)[i] && dec_int(n)[i]
            <= '9') || dec_int(n)[i] == '-' by {
            if i >= 1 {
                assert(dec_int(n)[i] == dec_nat((-n) as nat)[i - 1]);
            }
        }
    } else {
        lemma_dec_nat_digits(n as nat);
    }
}

/// Distinct values have distinct signed decimal numerals.
pub proof fn lemma_dec_int_injective(a: int, b: int)
    requires
        dec_int(a) == dec_int(b),
    ensures
        a == b,
{
    lemma_dec_nat_len(if a < 0 {
        (-a) as nat
    } else {
        a as nat
    });
    lemma_dec_nat_len(if b < 0 {
        (-b) as nat
    } else {
        b as nat
    });
    if a >= 0 && b >= 0 {
        lemma_dec_nat_injective(a as nat, b as nat);
    } else if a < 0 && b < 0 {
        assert(dec_int(a).drop_first() =~= dec_nat((-a) as nat));
        assert(dec_int(b).drop_first() =~= dec_nat((-b) as nat));
        lemma_dec_nat_injective((-a) as nat, (-b) as nat);
    } else if a < 0 {
        lemma_dec_nat_digits(b as nat);
        assert(dec_int(a)[0] == '-');
        assert(dec_int(b)[0] == dec_nat(b as nat)[0]);
        assert(false);
    } else {
        lemma_dec_nat_digits(a as nat);
        assert(dec_int(b)[0] == '-');
        assert(dec_int(a)[0] == dec_nat(a as nat)[0]);
        assert(false);
    }
}

/// The JSON literal for a boolean.
pub open spec fn bool_text(b: bool) -> Seq<char> {
    if b {
        "true"@
    } else {
        "false"@
    }
}

/// The elements of `elems` concatenated, with a `','` between neighbours.
pub open spec fn join_comma(elems: Seq<Seq<char>>) -> Seq<char>
    decreases elems.len(),
{
    if elems.len() == 0 {
        Seq::empty()
    } else if elems.len() == 1 {
        elems[0]
    } else {
        elems[0] + ","@ + join_comma(elems.drop_first())
    }
}

/// Appending one element extends a comma-joined list by a comma (when the
/// list was not empty) and the element.
pub proof fn lemma_join_comma_push(elems: Seq<Seq<char>>, e: Seq<char>)
    ensures
        join_comma(elems.push(e)) == (if elems.len() == 0 {
            e
        } else {
            join_comma(elems) + ","@ + e
        }),
    decreases elems.len(),
{
    let p = elems.push(e);
    if elems.len() == 0 {
        assert(p =~= seq![e]);
        assert(seq![e][0] == e);
        assert(join_comma(p) == e);
    } else if elems.len() == 1 {
        assert(p[0] == elems[0]);
        assert(p.drop_first() =~= seq![e]);
        assert(seq![e][0] == e);
        assert(join_comma(p.drop_first()) == e);
        assert(join_comma(p) == elems[0] + ","@ + e);
    } else {
        lemma_join_comma_push(elems.drop_first(), e);
        assert(p.drop_first() =~= elems.drop_first().push(e));
        assert(p[0] == elems[0]);
        assert(join_comma(p) == elems[0] + ","@ + (join_comma(elems.drop_first()) + ","@ + e));
        assert(join_comma(p) =~= (elems[0] + ","@ + join_comma(elems.drop_first())) + ","@ + e);
    }
}

fn digit_str(d: u64) -> (r: &'static str)
    requires
        d < 10,
    ensures
        r@ == seq![dec_digit(d as nat)],
{
    proof {
        reveal_strlit("0");
        reveal_strlit("1");
        reveal_strlit("2");
        reveal_strlit("3");
        reveal_strlit("4");
        reveal_strlit("5");
        reveal_strlit("6");
        reveal_strlit("7");
        reveal_strlit("8");
        reveal_strlit("9");
    }
    if d == 0 {
        "0"
    } else if d == 1 {
        "1"
    } else if d == 2 {
        "2"
    } else if d == 3 {
        "3"
    } else if d == 4 {
        "4"
    } else if d == 5 {
        "5"
    } else if d == 6 {
        "6"
    } else if d == 7 {
        "7"
    } else if d == 8 {
        "8"
    } else {
        "9"
    }
}

/// Renders `n` as its decimal numeral.
pub fn dec_u64(n: u64) -> (r: String)
    ensures
        r@ == dec_nat(n as nat),
    decreases n,
{
    if n < 10 {
        let mut s = String::new();
        s.append(digit_str(n));
        proof {
            assert(s@ =~= dec_nat(n as nat));
        }
        s
    } else {
        let mut s = dec_u64(n / 10);
        s.append(digit_str(n % 10));
        proof {
            assert(s@ =~= dec_nat(n as nat));
        }
        s
    }
}

/// Renders `n` as its decimal numeral, with a `'-'` when negative.
pub fn dec_i32(n: i32) -> (r: String)
    ensures
        r@ == dec_int(n as int),
{
    if n >= 0 {
        let r = dec_u64(n as u64);
        proof {
            assert(r@ =~= dec_int(n as int));
        }
        r
    } else {
        let m: i64 = -(n as i64);
        let mut s = String::new();
        s.append("-");
        let digits = dec_u64(m as u64);
        s.append(digits.as_str());
        proof {
            reveal_strlit("-");
            assert("-"@ =~= seq!['-']);
            assert(s@ =~= dec_int(n as int));
        }
        s
    }
}

/// Renders a boolean as its JSON literal.
pub fn bool_str(b: bool) -> (r: &'static str)
    ensures
        r@ == bool_text(b),
{
    if b {
        "true"
    } else {
        "false"
    }
}

/// The JSON string literal that the serializer produces for `s`: quoted,
/// with quote, backslash and control characters escaped. It depends on the
/// characters of `s` alone.
pub uninterp spec fn json_str_of(s: Seq<char>) -> Seq<char>;

/// Relies on `serde_json::to_string` applied to a string slice: it returns
/// the JSON string literal for `s` (its escaping depends on the characters
/// of `s` alone) and never fails for a string slice, since the underlying
/// writer is an in-memory buffer and a string has no fallible structure.
#[verifier::external_body]
pub(crate) fn json_quote(s: &str) -> (r: String)
    ensures
        r@ == json_str_of(s@),
{
    serde_json::to_string(s).unwrap()
}

} // verus!
