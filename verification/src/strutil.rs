//! Small verified helpers over strings and decimal digits, shared by the
//! credential, file-path and cursor-token modules.

use vstd::prelude::*;

verus! {

use vstd::string::StringExecFns;

/// String-slice equality through vstd's `String` equality spec.
pub fn str_eq(a: &str, b: &str) -> (r: bool)
    ensures
        r == (a@ == b@),
{
    let sa = String::from_str(a);
    sa.eq(&String::from_str(b))
}

/// Relies on std's `String::push`: appends the given character to the end of
/// the string (vstd specifies `append` for `&str` but not `push`).
#[verifier::external_body]
pub fn string_push(s: &mut String, c: char)
    ensures
        final(s)@ == old(s)@.push(c),
{
    s.push(c);
}

pub open spec fn spec_digit_char(d: nat) -> char {
    if d == 0 {
        '0'
    } else if d == 1 {
        '1'
    } else if d == 2 {
        '2'
    } else if d == 3 {
        '3'
    } else if d == 4 {
        '4'
    } else if d == 5 {
        '5'
    } else if d == 6 {
        '6'
    } else if d == 7 {
        '7'
    } else if d == 8 {
        '8'
    } else {
        '9'
    }
}

pub fn digit_char(d: u8) -> (c: char)
    requires
        d < 10,
    ensures
        c == spec_digit_char(d as nat),
{
    match d {
        0 => '0',
        1 => '1',
        2 => '2',
        3 => '3',
        4 => '4',
        5 => '5',
        6 => '6',
        7 => '7',
        8 => '8',
        _ => '9',
    }
}

/// The decimal rendering of a natural number, most significant digit first.
pub open spec fn spec_dec_u64(n: nat) -> Seq<char>
    decreases n,
{
    if n < 10 {
        seq![spec_digit_char(n)]
    } else {
        spec_dec_u64(n / 10).push(spec_digit_char(n % 10))
    }
}

/// Appends the decimal rendering of `n` to `s`.
pub fn push_dec_u64(s: &mut String, n: u64)
    ensures
        final(s)@ == old(s)@ + spec_dec_u64(n as nat),
    decreases n,
{
    if n >= 10 {
        push_dec_u64(s, n / 10);
    }
    string_push(s, digit_char((n % 10) as u8));
    assert(final(s)@ =~= old(s)@ + spec_dec_u64(n as nat));
}

/// The decimal rendering of a signed number: a minus sign when negative,
/// then the digits of its magnitude.
pub open spec fn spec_dec_i64(n: int) -> Seq<char> {
    if n < 0 {
        seq!['-'] + spec_dec_u64((-n) as nat)
    } else {
        spec_dec_u64(n as nat)
    }
}

/// Appends the decimal rendering of the signed `n` to `s`.
pub fn push_dec_i64(s: &mut String, n: i64)
    ensures
        final(s)@ == old(s)@ + spec_dec_i64(n as int),
{
    if n < 0 {
        string_push(s, '-');
        // i64::MIN has no negation inside i64; spell its magnitude out.
        let m: u64 = if n == i64::MIN {
            9223372036854775808u64
        } else {
            (-n) as u64
        };
        assert(m == (-(n as int)) as nat);
        push_dec_u64(s, m);
    } else {
        push_dec_u64(s, n as u64);
    }
    assert(final(s)@ =~= old(s)@ + spec_dec_i64(n as int));
}


/// Decimal renderings hold digits only — in particular never a sign or an
/// underscore.
pub proof fn lemma_dec_u64_digits(n: nat)
    ensures
        spec_dec_u64(n).len() >= 1,
        forall|i: int|
            0 <= i < spec_dec_u64(n).len() ==> '0' <= #[trigger] spec_dec_u64(n)[i] <= '9',
    decreases n,
{
    if n >= 10 {
        lemma_dec_u64_digits(n / 10);
        assert forall|i: int|
            0 <= i < spec_dec_u64(n).len() implies '0' <= #[trigger] spec_dec_u64(n)[i] <= '9' by {
            if i < spec_dec_u64(n).len() - 1 {
                assert(spec_dec_u64(n)[i] == spec_dec_u64(n / 10)[i]);
            }
        }
    }
}

/// Rendering a number and reading the digits back gives the number.
pub proof fn lemma_dec_u64_value(n: nat)
    ensures
        crate::mediafile::spec_digits_val(spec_dec_u64(n)) == n,
    decreases n,
{
    let s = spec_dec_u64(n);
    assert(crate::mediafile::spec_digits_val(Seq::<char>::empty()) == 0);
    if n < 10 {
        assert(s.drop_last() =~= Seq::<char>::empty());
        assert(s.last() == spec_digit_char(n));
        assert(crate::mediafile::spec_digit_val(spec_digit_char(n)) == n);
        assert(crate::mediafile::spec_digits_val(s) == crate::mediafile::spec_digits_val(
            s.drop_last(),
        ) * 10 + crate::mediafile::spec_digit_val(s.last()));
    } else {
        lemma_dec_u64_value(n / 10);
        assert(s.drop_last() =~= spec_dec_u64(n / 10));
        assert(s.last() == spec_digit_char(n % 10));
        assert(crate::mediafile::spec_digit_val(spec_digit_char(n % 10)) == n % 10);
        assert(crate::mediafile::spec_digits_val(s) == crate::mediafile::spec_digits_val(
            s.drop_last(),
        ) * 10 + crate::mediafile::spec_digit_val(s.last()));
    }
}

} // verus!
