//! The text of a measurement: `<label>=<decimal nanoseconds>ns`.
use vstd::prelude::*;

verus! {

/// The character of a decimal digit `d` (`0 <= d < 10`).
pub open spec fn digit_char(d: nat) -> char {
    if d == 0 {
        '0'
    } else if d == 1 {
        '1'
    } else if d == 2 {
        '2'
    } else if d == 3 {
        '3'
    } else if d == 4 {
        '4'
    } else if d == 5 {
        '5'
    } else if d == 6 {
        '6'
    } else if d == 7 {
        '7'
    } else if d == 8 {
        '8'
    } else {
        '9'
    }
}

/// The decimal numeral of `n`: no sign, no leading zeros, `"0"` for zero.
pub open spec fn decimal(n: nat) -> Seq<char>
    decreases n,
{
    if n < 10 {
        seq![digit_char(n)]
    } else {
        decimal(n / 10).push(digit_char(n % 10))
    }
}

/// Ten to the power `k`.
pub open spec fn pow10(k: nat) -> nat
    decreases k,
{
    if k == 0 {
        1
    } else {
        10 * pow10((k - 1) as nat)
    }
}

/// A number below `10^k` has at most `k` digits.
pub proof fn lemma_decimal_len(n: nat, k: nat)
    requires
        1 <= k,
        n < pow10(k),
    ensures
        1 <= decimal(n).len() <= k,
    decreases k,
{
    if n >= 10 {
        let p = pow10((k - 1) as nat);
        assert(k != 1) by {
            reveal_with_fuel(pow10, 2);
        }
        assert(n / 10 < p) by (nonlinear_arith)
            requires
                n < 10 * p,
        ;
        lemma_decimal_len(n / 10, (k - 1) as nat);
    }
}

/// A `u128` has at most 39 digits.
pub proof fn lemma_u128_decimal_len(n: u128)
    ensures
        1 <= decimal(n as nat).len() <= 39,
{
    reveal_with_fuel(pow10, 40);
    assert(pow10(39) == 1000000000000000000000000000000000000000nat);
    lemma_decimal_len(n as nat, 39);
}

/// The line emitted for a scope named `label` that lasted `nanos` nanoseconds.
pub open spec fn line_of(label: Seq<char>, nanos: nat) -> Seq<char> {
    label + seq!['='] + decimal(nanos) + seq!['n', 's']
}

/// Whether `c` is one of the ten decimal digits.
pub open spec fn is_digit(c: char) -> bool {
    '0' <= c <= '9'
}

/// The value of the decimal digit `c`.
pub open spec fn digit_value(c: char) -> int {
    (c as u32) - ('0' as u32)
}

/// The number that the digits `s` denote, most significant first.
pub open spec fn value_of(s: Seq<char>) -> int
    decreases s.len(),
{
    if s.len() == 0 {
        0
    } else {
        10 * value_of(s.drop_last()) + digit_value(s.last())
    }
}

/// The character of a digit is a digit of that value.
pub proof fn lemma_digit_char(d: nat)
    requires
        d < 10,
    ensures
        is_digit(digit_char(d)),
        digit_value(digit_char(d)) == d,
{
}

/// A numeral is made of digits only, at least one, and denotes `n`: it
/// carries no sign, and reading it back gives the number written.
pub proof fn lemma_decimal_digits(n: nat)
    ensures
        decimal(n).len() >= 1,
        forall|i: int| 0 <= i < decimal(n).len() ==> is_digit(#[trigger] decimal(n)[i]),
        value_of(decimal(n)) == n,
    decreases n,
{
    lemma_digit_char(n % 10);
    if n >= 10 {
        lemma_decimal_digits(n / 10);
        assert(decimal(n).drop_last() =~= decimal(n / 10));
        assert(decimal(n).last() == digit_char(n % 10));
        assert(value_of(decimal(n)) == 10 * (n / 10) + n % 10);
    } else {
        assert(decimal(n).drop_last() =~= Seq::<char>::empty());
        assert(value_of(decimal(n)) == 10 * value_of(Seq::<char>::empty()) + n);
    }
}

/// The line for `label` and `nanos` is the label as given, then `=`, then
/// a numeral of at least one digit that denotes `nanos`, then `ns`; where
/// the label holds no line break, neither does the line.
pub proof fn lemma_line_shape(label: Seq<char>, nanos: nat)
    ensures
        line_of(label, nanos).len() == label.len() + decimal(nanos).len() + 3,
        line_of(label, nanos).subrange(0, label.len() as int) == label,
        line_of(label, nanos)[label.len() as int] == '=',
        line_of(label, nanos).subrange(label.len() as int + 1, label.len() + 1 + decimal(nanos).len() as int)
            == decimal(nanos),
        line_of(label, nanos).subrange(
            line_of(label, nanos).len() as int - 2,
            line_of(label, nanos).len() as int,
        ) == seq!['n', 's'],
        decimal(nanos).len() >= 1,
        forall|i: int| 0 <= i < decimal(nanos).len() ==> is_digit(#[trigger] decimal(nanos)[i]),
        value_of(decimal(nanos)) == nanos,
        !label.contains('\n') ==> !line_of(label, nanos).contains('\n'),
{
    lemma_decimal_digits(nanos);
    let l = line_of(label, nanos);
    let d = decimal(nanos);
    assert(l.subrange(0, label.len() as int) =~= label);
    assert(l.subrange(label.len() as int + 1, label.len() + 1 + d.len() as int) =~= d);
    assert(l.subrange(l.len() as int - 2, l.len() as int) =~= seq!['n', 's']);
    if !label.contains('\n') && l.contains('\n') {
        let i = choose|i: int| 0 <= i < l.len() && l[i] == '\n';
        if i < label.len() {
            assert(label[i] == '\n');
        } else if label.len() < i < label.len() + 1 + d.len() {
            assert(is_digit(d[i - label.len() - 1]));
        }
    }
}

/// Two lines with the same label differ in their numbers alone: they share
/// the label, the `=` and the `ns`, and they are equal exactly when the
/// numbers are.
pub proof fn lemma_same_label(label: Seq<char>, a: nat, b: nat)
    ensures
        line_of(label, a).subrange(0, label.len() as int + 1) == label.push('='),
        line_of(label, b).subrange(0, label.len() as int + 1) == label.push('='),
        line_of(label, a) == line_of(label, b) <==> a == b,
{
    lemma_line_shape(label, a);
    lemma_line_shape(label, b);
    assert(line_of(label, a).subrange(0, label.len() as int + 1) =~= label.push('='));
    assert(line_of(label, b).subrange(0, label.len() as int + 1) =~= label.push('='));
    if line_of(label, a) == line_of(label, b) {
        assert(decimal(a) =~= line_of(label, a).subrange(
            label.len() as int + 1,
            label.len() + 1 + decimal(a).len() as int,
        ));
        assert(decimal(b) =~= line_of(label, b).subrange(
            label.len() as int + 1,
            label.len() + 1 + decimal(b).len() as int,
        ));
        assert(decimal(a).len() == decimal(b).len());
    }
}

/// Whether a line for `label` is sure to fit in a `String`, which holds at
/// most `isize::MAX` bytes, at most four for each character: the label, `=`,
/// at most 39 digits and `ns`.
pub open spec fn label_fits(label: Seq<char>) -> bool {
    label.len() + 64 <= usize::MAX / 8
}

/// Relies on `String::new`: an empty string, made without allocating, so
/// the call cannot unwind (which vstd's own contract for it leaves unsaid).
#[verifier::external_body]
fn empty_string() -> (r: String)
    ensures
        r@ == Seq::<char>::empty(),
    no_unwind
{
    String::new()
}

/// Relies on `String::push_str`: appends `t` to `s`. It panics only where the
/// result would pass `isize::MAX` bytes, which the bound leaves out; a failed
/// allocation aborts rather than unwinds.
#[verifier::external_body]
fn push_str(s: &mut String, t: &str)
    requires
        8 * (old(s)@.len() + t@.len()) <= usize::MAX,
    ensures
        final(s)@ == old(s)@ + t@,
    no_unwind
{
    s.push_str(t)
}

/// Appends the digit `d` to `s`.
fn push_digit(s: &mut String, d: u8)
    requires
        d < 10,
        8 * (old(s)@.len() + 1) <= usize::MAX,
    ensures
        final(s)@ == old(s)@.push(digit_char(d as nat)),
    no_unwind
{
    let t: &str = if d == 0 {
        "0"
    } else if d == 1 {
        "1"
    } else if d == 2 {
        "2"
    } else if d == 3 {
        "3"
    } else if d == 4 {
        "4"
    } else if d == 5 {
        "5"
    } else if d == 6 {
        "6"
    } else if d == 7 {
        "7"
    } else if d == 8 {
        "8"
    } else {
        "9"
    };
    proof {
        reveal_strlit("0");
        reveal_strlit("1");
        reveal_strlit("2");
        reveal_strlit("3");
        reveal_strlit("4");
        reveal_strlit("5");
        reveal_strlit("6");
        reveal_strlit("7");
        reveal_strlit("8");
        reveal_strlit("9");
    }
    assert(t@ =~= seq![digit_char(d as nat)]);
    push_str(s, t);
}

/// Appends the decimal numeral of `n` to `s`.
fn push_decimal(s: &mut String, n: u128)
    requires
        8 * (old(s)@.len() + decimal(n as nat).len()) <= usize::MAX,
    ensures
        final(s)@ == old(s)@ + decimal(n as nat),
    decreases n,
    no_unwind
{
    if n >= 10 {
        push_decimal(s, n / 10);
    }
    push_digit(s, (n % 10) as u8);
    assert(s@ =~= old(s)@ + decimal(n as nat));
}

/// The line that reports a scope named `label` which lasted `nanos`
/// nanoseconds: the label as given, `=`, the decimal count, then `ns`.
pub fn measurement_line(label: &str, nanos: u128) -> (r: String)
    requires
        label_fits(label@),
    ensures
        r@ == line_of(label@, nanos as nat),
    no_unwind
{
    proof {
        reveal_strlit("=");
        reveal_strlit("ns");
        lemma_u128_decimal_len(nanos);
    }
    let mut r = empty_string();
    push_str(&mut r, label);
    push_str(&mut r, "=");
    push_decimal(&mut r, nanos);
    push_str(&mut r, "ns");
    assert(r@ =~= line_of(label@, nanos as nat));
    r
}

} // verus!
