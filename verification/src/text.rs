//! Numbers and names as text.
use vstd::prelude::*;

#[allow(unused_imports)]
use vstd::arithmetic::{div_mod, power};

verus! {

/// The digit that stands for `d` in bases up to sixteen.
pub open spec fn digit_char(d: nat) -> char {
    seq!['0', '1', '2', '3', '4', '5', '6', '7', '8', '9', 'a', 'b', 'c', 'd', 'e', 'f'][d as int]
}

/// `n` in positional notation, without leading zeros.
pub open spec fn digits(n: nat, base: nat) -> Seq<char>
    decreases n,
{
    if base < 2 || n < base {
        seq![digit_char(n)]
    } else {
        proof {
            assert(n / base < n) by (nonlinear_arith)
                requires
                    base >= 2,
                    n >= base,
            ;
        }
        digits(n / base, base).push(digit_char(n % base))
    }
}

/// `values` in positional notation, with `sep` between them.
pub open spec fn joined(values: Seq<nat>, base: nat, sep: Seq<char>) -> Seq<char>
    decreases values.len(),
{
    if values.len() == 0 {
        seq![]
    } else if values.len() == 1 {
        digits(values[0], base)
    } else {
        joined(values.drop_last(), base, sep) + sep + digits(values.last(), base)
    }
}

/// The digit that stands for `d`, as text.
fn digit_str(d: u64) -> (text: &'static str)
    requires
        d < 16,
    ensures
        text@ == seq![digit_char(d as nat)],
{
    proof {
        reveal_strlit("0");
        reveal_strlit("1");
        reveal_strlit("2");
        reveal_strlit("3");
        reveal_strlit("4");
        reveal_strlit("5");
        reveal_strlit("6");
        reveal_strlit("7");
        reveal_strlit("8");
        reveal_strlit("9");
        reveal_strlit("a");
        reveal_strlit("b");
        reveal_strlit("c");
        reveal_strlit("d");
        reveal_strlit("e");
        reveal_strlit("f");
    }
    let text = match d {
        0 => "0",
        1 => "1",
        2 => "2",
        3 => "3",
        4 => "4",
        5 => "5",
        6 => "6",
        7 => "7",
        8 => "8",
        9 => "9",
        10 => "a",
        11 => "b",
        12 => "c",
        13 => "d",
        14 => "e",
        _ => "f",
    };
    assert(text@ =~= seq![digit_char(d as nat)]);
    text
}

/// Append `n` in positional notation.
pub fn push_number(text: &mut String, n: u64, base: u64)
    requires
        2 <= base <= 16,
    ensures
        final(text)@ == old(text)@ + digits(n as nat, base as nat),
    decreases n,
{
    if n >= base {
        assert(n / base < n) by (nonlinear_arith)
            requires
                base >= 2,
                n >= base,
        ;
        push_number(text, n / base, base);
    }
    assert(n % base < 16) by (nonlinear_arith)
        requires
            2 <= base <= 16,
    ;
    text.append(digit_str(n % base));
    proof {
        if n < base {
            assert(n % base == n) by (nonlinear_arith)
                requires
                    0 <= n < base,
            ;
        }
        assert(text@ =~= old(text)@ + digits(n as nat, base as nat));
    }
}

/// Append numbers in positional notation, with `sep` between them.
pub fn push_joined(text: &mut String, values: &Vec<u16>, base: u64, sep: &str)
    requires
        2 <= base <= 16,
    ensures
        final(text)@ == old(text)@ + joined(
            values@.map_values(|v: u16| v as nat),
            base as nat,
            sep@,
        ),
{
    let ghost all = values@.map_values(|v: u16| v as nat);
    let mut i: usize = 0;
    assert(all.take(0) =~= Seq::<nat>::empty());
    assert(text@ =~= old(text)@ + joined(all.take(0), base as nat, sep@));
    while i < values.len()
        invariant
            2 <= base <= 16,
            0 <= i <= values@.len(),
            all == values@.map_values(|v: u16| v as nat),
            text@ == old(text)@ + joined(all.take(i as int), base as nat, sep@),
        decreases values@.len() - i,
    {
        let ghost before = text@;
        if i > 0 {
            text.append(sep);
        }
        push_number(text, values[i] as u64, base);
        proof {
            let next = all.take(i + 1);
            assert(next.last() == values@[i as int] as nat);
            assert(next.drop_last() =~= all.take(i as int));
            assert(text@ =~= old(text)@ + joined(next, base as nat, sep@));
        }
        i = i + 1;
    }
    assert(all.take(i as int) =~= all);
}

// ---------------------------------------------------------------- reading back
/// The value of a digit in bases up to sixteen.
pub open spec fn digit_value(c: char) -> nat {
    if '0' <= c <= '9' {
        (c as nat - '0' as nat) as nat
    } else {
        (c as nat - 'a' as nat + 10) as nat
    }
}

/// The numbers that `text` shows in positional notation, with `sep` between
/// them.
pub open spec fn numbers(text: Seq<char>, base: nat, sep: char) -> Seq<nat>
    decreases text.len(),
{
    if text.len() == 0 {
        seq![0]
    } else {
        let earlier = numbers(text.drop_last(), base, sep);
        if text.last() == sep {
            earlier.push(0)
        } else {
            earlier.drop_last().push(earlier.last() * base + digit_value(text.last()))
        }
    }
}

/// Whether `c` can stand between numbers: it is no digit in any base.
pub open spec fn separates(c: char) -> bool {
    forall|d: nat| d < 16 ==> #[trigger] digit_char(d) != c
}

proof fn lemma_digit_value(d: nat)
    requires
        d < 16,
    ensures
        digit_value(digit_char(d)) == d,
{
}

/// Appending a number to what ends with a separator, or to nothing, completes
/// the last number.
proof fn lemma_numbers_append(text: Seq<char>, n: nat, base: nat, sep: char)
    requires
        2 <= base <= 16,
        separates(sep),
        numbers(text, base, sep).len() >= 1,
        numbers(text, base, sep).last() == 0,
    ensures
        numbers(text + digits(n, base), base, sep) == numbers(text, base, sep).drop_last().push(n),
    decreases n,
{
    let head = numbers(text, base, sep).drop_last();
    let longer = text + digits(n, base);
    if n < base {
        lemma_digit_value(n);
        assert(longer.drop_last() =~= text);
        assert(longer.last() == digit_char(n));
        assert(0 * base == 0) by (nonlinear_arith);
    } else {
        let q = n / base;
        let r = n % base;
        assert(q < n) by (nonlinear_arith)
            requires
                base >= 2,
                n >= base,
                q == n / base,
        ;
        assert(r < base) by (nonlinear_arith)
            requires
                base >= 2,
                r == n % base,
        ;
        assert(q * base + r == n) by (nonlinear_arith)
            requires
                base >= 2,
                q == n / base,
                r == n % base,
        ;
        lemma_numbers_append(text, q, base, sep);
        lemma_digit_value(r);
        assert(longer.drop_last() =~= text + digits(q, base));
        assert(longer.last() == digit_char(r));
        assert(head.push(q).drop_last() =~= head);
    }
}

/// Numbers that were written with a separator between them are read back.
pub proof fn law_joined_numbers_are_read_back(values: Seq<nat>, base: nat, sep: char)
    requires
        2 <= base <= 16,
        separates(sep),
        values.len() >= 1,
    ensures
        numbers(joined(values, base, seq![sep]), base, sep) == values,
    decreases values.len(),
{
    if values.len() == 1 {
        let nothing = Seq::<char>::empty();
        lemma_numbers_append(nothing, values[0], base, sep);
        assert(nothing + digits(values[0], base) =~= digits(values[0], base));
        assert(numbers(nothing, base, sep).drop_last().push(values[0]) =~= values);
    } else {
        let shorter = values.drop_last();
        let text = joined(shorter, base, seq![sep]);
        let open = text + seq![sep];
        law_joined_numbers_are_read_back(shorter, base, sep);
        assert(open.drop_last() =~= text);
        assert(numbers(open, base, sep) == shorter.push(0));
        lemma_numbers_append(open, values.last(), base, sep);
        assert(shorter.push(0).drop_last().push(values.last()) =~= values);
    }
}

/// A number is written canonically: in digits of its base, at least one, and
/// without a leading zero unless it is zero.
pub proof fn law_numbers_are_canonical(n: nat, base: nat)
    requires
        2 <= base <= 16,
    ensures
        digits(n, base).len() >= 1,
        digits(n, base)[0] == '0' <==> n == 0,
        n == 0 ==> digits(n, base).len() == 1,
        forall|i: int|
            0 <= i < digits(n, base).len() ==> exists|d: nat|
                d < base && #[trigger] digits(n, base)[i] == digit_char(d),
    decreases n,
{
    if n < base {
        assert(digits(n, base) =~= seq![digit_char(n)]);
    } else {
        let q = n / base;
        let r = n % base;
        assert(1 <= q < n) by (nonlinear_arith)
            requires
                base >= 2,
                n >= base,
                q == n / base,
        ;
        assert(r < base) by (nonlinear_arith)
            requires
                base >= 2,
                r == n % base,
        ;
        law_numbers_are_canonical(q, base);
        let written = digits(n, base);
        assert(written =~= digits(q, base).push(digit_char(r)));
        assert(written[0] == digits(q, base)[0]);
        assert forall|i: int| 0 <= i < written.len() implies exists|d: nat|
            d < base && #[trigger] written[i] == digit_char(d) by {
            if i < digits(q, base).len() {
                assert(written[i] == digits(q, base)[i]);
            } else {
                assert(written[i] == digit_char(r));
            }
        }
    }
}

/// Joined numbers start and end with a digit, and never have two separators in
/// a row.
pub proof fn law_separators_stand_alone(values: Seq<nat>, base: nat, sep: char)
    requires
        2 <= base <= 16,
        separates(sep),
        values.len() >= 1,
    ensures
        ({
            let text = joined(values, base, seq![sep]);
            &&& text.len() >= 1
            &&& text.first() != sep
            &&& text.last() != sep
            &&& forall|i: int| 0 <= i < text.len() - 1 && text[i] == sep ==> #[trigger] text[i + 1]
                != sep
        }),
    decreases values.len(),
{
    let last = digits(values.last(), base);
    law_numbers_are_canonical(values.last(), base);
    assert forall|i: int| 0 <= i < last.len() implies last[i] != sep by {
        let d = choose|d: nat| d < base && last[i] == digit_char(d);
        assert(digit_char(d) != sep);
    }
    if values.len() > 1 {
        let shorter = values.drop_last();
        let text = joined(shorter, base, seq![sep]);
        law_separators_stand_alone(shorter, base, sep);
        let whole = joined(values, base, seq![sep]);
        assert(whole =~= text + seq![sep] + last);
        assert forall|i: int| 0 <= i < whole.len() - 1 && whole[i] == sep implies #[trigger] whole[i
            + 1] != sep by {
            if i < text.len() - 1 {
                assert(whole[i] == text[i] && whole[i + 1] == text[i + 1]);
            } else if i == text.len() - 1 {
                assert(whole[i] == text.last());
            } else {
                assert(whole[i + 1] == last[i - text.len()]);
            }
        }
    }
}

/// The digits are those of ASCII: the ten decimal ones, then the lower-case
/// letters.
pub proof fn law_digit_characters(d: nat)
    requires
        d < 16,
    ensures
        digit_char(d) as int == if d < 10 {
            48 + d
        } else {
            87 + d
        },
{
}

/// A number is written positionally: the digit with `i` digits after it is the
/// one that stands for the quotient by the `i`-th power of the base, modulo the
/// base; and there are as many digits as the number needs.
pub proof fn law_digits_are_positional(n: nat, base: nat, i: nat)
    requires
        2 <= base <= 16,
        i < digits(n, base).len(),
    ensures
        digits(n, base)[digits(n, base).len() - 1 - i] == digit_char(
            ((n as int / power::pow(base as int, i)) % (base as int)) as nat,
        ),
        n < power::pow(base as int, digits(n, base).len()),
        digits(n, base).len() > 1 ==> power::pow(base as int, (digits(n, base).len() - 1) as nat) <= n,
    decreases n,
{
    let b = base as int;
    reveal(power::pow);
    if n < base {
        assert(digits(n, base) =~= seq![digit_char(n)]);
        power::lemma_pow0(b);
        power::lemma_pow1(b);
        assert(n as int / 1 == n);
        assert(n as int % b == n) by (nonlinear_arith)
            requires
                0 <= n < b,
        ;
    } else {
        let q = n / base;
        let r = n % base;
        assert(1 <= q < n) by (nonlinear_arith)
            requires
                base >= 2,
                n >= base,
                q == n / base,
        ;
        assert(n == q * base + r && r < base) by (nonlinear_arith)
            requires
                base >= 2,
                q == n / base,
                r == n % base,
        ;
        let k = digits(q, base).len();
        law_numbers_are_canonical(q, base);
        assert(digits(n, base) =~= digits(q, base).push(digit_char(r)));
        if i == 0 {
            law_digits_are_positional(q, base, 0);
            power::lemma_pow0(b);
            assert(n as int / 1 == n);
        } else {
            let j = (i - 1) as nat;
            law_digits_are_positional(q, base, j);
            power::lemma_pow_positive(b, j);
            div_mod::lemma_div_denominator(n as int, b, power::pow(b, j));
            assert(power::pow(b, i) == b * power::pow(b, j));
        }
        let below = power::pow(b, k);
        assert(power::pow(b, k + 1) == b * below);
        assert(n < b * below) by (nonlinear_arith)
            requires
                n == q * base + r,
                r < base,
                q + 1 <= below,
                b == base,
                base >= 2,
        ;
        if k > 1 {
            let least = power::pow(b, (k - 1) as nat);
            assert(power::pow(b, k) == b * least);
            assert(b * least <= n) by (nonlinear_arith)
                requires
                    n == q * base + r,
                    least <= q,
                    b == base,
                    base >= 2,
            ;
        } else {
            power::lemma_pow1(b);
        }
    }
}

/// Numbers are joined one after the other: a run of them is shown as its first
/// part, the separator and its second part, and a single one as its digits.
pub proof fn law_joined_in_order(
    first: Seq<nat>,
    second: Seq<nat>,
    value: nat,
    base: nat,
    sep: Seq<char>,
)
    requires
        first.len() >= 1,
        second.len() >= 1,
    ensures
        joined(first + second, base, sep) == joined(first, base, sep) + sep + joined(
            second,
            base,
            sep,
        ),
        joined(seq![value], base, sep) == digits(value, base),
    decreases second.len(),
{
    let all = first + second;
    if second.len() == 1 {
        assert(all.drop_last() =~= first);
    } else {
        let shorter = second.drop_last();
        law_joined_in_order(first, shorter, value, base, sep);
        assert(all.drop_last() =~= first + shorter);
        assert(all.last() == second.last());
    }
    assert(joined(all, base, sep) =~= joined(first, base, sep) + sep + joined(second, base, sep));
}


// ---------------------------------------------------------------- decoding
/// What `String::from_utf8_lossy` makes of a byte string.
pub uninterp spec fn lossy_text(bytes: Seq<u8>) -> Seq<char>;

/// The character that stands in for bytes that are no text.
pub open spec fn replacement() -> char {
    '\u{FFFD}'
}

/// Calls `String::from_utf8_lossy`, which decodes UTF-8 and puts U+FFFD in
/// place of what cannot be decoded. Claimed of it: the result depends on the
/// bytes alone, is the decoded text where the bytes are valid UTF-8, and holds
/// U+FFFD where they are not. How many U+FFFD replace an invalid run, and
/// where, is left unsaid.
#[verifier::external_body]
pub(crate) fn utf8_lossy(bytes: &[u8]) -> (text: String)
    ensures
        text@ == lossy_text(bytes@),
        vstd::utf8::valid_utf8(bytes@) ==> text@ == vstd::utf8::decode_utf8(bytes@),
        !vstd::utf8::valid_utf8(bytes@) ==> text@.contains(replacement()),
{
    String::from_utf8_lossy(bytes).into_owned()
}

} // verus!
