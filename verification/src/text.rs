//! Numbers as text: decimal and hexadecimal notation, and reading an unsigned number back.

use vstd::prelude::*;
use vstd::string::*;

verus! {

/// The character that stands for the value `d` in lower-case hexadecimal (and in decimal, below
/// ten).
pub open spec fn digit(d: nat) -> char
    recommends
        d < 16,
{
    if d < 10 {
        (48 + d) as char
    } else {
        (87 + d) as char
    }
}

/// `n` written in base `base`, without leading zeros.
pub open spec fn numeral(n: nat, base: nat) -> Seq<char>
    decreases n,
{
    if base < 2 || n < base {
        seq![digit(n)]
    } else {
        proof {
            assert(n / base < n) by (nonlinear_arith)
                requires
                    n >= base,
                    base >= 2,
            ;
        }
        numeral(n / base, base).push(digit(n % base))
    }
}

/// `n` in decimal notation.
pub open spec fn decimal(n: nat) -> Seq<char> {
    numeral(n, 10)
}

/// `n` in decimal notation, behind a minus sign where it is negative.
pub open spec fn signed_decimal(n: int) -> Seq<char> {
    if n < 0 {
        seq!['-'] + decimal((-n) as nat)
    } else {
        decimal(n as nat)
    }
}

/// `n` in lower-case hexadecimal notation.
pub open spec fn hexadecimal(n: nat) -> Seq<char> {
    numeral(n, 16)
}

/// `s` with as many zeros in front as it takes to make it `width` characters long.
pub open spec fn zero_padded(s: Seq<char>, width: nat) -> Seq<char> {
    if s.len() < width {
        Seq::new((width - s.len()) as nat, |i: int| '0') + s
    } else {
        s
    }
}

pub open spec fn is_decimal_digit(c: char) -> bool {
    '0' <= c <= '9'
}

/// The number that a sequence of decimal digits stands for.
pub open spec fn digits_value(s: Seq<char>) -> nat
    decreases s.len(),
{
    if s.len() == 0 {
        0
    } else {
        digits_value(s.drop_last()) * 10 + (s.last() as nat - 48) as nat
    }
}

/// `s` without the plus sign in front, where it has one.
pub open spec fn without_plus(s: Seq<char>) -> Seq<char> {
    if s.len() > 0 && s[0] == '+' {
        s.skip(1)
    } else {
        s
    }
}

pub open spec fn all_decimal_digits(s: Seq<char>) -> bool {
    forall|i: int| 0 <= i < s.len() ==> is_decimal_digit(#[trigger] s[i])
}

/// What `s` means as an unsigned 32-bit number: one or more decimal digits, behind a plus sign
/// or not, whose value fits. Nothing else means a number.
pub open spec fn u32_meaning(s: Seq<char>) -> Option<u32> {
    let body = without_plus(s);
    if body.len() > 0 && all_decimal_digits(body) && digits_value(body) <= u32::MAX {
        Some(digits_value(body) as u32)
    } else {
        None
    }
}

fn digit_text(d: u64) -> (text: &'static str)
    requires
        d < 16,
    ensures
        text@ == seq![digit(d as nat)],
{
    proof {
        reveal_strlit("0");
        reveal_strlit("1");
        reveal_strlit("2");
        reveal_strlit("3");
        reveal_strlit("4");
        reveal_strlit("5");
        reveal_strlit("6");
        reveal_strlit("7");
        reveal_strlit("8");
        reveal_strlit("9");
        reveal_strlit("a");
        reveal_strlit("b");
        reveal_strlit("c");
        reveal_strlit("d");
        reveal_strlit("e");
        reveal_strlit("f");
    }
    match d {
        0 => "0",
        1 => "1",
        2 => "2",
        3 => "3",
        4 => "4",
        5 => "5",
        6 => "6",
        7 => "7",
        8 => "8",
        9 => "9",
        10 => "a",
        11 => "b",
        12 => "c",
        13 => "d",
        14 => "e",
        _ => "f",
    }
}

fn push_numeral(text: &mut String, n: u64, base: u64)
    requires
        2 <= base <= 16,
    ensures
        final(text)@ == old(text)@ + numeral(n as nat, base as nat),
    decreases n,
{
    if n >= base {
        assert(n / base < n) by (nonlinear_arith)
            requires
                n >= base,
                base >= 2,
        ;
        push_numeral(text, n / base, base);
    }
    assert(n % base < base) by (nonlinear_arith)
        requires
            base >= 2,
    ;
    assert(n < base ==> n % base == n) by (nonlinear_arith)
        requires
            base >= 2,
    ;
    text.append(digit_text(n % base));
}

/// `n` in decimal notation.
pub fn decimal_text(n: u64) -> (text: String)
    ensures
        text@ == decimal(n as nat),
{
    let mut text = String::new();
    push_numeral(&mut text, n, 10);
    text
}

/// `n` in decimal notation, with its sign.
pub fn signed_text(n: i32) -> (text: String)
    ensures
        text@ == signed_decimal(n as int),
{
    let mut text = String::new();
    if n < 0 {
        proof {
            reveal_strlit("-");
        }
        text.append("-");
        assert(text@ =~= seq!['-']);
        push_numeral(&mut text, (-(n as i64)) as u64, 10);
    } else {
        push_numeral(&mut text, n as u64, 10);
    }
    text
}

/// `n` in lower-case hexadecimal notation, padded with zeros to `width` characters.
pub fn padded_hexadecimal_text(n: u64, width: usize) -> (text: String)
    ensures
        text@ == zero_padded(hexadecimal(n as nat), width as nat),
{
    let mut digits = String::new();
    push_numeral(&mut digits, n, 16);
    let length: usize = digits.as_str().unicode_len();
    if length >= width {
        return digits;
    }
    let mut text = String::new();
    let mut zeros: usize = width - length;
    while zeros > 0
        invariant
            zeros <= width - length,
            length < width,
            text@ == Seq::new((width - length - zeros) as nat, |i: int| '0'),
        decreases zeros,
    {
        proof {
            reveal_strlit("0");
        }
        text.append("0");
        zeros = zeros - 1;
    }
    text.append(digits.as_str());
    text
}

/// More digits behind a number never make it smaller.
proof fn lemma_digits_value_grows(s: Seq<char>, k: int)
    requires
        0 <= k <= s.len(),
    ensures
        digits_value(s.take(k)) <= digits_value(s),
    decreases s.len() - k,
{
    if k < s.len() {
        lemma_digits_value_grows(s, k + 1);
        assert(s.take(k + 1).drop_last() =~= s.take(k));
    } else {
        assert(s.take(k) =~= s);
    }
}

/// Reads an unsigned 32-bit number in decimal notation.
pub fn parse_u32(s: &str) -> (n: Option<u32>)
    ensures
        n == u32_meaning(s@),
{
    let length: usize = s.unicode_len();
    let start: usize = if length > 0 && s.get_char(0) == '+' {
        1
    } else {
        0
    };
    let ghost body = without_plus(s@);
    assert(body =~= s@.skip(start as int));
    if start == length {
        return None;
    }
    let mut value: u64 = 0;
    let mut i: usize = start;
    while i < length
        invariant
            start <= i <= length,
            length == s@.len(),
            body == s@.skip(start as int),
            value == digits_value(body.take(i - start)),
            value <= u32::MAX,
            forall|k: int| 0 <= k < i - start ==> is_decimal_digit(#[trigger] body[k]),
            body.len() > 0,
            body == without_plus(s@),
        decreases length - i,
    {
        let c: char = s.get_char(i);
        assert(c == body[i - start]);
        if c < '0' || c > '9' {
            assert(!is_decimal_digit(body[i - start]));
            return None;
        }
        assert(body.take(i - start + 1).drop_last() =~= body.take(i - start));
        value = value * 10 + (c as u64 - 48);
        i = i + 1;
        if value > u32::MAX as u64 {
            proof {
                lemma_digits_value_grows(body, i - start);
            }
            return None;
        }
    }
    assert(body.take(length - start) =~= body);
    Some(value as u32)
}

/// A decimal numeral holds decimal digits, at least one, and their value is the number.
proof fn lemma_decimal_digits(n: nat)
    ensures
        decimal(n).len() > 0,
        all_decimal_digits(decimal(n)),
        digits_value(decimal(n)) == n,
    decreases n,
{
    if n >= 10 {
        lemma_decimal_digits(n / 10);
        assert(decimal(n).drop_last() =~= decimal(n / 10));
    } else {
        assert(decimal(n).drop_last() =~= Seq::<char>::empty());
        assert(digits_value(decimal(n).drop_last()) == 0);
    }
}

/// Reading what was written in decimal notation gives the number back.
pub proof fn law_decimal_reads_back(n: u32)
    ensures
        u32_meaning(decimal(n as nat)) == Some(n),
{
    lemma_decimal_digits(n as nat);
    assert(is_decimal_digit(decimal(n as nat)[0]));
}

/// Two numbers with the same decimal notation are the same number.
pub proof fn law_decimal_is_unambiguous(m: nat, n: nat)
    requires
        decimal(m) == decimal(n),
    ensures
        m == n,
{
    lemma_decimal_digits(m);
    lemma_decimal_digits(n);
}

/// The value of a hexadecimal digit.
pub open spec fn digit_value(c: char) -> nat {
    if c <= '9' {
        (c as nat - 48) as nat
    } else {
        (c as nat - 87) as nat
    }
}

/// The number that a sequence of lower-case hexadecimal digits stands for.
pub open spec fn hexadecimal_value(s: Seq<char>) -> nat
    decreases s.len(),
{
    if s.len() == 0 {
        0
    } else {
        hexadecimal_value(s.drop_last()) * 16 + digit_value(s.last())
    }
}

pub open spec fn is_hexadecimal_digit(c: char) -> bool {
    '0' <= c <= '9' || 'a' <= c <= 'f'
}

pub open spec fn all_hexadecimal_digits(s: Seq<char>) -> bool {
    forall|i: int| 0 <= i < s.len() ==> is_hexadecimal_digit(#[trigger] s[i])
}

proof fn lemma_hexadecimal_digits(n: nat)
    ensures
        all_hexadecimal_digits(hexadecimal(n)),
        hexadecimal_value(hexadecimal(n)) == n,
    decreases n,
{
    if n >= 16 {
        lemma_hexadecimal_digits(n / 16);
        assert(hexadecimal(n).drop_last() =~= hexadecimal(n / 16));
    } else {
        assert(hexadecimal(n).drop_last() =~= Seq::<char>::empty());
        assert(hexadecimal_value(hexadecimal(n).drop_last()) == 0);
    }
}

/// Zeros in front make no difference to the value.
proof fn lemma_leading_zeros(zeros: nat, s: Seq<char>)
    ensures
        hexadecimal_value(Seq::new(zeros, |i: int| '0') + s) == hexadecimal_value(s),
    decreases zeros + s.len(),
{
    let all = Seq::new(zeros, |i: int| '0') + s;
    if s.len() > 0 {
        lemma_leading_zeros(zeros, s.drop_last());
        assert(all.drop_last() =~= Seq::new(zeros, |i: int| '0') + s.drop_last());
    } else if zeros > 0 {
        lemma_leading_zeros((zeros - 1) as nat, s);
        assert(all.drop_last() =~= Seq::new((zeros - 1) as nat, |i: int| '0') + s);
    }
}

/// Padded hexadecimal notation consists of hexadecimal digits, and two numbers with the same
/// padded notation are the same number.
pub proof fn law_padded_hexadecimal_is_unambiguous(m: nat, n: nat, width: nat)
    ensures
        all_hexadecimal_digits(zero_padded(hexadecimal(m), width)),
        zero_padded(hexadecimal(m), width) == zero_padded(hexadecimal(n), width) ==> m == n,
{
    lemma_hexadecimal_digits(m);
    lemma_hexadecimal_digits(n);
    if hexadecimal(m).len() < width {
        lemma_leading_zeros((width - hexadecimal(m).len()) as nat, hexadecimal(m));
    }
    if hexadecimal(n).len() < width {
        lemma_leading_zeros((width - hexadecimal(n).len()) as nat, hexadecimal(n));
    }
}

/// Decimal notation, digit by digit: a number below ten is one character, and one more digit behind
/// a number makes it ten times as large, plus the digit.
pub proof fn law_decimal_notation(n: nat, d: nat)
    requires
        d < 10,
    ensures
        decimal(d) == seq![('0' as nat + d) as char],
        n > 0 ==> decimal(10 * n + d) == decimal(n).push(('0' as nat + d) as char),
{
}

/// Hexadecimal notation, digit by digit, with the letters from `a` on for the digits from ten on.
pub proof fn law_hexadecimal_notation(n: nat, d: nat)
    requires
        d < 16,
    ensures
        ({
            let c = if d < 10 {
                ('0' as nat + d) as char
            } else {
                ('a' as nat + (d - 10)) as char
            };
            &&& hexadecimal(d) == seq![c]
            &&& n > 0 ==> hexadecimal(16 * n + d) == hexadecimal(n).push(c)
        }),
{
}

/// The sign of a number stands in front of it, and only where it is negative.
pub proof fn law_signed_notation(n: nat)
    ensures
        signed_decimal(n as int) == decimal(n),
        n > 0 ==> signed_decimal(-(n as int)) == seq!['-'] + decimal(n),
{
}

/// Two numbers with the same signed notation are the same number.
pub proof fn law_signed_notation_is_unambiguous(m: int, n: int)
    requires
        signed_decimal(m) == signed_decimal(n),
    ensures
        m == n,
{
    let (a, b) = (if m < 0 {
        (-m) as nat
    } else {
        m as nat
    }, if n < 0 {
        (-n) as nat
    } else {
        n as nat
    });
    lemma_decimal_digits(a);
    lemma_decimal_digits(b);
    assert(is_decimal_digit(decimal(a)[0]) && is_decimal_digit(decimal(b)[0]));
    assert(signed_decimal(m)[0] == signed_decimal(n)[0]);
    if m < 0 {
        assert(decimal(a) =~= signed_decimal(m).skip(1));
        assert(decimal(b) =~= signed_decimal(n).skip(1));
    }
}

/// Padding puts zeros in front, no more than it takes, and leaves the text itself alone.
pub proof fn law_padding(s: Seq<char>, width: nat)
    ensures
        ({
            let padded = zero_padded(s, width);
            let zeros = padded.len() - s.len();
            &&& padded.len() == if s.len() < width {
                width
            } else {
                s.len()
            }
            &&& padded.skip(zeros) == s
            &&& forall|i: int| 0 <= i < zeros ==> #[trigger] padded[i] == '0'
        }),
{
    let padded = zero_padded(s, width);
    assert(padded.skip(padded.len() - s.len()) =~= s);
}

/// The ways to write a number: in decimal notation, with zeros in front, behind a plus sign or not.
pub open spec fn number_text(plus: bool, zeros: nat, n: nat) -> Seq<char> {
    (if plus {
        seq!['+']
    } else {
        Seq::empty()
    }) + (Seq::new(zeros, |i: int| '0') + decimal(n))
}

proof fn lemma_decimal_leading_zeros(zeros: nat, s: Seq<char>)
    ensures
        digits_value(Seq::new(zeros, |i: int| '0') + s) == digits_value(s),
    decreases zeros + s.len(),
{
    let all = Seq::new(zeros, |i: int| '0') + s;
    if s.len() > 0 {
        lemma_decimal_leading_zeros(zeros, s.drop_last());
        assert(all.drop_last() =~= Seq::new(zeros, |i: int| '0') + s.drop_last());
    } else if zeros > 0 {
        lemma_decimal_leading_zeros((zeros - 1) as nat, s);
        assert(all.drop_last() =~= Seq::new((zeros - 1) as nat, |i: int| '0') + s);
    }
}

/// However a number is written, it is read as that number, where it fits, and refused, where not.
pub proof fn law_numbers_are_read(plus: bool, zeros: nat, n: nat)
    ensures
        u32_meaning(number_text(plus, zeros, n)) == if n <= u32::MAX {
            Some(n as u32)
        } else {
            None
        },
{
    let body = Seq::new(zeros, |i: int| '0') + decimal(n);
    let text = number_text(plus, zeros, n);
    lemma_decimal_digits(n);
    lemma_decimal_leading_zeros(zeros, decimal(n));
    assert forall|i: int| 0 <= i < body.len() implies is_decimal_digit(#[trigger] body[i]) by {
        if i >= zeros {
            assert(body[i] == decimal(n)[i - zeros]);
        }
    }
    assert(is_decimal_digit(body[0]));
    if plus {
        assert(text.skip(1) =~= body);
    } else {
        assert(text =~= body);
    }
}

/// A sequence of digits is a number in decimal notation with zeros in front.
proof fn lemma_digits_are_a_number(s: Seq<char>) -> (zeros: nat)
    requires
        s.len() > 0,
        all_decimal_digits(s),
    ensures
        s == Seq::new(zeros, |i: int| '0') + decimal(digits_value(s)),
    decreases s.len(),
{
    let d = (s.last() as nat - 48) as nat;
    let front = s.drop_last();
    assert(is_decimal_digit(s[s.len() - 1]));
    law_decimal_notation(digits_value(front), d);
    if front.len() == 0 {
        assert(digits_value(front) == 0);
        assert(s =~= Seq::new(0, |i: int| '0') + decimal(d));
        0
    } else {
        assert forall|i: int| 0 <= i < front.len() implies is_decimal_digit(#[trigger] front[i]) by {
            assert(front[i] == s[i]);
        }
        let zeros = lemma_digits_are_a_number(front);
        if digits_value(front) == 0 {
            law_decimal_notation(0, 0);
            assert(front =~= Seq::new(zeros + 1, |i: int| '0'));
            assert(s =~= front.push(s.last()));
            assert(digits_value(s) == d);
            assert(s =~= Seq::new(zeros + 1, |i: int| '0') + decimal(d));
            zeros + 1
        } else {
            let c = s.last();
            assert(s =~= front.push(c));
            assert(digits_value(s) == 10 * digits_value(front) + d);
            assert(decimal(digits_value(s)) == decimal(digits_value(front)).push(c));
            assert(s =~= Seq::new(zeros, |i: int| '0') + decimal(digits_value(s)));
            zeros
        }
    }
}

/// Nothing else is read as a number.
pub proof fn law_only_numbers_are_read(s: Seq<char>)
    requires
        u32_meaning(s) is Some,
    ensures
        exists|plus: bool, zeros: nat| s == #[trigger]
            number_text(plus, zeros, u32_meaning(s)->0 as nat),
{
    let body = without_plus(s);
    let zeros = lemma_digits_are_a_number(body);
    let plus = s[0] == '+';
    assert(s =~= number_text(plus, zeros, u32_meaning(s)->0 as nat));
}

} // verus!
