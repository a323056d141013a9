//! Text building blocks: numbers as text, padding, and the few ways of taking
//! command output and kernel files apart.

use vstd::prelude::*;
use vstd::string::*;

verus! {

/// Two pieces of text are equal when their characters are.
pub fn same_text(a: &str, b: &str) -> (same: bool)
    ensures
        same == (a@ == b@),
{
    let x: &[u8] = a.as_bytes();
    let y: &[u8] = b.as_bytes();
    if x.len() != y.len() {
        return false;
    }
    let mut i: usize = 0;
    while i < x.len()
        invariant
            i <= x.len(),
            x.len() == y.len(),
            x@ == a.spec_bytes(),
            y@ == b.spec_bytes(),
            forall|j: int| 0 <= j < i ==> x@[j] == y@[j],
        decreases x.len() - i,
    {
        if x[i] != y[i] {
            return false;
        }
        i += 1;
    }
    proof {
        assert(x@ =~= y@);
        vstd::utf8::encode_utf8_decode_utf8(a@);
        vstd::utf8::encode_utf8_decode_utf8(b@);
    }
    true
}

/// The digit character of a value below sixteen.
pub open spec fn digit_char(d: int) -> char {
    if d < 10 {
        (48 + d) as char
    } else {
        (87 + d) as char
    }
}

/// A number in a base up to sixteen, without leading zeros.
pub open spec fn in_base(n: nat, base: nat) -> Seq<char>
    decreases n,
    when base >= 2
{
    if n < base {
        seq![digit_char(n as int)]
    } else {
        proof {
            assert(n / base < n) by (nonlinear_arith)
                requires
                    n >= base,
                    base >= 2,
            ;
        }
        in_base(n / base, base).push(digit_char((n % base) as int))
    }
}

/// A number in decimal.
pub open spec fn decimal(n: nat) -> Seq<char> {
    in_base(n, 10)
}

/// A signed number in decimal, with a minus sign in front of negative ones.
pub open spec fn signed_decimal(n: int) -> Seq<char> {
    if n < 0 {
        "-"@ + decimal((-n) as nat)
    } else {
        decimal(n as nat)
    }
}

fn push_digit(out: &mut String, d: u8)
    requires
        d < 16,
    ensures
        final(out)@ == old(out)@.push(digit_char(d as int)),
{
    proof {
        reveal_strlit("0");
        reveal_strlit("1");
        reveal_strlit("2");
        reveal_strlit("3");
        reveal_strlit("4");
        reveal_strlit("5");
        reveal_strlit("6");
        reveal_strlit("7");
        reveal_strlit("8");
        reveal_strlit("9");
        reveal_strlit("a");
        reveal_strlit("b");
        reveal_strlit("c");
        reveal_strlit("d");
        reveal_strlit("e");
        reveal_strlit("f");
    }
    let text = match d {
        0 => "0",
        1 => "1",
        2 => "2",
        3 => "3",
        4 => "4",
        5 => "5",
        6 => "6",
        7 => "7",
        8 => "8",
        9 => "9",
        10 => "a",
        11 => "b",
        12 => "c",
        13 => "d",
        14 => "e",
        _ => "f",
    };
    let ghost before = out@;
    out.append(text);
    assert(before + text@ =~= before.push(digit_char(d as int)));
}

fn push_in_base(out: &mut String, n: u128, base: u128)
    requires
        2 <= base <= 16,
    ensures
        final(out)@ == old(out)@ + in_base(n as nat, base as nat),
    decreases n,
{
    let ghost before = out@;
    if n >= base {
        assert(n / base < n) by (nonlinear_arith)
            requires
                n >= base,
                base >= 2,
        ;
        push_in_base(out, n / base, base);
    }
    assert(n % base < base) by (nonlinear_arith)
        requires
            base >= 2,
    ;
    push_digit(out, (n % base) as u8);
    proof {
        if n < base {
            assert(n % base == n) by (nonlinear_arith)
                requires
                    n < base,
            ;
        }
        assert(out@ =~= before + in_base(n as nat, base as nat));
    }
}

/// Appends a number in decimal.
pub fn push_decimal(out: &mut String, n: u128)
    ensures
        final(out)@ == old(out)@ + decimal(n as nat),
{
    push_in_base(out, n, 10);
}

/// Appends a number in lower-case hexadecimal.
pub fn push_hex(out: &mut String, n: u16)
    ensures
        final(out)@ == old(out)@ + in_base(n as nat, 16),
{
    push_in_base(out, n as u128, 16);
}

/// Appends a signed number in decimal.
pub fn push_signed_decimal(out: &mut String, n: i32)
    ensures
        final(out)@ == old(out)@ + signed_decimal(n as int),
{
    let ghost before = out@;
    if n < 0 {
        out.append("-");
        push_decimal(out, (-(n as i64)) as u128);
        assert(out@ =~= before + signed_decimal(n as int));
    } else {
        push_decimal(out, n as u128);
    }
}

/// A number in decimal.
pub fn decimal_text(n: u128) -> (text: String)
    ensures
        text@ == decimal(n as nat),
{
    let mut out = String::new();
    push_decimal(&mut out, n);
    assert(Seq::<char>::empty() + decimal(n as nat) =~= decimal(n as nat));
    out
}

/// Text filled up with spaces on the right to a width in characters; longer
/// text is kept whole.
pub open spec fn padded(text: Seq<char>, width: nat) -> Seq<char> {
    if text.len() >= width {
        text
    } else {
        text + Seq::new((width - text.len()) as nat, |i: int| ' ')
    }
}

/// Appends text filled up with spaces on the right.
pub fn push_padded(out: &mut String, text: &str, width: usize)
    ensures
        final(out)@ == old(out)@ + padded(text@, width as nat),
{
    let ghost before = out@;
    out.append(text);
    let mut n: usize = text.unicode_len();
    proof {
        reveal_strlit(" ");
        if n < width {
            assert(out@ =~= before + (text@ + Seq::new(0, |i: int| ' ')));
        }
    }
    while n < width
        invariant
            text@.len() <= n,
            n <= width || n == text@.len(),
            text@.len() < width ==> out@ == before + (text@ + Seq::new(
                (n - text@.len()) as nat,
                |i: int| ' ',
            )),
            text@.len() >= width ==> out@ == before + text@,
            " "@ == seq![' '],
        decreases width - n,
    {
        let ghost filled = out@;
        out.append(" ");
        n += 1;
        assert(out@ =~= before + (text@ + Seq::new((n - text@.len()) as nat, |i: int| ' ')));
    }
}

/// The characters of a piece of text.
pub fn chars_of(text: &str) -> (chars: Vec<char>)
    ensures
        chars@ == text@,
{
    let mut chars: Vec<char> = Vec::new();
    for c in iter: text.chars()
        invariant
            iter.seq() == text@,
            chars@ == text@.take(iter.index() as int),
    {
        chars.push(c);
        assert(text@.take(iter.index() + 1) =~= text@.take(iter.index() as int).push(c));
    }
    assert(text@.take(text@.len() as int) =~= text@);
    chars
}

/// A digit of a base up to sixteen is no mark of punctuation.
pub open spec fn is_digit_char(c: char) -> bool {
    ('0' <= c && c <= '9') || ('a' <= c && c <= 'f')
}

/// Numbers are written with at least one digit, and with digits only.
pub proof fn numbers_are_digits(n: nat, base: nat)
    requires
        2 <= base <= 16,
    ensures
        in_base(n, base).len() > 0,
        forall|i: int| 0 <= i < in_base(n, base).len() ==> is_digit_char(#[trigger] in_base(n, base)[i]),
    decreases n,
{
    if n >= base {
        assert(n / base < n && n % base < base) by (nonlinear_arith)
            requires
                n >= base,
                base >= 2,
        ;
        numbers_are_digits(n / base, base);
    }
}

/// A number can be read back: no two numbers are written alike.
pub proof fn numbers_are_read_back(n: nat, m: nat, base: nat)
    requires
        2 <= base <= 16,
        in_base(n, base) == in_base(m, base),
    ensures
        n == m,
    decreases n,
{
    let (a, b) = (in_base(n, base), in_base(m, base));
    assert(n % base < base && m % base < base) by (nonlinear_arith)
        requires
            base >= 2,
    ;
    numbers_are_digits(n / base, base);
    numbers_are_digits(m / base, base);
    assert(a.last() == b.last());
    if n < base {
        assert(a.len() == 1);
        assert(m < base);
    } else {
        assert(m >= base);
        assert(n / base < n) by (nonlinear_arith)
            requires
                n >= base,
                base >= 2,
        ;
        assert(a.drop_last() =~= in_base(n / base, base));
        assert(b.drop_last() =~= in_base(m / base, base));
        numbers_are_read_back(n / base, m / base, base);
        vstd::arithmetic::div_mod::lemma_fundamental_div_mod(n as int, base as int);
        vstd::arithmetic::div_mod::lemma_fundamental_div_mod(m as int, base as int);
    }
}

/// A decimal numeral grows by one digit at its end: what `10 * n + d` adds to
/// `n` is the digit `d`.
pub proof fn decimals_grow_by_digits(n: nat, d: nat)
    requires
        d < 10,
    ensures
        decimal(d).len() == 1,
        decimal(d)[0] as int == 48 + d,
        n > 0 ==> decimal(10 * n + d).len() == decimal(n).len() + 1,
        n > 0 ==> decimal(10 * n + d).drop_last() == decimal(n),
        n > 0 ==> decimal(10 * n + d).last() as int == 48 + d,
{
    if n > 0 {
        assert((10 * n + d) / 10 == n && (10 * n + d) % 10 == d);
        assert(decimal(10 * n + d).drop_last() =~= decimal(n));
    }
}

/// A hexadecimal numeral grows by one digit at its end, in small letters.
pub proof fn hexadecimals_grow_by_digits(n: nat, d: nat)
    requires
        d < 16,
    ensures
        in_base(d, 16).len() == 1,
        in_base(d, 16)[0] as int == (if d < 10 {
            48 + d
        } else {
            87 + d
        }),
        n > 0 ==> in_base(16 * n + d, 16).len() == in_base(n, 16).len() + 1,
        n > 0 ==> in_base(16 * n + d, 16).drop_last() == in_base(n, 16),
        n > 0 ==> in_base(16 * n + d, 16).last() == in_base(d, 16)[0],
{
    if n > 0 {
        assert((16 * n + d) / 16 == n && (16 * n + d) % 16 == d);
        assert(in_base(16 * n + d, 16).drop_last() =~= in_base(n, 16));
    }
}

/// Only negative numbers carry a sign, in front of their digits.
pub proof fn signs_mark_negative_numbers(n: int)
    ensures
        n >= 0 ==> signed_decimal(n) == decimal(n as nat),
        n < 0 ==> signed_decimal(n).len() == decimal((-n) as nat).len() + 1,
        n < 0 ==> signed_decimal(n)[0] == '-',
        n < 0 ==> signed_decimal(n).skip(1) == decimal((-n) as nat),
{
    reveal_strlit("-");
    if n < 0 {
        assert(signed_decimal(n).skip(1) =~= decimal((-n) as nat));
    }
}

/// Padding keeps the text whole in front, and fills up to the width with
/// spaces.
pub proof fn padding_keeps_the_text(text: Seq<char>, width: nat)
    ensures
        padded(text, width).take(text.len() as int) == text,
        padded(text, width).len() == (if text.len() < width {
            width
        } else {
            text.len()
        }),
        forall|i: int| text.len() <= i < width ==> #[trigger] padded(text, width)[i] == ' ',
{
    assert(padded(text, width).take(text.len() as int) =~= text);
}

} // verus!
