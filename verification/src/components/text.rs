//! Decimal rendering of unsigned numbers, the way `to_string` writes them.
use vstd::prelude::*;
use vstd::string::*;

verus! {

/// The character of the decimal digit `d`.
pub open spec fn digit_char(d: nat) -> char {
    if d == 0 { '0' }
    else if d == 1 { '1' }
    else if d == 2 { '2' }
    else if d == 3 { '3' }
    else if d == 4 { '4' }
    else if d == 5 { '5' }
    else if d == 6 { '6' }
    else if d == 7 { '7' }
    else if d == 8 { '8' }
    else { '9' }
}

/// The decimal digits of `n`, most significant first, with no leading zero.
pub open spec fn decimal(n: nat) -> Seq<char>
    decreases n,
{
    if n < 10 {
        seq![digit_char(n)]
    } else {
        decimal(n / 10).push(digit_char(n % 10))
    }
}

/// `s` padded on the left with `'0'` up to `width` characters.
pub open spec fn zero_padded(s: Seq<char>, width: nat) -> Seq<char>
    decreases width,
{
    if s.len() >= width {
        s
    } else {
        seq!['0'] + zero_padded(s, (width - 1) as nat)
    }
}

fn digit_str(d: u64) -> (s: &'static str)
    requires
        d < 10,
    ensures
        s@ == seq![digit_char(d as nat)],
{
    if d == 0 {
        proof { reveal_strlit("0"); }
        "0"
    } else if d == 1 {
        proof { reveal_strlit("1"); }
        "1"
    } else if d == 2 {
        proof { reveal_strlit("2"); }
        "2"
    } else if d == 3 {
        proof { reveal_strlit("3"); }
        "3"
    } else if d == 4 {
        proof { reveal_strlit("4"); }
        "4"
    } else if d == 5 {
        proof { reveal_strlit("5"); }
        "5"
    } else if d == 6 {
        proof { reveal_strlit("6"); }
        "6"
    } else if d == 7 {
        proof { reveal_strlit("7"); }
        "7"
    } else if d == 8 {
        proof { reveal_strlit("8"); }
        "8"
    } else {
        proof { reveal_strlit("9"); }
        "9"
    }
}

/// Appends the decimal digits of `n` to `out`.
pub fn push_decimal(out: &mut String, n: u64)
    ensures
        final(out)@ == old(out)@ + decimal(n as nat),
    decreases n,
{
    if n < 10 {
        out.append(digit_str(n));
    } else {
        push_decimal(out, n / 10);
        out.append(digit_str(n % 10));
        assert(decimal(n as nat) == decimal((n / 10) as nat).push(digit_char((n % 10) as nat)));
    }
}

/// The decimal digits of `n`, as `n.to_string()` gives them.
pub fn decimal_string(n: u64) -> (s: String)
    ensures
        s@ == decimal(n as nat),
{
    let mut s = String::new();
    push_decimal(&mut s, n);
    s
}

/// Appends the decimal digits of `n`, padded with zeros on the left to two
/// characters, as the format `{n:0>2}` writes them.
pub fn push_two_digits(out: &mut String, n: u64)
    ensures
        final(out)@ == old(out)@ + zero_padded(decimal(n as nat), 2),
{
    if n < 10 {
        proof { reveal_strlit("0"); }
        out.append("0");
        push_decimal(out, n);
        assert(decimal(n as nat).len() == 1);
        assert(zero_padded(decimal(n as nat), 1) == decimal(n as nat));
        assert(zero_padded(decimal(n as nat), 2) == seq!['0'] + decimal(n as nat));
        assert(old(out)@ + zero_padded(decimal(n as nat), 2) == old(out)@ + "0"@ + decimal(n as nat));
    } else {
        push_decimal(out, n);
        proof { lemma_decimal_len_two(n as nat); }
    }
}

/// The clock shown under a round: minutes and seconds, each at least two
/// digits, between spaces.
pub open spec fn timer(seconds: nat) -> Seq<char> {
    " "@ + zero_padded(decimal(seconds / 60), 2) + ":"@ + zero_padded(decimal(seconds % 60), 2) + " "@
}

/// The clock for `seconds` seconds, as the format ` {minutes:0>2}:{seconds:0>2} `
/// writes it.
pub fn timer_text(seconds: u64) -> (s: String)
    ensures
        s@ == timer(seconds as nat),
{
    let mut s = String::from_str(" ");
    push_two_digits(&mut s, seconds / 60);
    s.append(":");
    push_two_digits(&mut s, seconds % 60);
    s.append(" ");
    s
}

/// `c` is one of the ten decimal digits.
pub open spec fn is_digit(c: char) -> bool {
    c == '0' || c == '1' || c == '2' || c == '3' || c == '4' || c == '5' || c == '6' || c == '7' || c == '8'
        || c == '9'
}

/// The value of the decimal digit `c`.
pub open spec fn digit_value(c: char) -> int {
    if c == '1' { 1 }
    else if c == '2' { 2 }
    else if c == '3' { 3 }
    else if c == '4' { 4 }
    else if c == '5' { 5 }
    else if c == '6' { 6 }
    else if c == '7' { 7 }
    else if c == '8' { 8 }
    else if c == '9' { 9 }
    else { 0 }
}

/// The number a run of decimal digits stands for, most significant first.
pub open spec fn digits_value(s: Seq<char>) -> int
    decreases s.len(),
{
    if s.len() == 0 {
        0
    } else {
        digits_value(s.drop_last()) * 10 + digit_value(s.last())
    }
}

proof fn lemma_decimal_reads_back(n: nat)
    ensures
        digits_value(decimal(n)) == n,
        forall|i: int| 0 <= i < decimal(n).len() ==> is_digit(#[trigger] decimal(n)[i]),
        1 <= decimal(n).len(),
        n < 10 ==> decimal(n).len() == 1,
        n < 100 ==> decimal(n).len() <= 2,
    decreases n,
{
    if n < 10 {
        assert(decimal(n).drop_last() =~= Seq::<char>::empty());
        assert(digits_value(decimal(n)) == digits_value(decimal(n).drop_last()) * 10 + digit_value(
            decimal(n).last(),
        ));
        assert(digit_value(digit_char(n)) == n);
    } else {
        lemma_decimal_reads_back(n / 10);
        let d = decimal(n / 10);
        assert(decimal(n).drop_last() =~= d);
        assert(digits_value(decimal(n)) == digits_value(decimal(n).drop_last()) * 10 + digit_value(
            decimal(n).last(),
        ));
        assert(digit_value(digit_char(n % 10)) == n % 10);
        assert forall|i: int| 0 <= i < decimal(n).len() implies is_digit(#[trigger] decimal(n)[i]) by {
            if i < d.len() {
                assert(decimal(n)[i] == d[i]);
            }
        }
    }
}

proof fn lemma_leading_zeros(s: Seq<char>, width: nat)
    ensures
        digits_value(zero_padded(s, width)) == digits_value(s),
        zero_padded(s, width).len() == (if s.len() >= width { s.len() } else { width }),
        forall|i: int|
            0 <= i < zero_padded(s, width).len() - s.len() ==> #[trigger] zero_padded(s, width)[i] == '0',
        zero_padded(s, width).subrange(zero_padded(s, width).len() - s.len(), zero_padded(s, width).len() as int)
            == s,
    decreases width,
{
    if s.len() < width {
        lemma_leading_zeros(s, (width - 1) as nat);
        let p = zero_padded(s, (width - 1) as nat);
        lemma_zero_in_front(p);
        assert(zero_padded(s, width) == seq!['0'] + p);
        assert(zero_padded(s, width).subrange(zero_padded(s, width).len() - s.len(), zero_padded(s, width).len() as int)
            =~= p.subrange(p.len() - s.len(), p.len() as int));
    } else {
        assert(s.subrange(0, s.len() as int) =~= s);
    }
}

proof fn lemma_zero_in_front(s: Seq<char>)
    ensures
        digits_value(seq!['0'] + s) == digits_value(s),
    decreases s.len(),
{
    let z = seq!['0'] + s;
    assert(digits_value(z) == digits_value(z.drop_last()) * 10 + digit_value(z.last()));
    if s.len() == 0 {
        assert(z.drop_last() =~= Seq::<char>::empty());
        assert(z.last() == '0');
    } else {
        lemma_zero_in_front(s.drop_last());
        assert(z.drop_last() =~= seq!['0'] + s.drop_last());
        assert(z.last() == s.last());
        assert(digits_value(s) == digits_value(s.drop_last()) * 10 + digit_value(s.last()));
    }
}

proof fn lemma_padded_field(n: nat)
    ensures
        digits_value(zero_padded(decimal(n), 2)) == n,
        zero_padded(decimal(n), 2).len() >= 2,
        n < 100 ==> zero_padded(decimal(n), 2).len() == 2,
        forall|i: int| 0 <= i < zero_padded(decimal(n), 2).len() ==> is_digit(#[trigger] zero_padded(decimal(n), 2)[i]),
{
    let d = decimal(n);
    lemma_decimal_reads_back(n);
    lemma_leading_zeros(d, 2);
    let a = zero_padded(d, 2);
    assert forall|i: int| 0 <= i < a.len() implies is_digit(#[trigger] a[i]) by {
        if i >= a.len() - d.len() {
            assert(a[i] == a.subrange(a.len() - d.len(), a.len() as int)[i - (a.len() - d.len())]);
        }
    }
}

/// Reading the clock of `t` seconds back: a space, the minutes field, `:`, a
/// two digit seconds field and a space, where the minutes field reads `t / 60`
/// and the seconds field reads `t % 60`; so the minutes count sixty seconds
/// each, the seconds stay below sixty, and together they give back `t`.
pub proof fn lemma_timer_reads_back(t: nat)
    ensures
        ({
            let s = timer(t);
            let n = s.len() as int;
            &&& n >= 7
            &&& s[0] == ' '
            &&& s[n - 1] == ' '
            &&& s[n - 4] == ':'
            &&& forall|i: int| 1 <= i < n - 4 ==> is_digit(#[trigger] s[i])
            &&& forall|i: int| n - 3 <= i < n - 1 ==> is_digit(#[trigger] s[i])
            &&& digits_value(s.subrange(1, n - 4)) == t / 60
            &&& digits_value(s.subrange(n - 3, n - 1)) == t % 60
            &&& digits_value(s.subrange(1, n - 4)) * 60 + digits_value(s.subrange(n - 3, n - 1)) == t
            &&& digits_value(s.subrange(n - 3, n - 1)) < 60
        }),
{
    reveal_strlit(" ");
    reveal_strlit(":");
    lemma_padded_field(t / 60);
    lemma_padded_field(t % 60);
    let a = zero_padded(decimal(t / 60), 2);
    let b = zero_padded(decimal(t % 60), 2);
    let s = timer(t);
    let n = s.len() as int;
    assert(s =~= seq![' '] + a + seq![':'] + b + seq![' ']);
    assert(s.subrange(1, n - 4) =~= a);
    assert(s.subrange(n - 3, n - 1) =~= b);
    assert forall|i: int| 1 <= i < n - 4 implies is_digit(#[trigger] s[i]) by {
        assert(s[i] == a[i - 1]);
    }
    assert forall|i: int| n - 3 <= i < n - 1 implies is_digit(#[trigger] s[i]) by {
        assert(s[i] == b[i - (n - 3)]);
    }
    assert((t / 60) * 60 + t % 60 == t) by {
        vstd::arithmetic::div_mod::lemma_fundamental_div_mod(t as int, 60);
    }
}

proof fn lemma_decimal_len_two(n: nat)
    requires
        n >= 10,
    ensures
        decimal(n).len() >= 2,
        zero_padded(decimal(n), 2) == decimal(n),
    decreases n,
{
    if n / 10 >= 10 {
        lemma_decimal_len_two(n / 10);
    }
    assert(decimal(n / 10).len() >= 1);
}

} // verus!
