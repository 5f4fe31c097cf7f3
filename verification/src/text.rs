//! Decimal text for the numbers the library prints: plain integers,
//! zero-padded integers and fixed six-decimal fractions.
use vstd::prelude::*;

verus! {

/// The character of a decimal digit.
pub open spec fn digit_char(d: nat) -> char {
    if d == 0 {
        '0'
    } else if d == 1 {
        '1'
    } else if d == 2 {
        '2'
    } else if d == 3 {
        '3'
    } else if d == 4 {
        '4'
    } else if d == 5 {
        '5'
    } else if d == 6 {
        '6'
    } else if d == 7 {
        '7'
    } else if d == 8 {
        '8'
    } else {
        '9'
    }
}

/// Decimal digits of `n`, most significant first, without leading zeros
/// (zero is the single digit `0`).
pub open spec fn decimal(n: nat) -> Seq<char>
    decreases n,
{
    if n < 10 {
        seq![digit_char(n)]
    } else {
        decimal(n / 10).push(digit_char(n % 10))
    }
}

/// `count` copies of `'0'`.
pub open spec fn zeros(count: nat) -> Seq<char> {
    Seq::new(count, |i: int| '0')
}

/// `n` in decimal, left-padded with zeros to at least `width` digits.
pub open spec fn padded(n: nat, width: nat) -> Seq<char> {
    if decimal(n).len() < width {
        zeros((width - decimal(n).len()) as nat) + decimal(n)
    } else {
        decimal(n)
    }
}

/// A count of millionths written with exactly six decimals: the whole part,
/// a point, then the fraction padded to six digits.
pub open spec fn fixed6(millionths: nat) -> Seq<char> {
    decimal(millionths / 1_000_000) + seq!['.'] + padded(millionths % 1_000_000, 6)
}

pub proof fn lemma_decimal_len_pos(n: nat)
    ensures
        decimal(n).len() >= 1,
    decreases n,
{
    if n >= 10 {
        lemma_decimal_len_pos(n / 10);
    }
}

/// Decimal text holds decimal digits only.
pub proof fn lemma_decimal_digits(n: nat)
    ensures
        forall|i: int| 0 <= i < decimal(n).len() ==> '0' <= #[trigger] decimal(n)[i] <= '9',
    decreases n,
{
    if n >= 10 {
        lemma_decimal_digits(n / 10);
        assert forall|i: int| 0 <= i < decimal(n).len() implies '0' <= #[trigger] decimal(n)[i]
            <= '9' by {
            if i < decimal(n / 10).len() {
                assert(decimal(n)[i] == decimal(n / 10)[i]);
            }
        }
    }
}

/// Different numbers have different decimal text.
pub proof fn lemma_decimal_injective(n: nat, m: nat)
    requires
        decimal(n) == decimal(m),
    ensures
        n == m,
    decreases n,
{
    if n >= 10 {
        lemma_decimal_len_pos(n / 10);
    }
    if m >= 10 {
        lemma_decimal_len_pos(m / 10);
    }
    if n >= 10 && m >= 10 {
        assert(decimal(n / 10) =~= decimal(n).drop_last());
        assert(decimal(m / 10) =~= decimal(m).drop_last());
        lemma_decimal_injective(n / 10, m / 10);
        assert(decimal(n).last() == digit_char(n % 10));
        assert(decimal(m).last() == digit_char(m % 10));
        assert(digit_char(n % 10) == digit_char(m % 10));
        assert(n % 10 == m % 10);
    } else if n >= 10 {
        assert(decimal(n).len() >= 2);
    } else if m >= 10 {
        assert(decimal(m).len() >= 2);
    } else {
        assert(digit_char(n) == decimal(n)[0]);
    }
}

/// Ten to the power `k`.
pub open spec fn pow10(k: nat) -> nat
    decreases k,
{
    if k == 0 {
        1
    } else {
        10 * pow10((k - 1) as nat)
    }
}

/// A number below `10^k` has at most `k` digits.
pub proof fn lemma_decimal_len_below(n: nat, k: nat)
    requires
        n < pow10(k),
        k >= 1,
    ensures
        decimal(n).len() <= k,
        n < 10 ==> decimal(n).len() == 1,
        n >= 10 ==> decimal(n).len() == decimal(n / 10).len() + 1,
    decreases n,
{
    if n >= 10 {
        assert(k > 0) by {
            if k == 0 {
                assert(pow10(0) == 1);
            }
        }
        assert(k >= 2) by {
            if k == 1 {
                assert(pow10(1) == 10 * pow10(0));
            }
        }
        assert(n / 10 < pow10((k - 1) as nat));
        lemma_decimal_len_below(n / 10, (k - 1) as nat);
    }
}

/// Decimal text never holds more than twenty digits for a `u64`.
pub proof fn lemma_decimal_len_bound(n: nat)
    requires
        n <= u64::MAX,
    ensures
        n < 10 ==> decimal(n).len() == 1,
        n >= 10 ==> decimal(n).len() == decimal(n / 10).len() + 1,
        decimal(n).len() <= 20,
{
    reveal_with_fuel(pow10, 21);
    assert(pow10(20) == 100_000_000_000_000_000_000);
    lemma_decimal_len_below(n, 20);
}

/// Appends one decimal digit.
pub fn push_digit(s: &mut String, d: u64)
    requires
        d < 10,
    ensures
        final(s)@ == old(s)@.push(digit_char(d as nat)),
{
    if d == 0 {
        proof { reveal_strlit("0"); }
        s.append("0");
    } else if d == 1 {
        proof { reveal_strlit("1"); }
        s.append("1");
    } else if d == 2 {
        proof { reveal_strlit("2"); }
        s.append("2");
    } else if d == 3 {
        proof { reveal_strlit("3"); }
        s.append("3");
    } else if d == 4 {
        proof { reveal_strlit("4"); }
        s.append("4");
    } else if d == 5 {
        proof { reveal_strlit("5"); }
        s.append("5");
    } else if d == 6 {
        proof { reveal_strlit("6"); }
        s.append("6");
    } else if d == 7 {
        proof { reveal_strlit("7"); }
        s.append("7");
    } else if d == 8 {
        proof { reveal_strlit("8"); }
        s.append("8");
    } else {
        proof { reveal_strlit("9"); }
        s.append("9");
    }
}

/// Appends `n` in decimal.
pub fn push_decimal(s: &mut String, n: u64)
    ensures
        final(s)@ == old(s)@ + decimal(n as nat),
    decreases n,
{
    if n >= 10 {
        push_decimal(s, n / 10);
    }
    push_digit(s, n % 10);
    proof {
        if n < 10 {
            assert(decimal(n as nat) == seq![digit_char(n as nat)]);
            assert(old(s)@.push(digit_char(n as nat)) =~= old(s)@ + seq![digit_char(n as nat)]);
        } else {
            assert(decimal(n as nat) == decimal((n / 10) as nat).push(digit_char((n % 10) as nat)));
            assert((old(s)@ + decimal((n / 10) as nat)).push(digit_char((n % 10) as nat))
                =~= old(s)@ + decimal((n / 10) as nat).push(digit_char((n % 10) as nat)));
        }
    }
}

/// `n` in decimal as a new string.
pub fn decimal_string(n: u64) -> (r: String)
    ensures
        r@ == decimal(n as nat),
{
    let mut s = String::new();
    push_decimal(&mut s, n);
    assert(Seq::<char>::empty() + decimal(n as nat) =~= decimal(n as nat));
    s
}

/// How many digits `n` has in decimal.
pub fn digit_count(n: u64) -> (count: usize)
    ensures
        count as nat == decimal(n as nat).len(),
        1 <= count <= 20,
    decreases n,
{
    proof {
        lemma_decimal_len_bound(n as nat);
    }
    if n < 10 {
        1
    } else {
        let inner = digit_count(n / 10);
        proof {
            lemma_decimal_len_bound((n / 10) as nat);
        }
        inner + 1
    }
}

/// Appends `n` in decimal, zero-padded to at least `width` digits.
pub fn push_padded(s: &mut String, n: u64, width: usize)
    ensures
        final(s)@ == old(s)@ + padded(n as nat, width as nat),
{
    let count = digit_count(n);
    let mut written: usize = count;
    let ghost start = s@;
    while written < width
        invariant
            count <= written,
            count as nat == decimal(n as nat).len(),
            written <= width || written == count,
            s@ == start + zeros((written - count) as nat),
        decreases width - written,
    {
        proof { reveal_strlit("0"); }
        s.append("0");
        assert(start + zeros((written - count) as nat) + "0"@ =~= start + zeros(
            (written + 1 - count) as nat,
        ));
        written = written + 1;
    }
    push_decimal(s, n);
    proof {
        if decimal(n as nat).len() < width {
            assert(written == width);
            assert(s@ =~= start + (zeros((width - decimal(n as nat).len()) as nat) + decimal(
                n as nat,
            )));
        } else {
            assert(written == count);
            assert(zeros(0) =~= Seq::<char>::empty());
            assert(s@ =~= start + decimal(n as nat));
        }
    }
}

/// Appends a count of millionths with exactly six decimals, the way `{:.6}`
/// writes the value it stands for.
pub fn push_fixed6(s: &mut String, millionths: u64)
    ensures
        final(s)@ == old(s)@ + fixed6(millionths as nat),
{
    let ghost start = s@;
    push_decimal(s, millionths / 1_000_000);
    proof { reveal_strlit("."); }
    s.append(".");
    push_padded(s, millionths % 1_000_000, 6);
    assert(s@ =~= start + fixed6(millionths as nat));
}

/// Appends a run of zeros.
pub fn push_zeros(s: &mut String, count: usize)
    ensures
        final(s)@ == old(s)@ + zeros(count as nat),
{
    let ghost start = s@;
    let mut i: usize = 0;
    while i < count
        invariant
            i <= count,
            s@ == start + zeros(i as nat),
        decreases count - i,
    {
        proof { reveal_strlit("0"); }
        s.append("0");
        assert(start + zeros(i as nat) + "0"@ =~= start + zeros((i + 1) as nat));
        i = i + 1;
    }
}

} // verus!
