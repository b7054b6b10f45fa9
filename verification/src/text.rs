//! Decimal numerals and text comparison.
use vstd::prelude::*;
use vstd::string::*;

verus! {

/// The character of a decimal digit.
pub open spec fn digit_char(d: int) -> char {
    if d == 0 {
        '0'
    } else if d == 1 {
        '1'
    } else if d == 2 {
        '2'
    } else if d == 3 {
        '3'
    } else if d == 4 {
        '4'
    } else if d == 5 {
        '5'
    } else if d == 6 {
        '6'
    } else if d == 7 {
        '7'
    } else if d == 8 {
        '8'
    } else {
        '9'
    }
}

/// Whether `c` is one of the ten decimal digits.
pub open spec fn is_digit(c: char) -> bool {
    c == '0' || c == '1' || c == '2' || c == '3' || c == '4' || c == '5' || c == '6' || c == '7'
        || c == '8' || c == '9'
}

/// The decimal numeral of `n`, without leading zeros.
pub open spec fn decimal(n: nat) -> Seq<char>
    decreases n,
{
    if n < 10 {
        seq![digit_char(n as int)]
    } else {
        decimal(n / 10).push(digit_char((n % 10) as int))
    }
}

/// Distinct digits have distinct characters.
pub proof fn lemma_digit_char_injective(d: int, e: int)
    requires
        0 <= d < 10,
        0 <= e < 10,
        digit_char(d) == digit_char(e),
    ensures
        d == e,
{
}

/// A numeral is a non-empty run of digits.
pub proof fn lemma_decimal_digits(n: nat)
    ensures
        decimal(n).len() >= 1,
        forall|i: int| 0 <= i < decimal(n).len() ==> is_digit(#[trigger] decimal(n)[i]),
    decreases n,
{
    if n >= 10 {
        lemma_decimal_digits(n / 10);
    }
}

/// Distinct numbers have distinct numerals.
pub proof fn lemma_decimal_injective(a: nat, b: nat)
    requires
        decimal(a) == decimal(b),
    ensures
        a == b,
    decreases a,
{
    if a < 10 && b < 10 {
        assert(decimal(a) == seq![digit_char(a as int)]);
        assert(decimal(b) == seq![digit_char(b as int)]);
        assert(decimal(a)[0] == digit_char(a as int));
        assert(decimal(b)[0] == digit_char(b as int));
        lemma_digit_char_injective(a as int, b as int);
    } else if a < 10 {
        lemma_decimal_digits(b / 10);
        assert(decimal(b).len() >= 2);
    } else if b < 10 {
        lemma_decimal_digits(a / 10);
        assert(decimal(a).len() >= 2);
    } else {
        assert(decimal(a) == decimal(a / 10).push(digit_char((a % 10) as int)));
        assert(decimal(b) == decimal(b / 10).push(digit_char((b % 10) as int)));
        assert(decimal(a).last() == digit_char((a % 10) as int));
        assert(decimal(b).last() == digit_char((b % 10) as int));
        assert(decimal(a / 10) == decimal(a).drop_last());
        assert(decimal(b / 10) == decimal(b).drop_last());
        lemma_decimal_injective(a / 10, b / 10);
        lemma_digit_char_injective((a % 10) as int, (b % 10) as int);
    }
}

/// The one-character text of the digit `d`.
fn digit_text(d: u8) -> (s: &'static str)
    requires
        d < 10,
    ensures
        s@ == seq![digit_char(d as int)],
{
    let s = match d {
        0 => "0",
        1 => "1",
        2 => "2",
        3 => "3",
        4 => "4",
        5 => "5",
        6 => "6",
        7 => "7",
        8 => "8",
        _ => "9",
    };
    proof {
        reveal_strlit("0");
        reveal_strlit("1");
        reveal_strlit("2");
        reveal_strlit("3");
        reveal_strlit("4");
        reveal_strlit("5");
        reveal_strlit("6");
        reveal_strlit("7");
        reveal_strlit("8");
        reveal_strlit("9");
    }
    assert(s@ =~= seq![digit_char(d as int)]);
    s
}

/// Appends the decimal numeral of `n` to `out`.
pub fn push_decimal(out: &mut String, n: u8)
    ensures
        final(out)@ == old(out)@ + decimal(n as nat),
{
    proof {
        reveal_with_fuel(decimal, 3);
    }
    let ghost start = out@;
    if n >= 100 {
        out.append(digit_text(n / 100));
    }
    if n >= 10 {
        out.append(digit_text((n / 10) % 10));
    }
    out.append(digit_text(n % 10));
    proof {
        let n_: nat = n as nat;
        if n >= 100 {
            assert(decimal(n_ / 100) == seq![digit_char((n_ / 100) as int)]);
            assert(decimal(n_ / 10) == decimal(n_ / 100).push(digit_char(((n_ / 10) % 10) as int)));
            assert(out@ =~= start + decimal(n_));
        } else if n >= 10 {
            assert(decimal(n_ / 10) == seq![digit_char((n_ / 10) as int)]);
            assert(out@ =~= start + decimal(n_));
        } else {
            assert(out@ =~= start + decimal(n_));
        }
    }
}

/// Whether two texts hold the same characters.
pub fn same_text(a: &str, b: &str) -> (same: bool)
    ensures
        same == (a@ == b@),
{
    let n = a.unicode_len();
    if n != b.unicode_len() {
        return false;
    }
    let mut i: usize = 0;
    while i < n
        invariant
            n == a@.len(),
            n == b@.len(),
            i <= n,
            forall|j: int| 0 <= j < i ==> a@[j] == b@[j],
        decreases n - i,
    {
        if a.get_char(i) != b.get_char(i) {
            return false;
        }
        i = i + 1;
    }
    assert(a@ =~= b@);
    true
}

/// Whether `c` is the hexadecimal digit fifteen, in either case.
pub open spec fn is_hex_f(c: char) -> bool {
    c == 'F' || c == 'f'
}

/// Whether the text holds the escape `%FF`, with each `F` in either case.
pub open spec fn holds_ff_escape(s: Seq<char>) -> bool {
    exists|i: int|
        0 <= i && i + 2 < s.len() && #[trigger] s[i] == '%' && is_hex_f(s[i + 1]) && is_hex_f(
            s[i + 2],
        )
}

/// Whether the text holds the escape `%FF`, with each `F` in either case.
pub fn find_ff_escape(s: &str) -> (found: bool)
    ensures
        found == holds_ff_escape(s@),
{
    let mut prev2: char = ' ';
    let mut prev1: char = ' ';
    for c in it: s.chars()
        invariant
            it.seq() == s@,
            it.index() >= 1 ==> prev1 == s@[it.index() - 1],
            it.index() >= 2 ==> prev2 == s@[it.index() - 2],
            it.index() < 2 ==> prev2 == ' ',
            it.index() < 1 ==> prev1 == ' ',
            !(exists|i: int|
                0 <= i && i + 2 < it.index() && #[trigger] s@[i] == '%' && is_hex_f(s@[i + 1])
                    && is_hex_f(s@[i + 2])),
    {
        if prev2 == '%' && (prev1 == 'F' || prev1 == 'f') && (c == 'F' || c == 'f') {
            return true;
        }
        prev2 = prev1;
        prev1 = c;
    }
    false
}

/// The value that a numeral's text stands for, each character read as the
/// digit whose character code it holds.
pub open spec fn numeral_value(s: Seq<char>) -> int
    decreases s.len(),
{
    if s.len() == 0 {
        0
    } else {
        10 * numeral_value(s.drop_last()) + (s.last() as int - 48)
    }
}

/// Whether every character of the text is an ASCII decimal digit, by its
/// character code.
pub open spec fn ascii_digits(s: Seq<char>) -> bool {
    forall|i: int| 0 <= i < s.len() ==> 48 <= #[trigger] s[i] as int <= 57
}

/// The numeral of `n` is its ordinary decimal writing: ASCII digits, read in
/// base ten, that stand for `n`, with no leading zero.
pub proof fn lemma_decimal_is_standard(n: nat)
    ensures
        ascii_digits(decimal(n)),
        numeral_value(decimal(n)) == n,
        decimal(n).len() >= 1,
        n >= 10 ==> decimal(n)[0] as int != 48,
    decreases n,
{
    let d = decimal(n);
    if n < 10 {
        assert(d == seq![digit_char(n as int)]);
        assert(d.drop_last() =~= Seq::<char>::empty());
        assert(numeral_value(d.drop_last()) == 0);
        assert(d.last() as int - 48 == n);
        assert(numeral_value(d) == 10 * numeral_value(d.drop_last()) + (d.last() as int - 48));
    } else {
        let q = decimal(n / 10);
        lemma_decimal_is_standard(n / 10);
        assert(d == q.push(digit_char((n % 10) as int)));
        assert(d.drop_last() =~= q);
        assert(d.last() as int - 48 == n % 10);
        assert(numeral_value(d) == 10 * numeral_value(q) + (n % 10) as int);
        assert forall|i: int| 0 <= i < d.len() implies 48 <= #[trigger] d[i] as int <= 57 by {
            if i < q.len() {
                assert(d[i] == q[i]);
            }
        }
        if n / 10 >= 10 {
            assert(d[0] == q[0]);
        } else {
            assert(q == seq![digit_char((n / 10) as int)]);
            assert(d[0] == q[0]);
        }
    }
}

} // verus!
