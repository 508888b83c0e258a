//! Decimal text of integers and its grouping into thousands.

use vstd::prelude::*;

verus! {

/// The decimal digit character for `d` (`0 <= d < 10`).
pub open spec fn digit_char(d: int) -> char {
    (48 + d) as char
}

/// A character among `'0'..='9'`.
pub open spec fn is_digit(c: char) -> bool {
    '0' <= c && c <= '9'
}

/// The decimal text of `n`: no sign, no leading zeros, `"0"` for zero.
pub open spec fn decimal(n: nat) -> Seq<char>
    decreases n,
{
    if n < 10 {
        seq![digit_char(n as int)]
    } else {
        decimal(n / 10).push(digit_char((n % 10) as int))
    }
}

/// The number that a text of decimal digits reads as.
pub open spec fn decimal_value(s: Seq<char>) -> int
    decreases s.len(),
{
    if s.len() == 0 {
        0
    } else {
        decimal_value(s.drop_last()) * 10 + ((s.last() as int) - 48)
    }
}

/// `digits` with a comma put before each group of three, counted from the right.
pub open spec fn group_thousands(digits: Seq<char>) -> Seq<char>
    decreases digits.len(),
{
    if digits.len() <= 3 {
        digits
    } else {
        group_thousands(digits.take(digits.len() - 3)) + seq![','] + digits.skip(
            digits.len() - 3,
        )
    }
}

/// `s` with its commas taken out.
pub open spec fn without_commas(s: Seq<char>) -> Seq<char> {
    s.filter(|c: char| c != ',')
}

/// `s` with spaces put in front until it is at least `width` long.
pub open spec fn pad_left(s: Seq<char>, width: nat) -> Seq<char> {
    if s.len() >= width {
        s
    } else {
        Seq::new((width - s.len()) as nat, |i: int| ' ') + s
    }
}

/// The decimal text is made of digits only and is not empty.
pub proof fn lemma_decimal_digits(n: nat)
    ensures
        decimal(n).len() >= 1,
        forall|i: int| 0 <= i < decimal(n).len() ==> is_digit(#[trigger] decimal(n)[i]),
    decreases n,
{
    if n >= 10 {
        lemma_decimal_digits(n / 10);
    }
}

/// The decimal text of `n` reads back as `n`.
pub proof fn lemma_decimal_value(n: nat)
    ensures
        decimal_value(decimal(n)) == n,
    decreases n,
{
    reveal_with_fuel(decimal_value, 2);
    if n >= 10 {
        lemma_decimal_value(n / 10);
        let d = decimal(n);
        assert(d.drop_last() == decimal(n / 10));
        assert(d.last() == digit_char((n % 10) as int));
        assert((n / 10) * 10 + n % 10 == n) by (nonlinear_arith);
    }
}

/// Taking the commas out of a grouped text of digits gives the digits back.
pub proof fn lemma_group_thousands_without_commas(digits: Seq<char>)
    requires
        forall|i: int| 0 <= i < digits.len() ==> is_digit(#[trigger] digits[i]),
    ensures
        without_commas(group_thousands(digits)) == digits,
    decreases digits.len(),
{
    let keep = |c: char| c != ',';
    if digits.len() <= 3 {
        lemma_filter_keeps_all(digits, keep);
    } else {
        let head = digits.take(digits.len() - 3);
        let tail = digits.skip(digits.len() - 3);
        lemma_group_thousands_without_commas(head);
        let g = group_thousands(head);
        assert(group_thousands(digits) == g + seq![','] + tail);
        Seq::filter_distributes_over_add(g + seq![','], tail, keep);
        Seq::filter_distributes_over_add(g, seq![','], keep);
        reveal_with_fuel(Seq::filter, 2);
        assert(seq![','].filter(keep) =~= Seq::<char>::empty());
        lemma_filter_keeps_all(tail, keep);
        assert(head + tail =~= digits);
    }
}

/// A filter that keeps every element of `s` gives `s`.
proof fn lemma_filter_keeps_all(s: Seq<char>, keep: spec_fn(char) -> bool)
    requires
        forall|i: int| 0 <= i < s.len() ==> keep(#[trigger] s[i]),
    ensures
        s.filter(keep) == s,
    decreases s.len(),
{
    reveal_with_fuel(Seq::filter, 1);
    if s.len() > 0 {
        lemma_filter_keeps_all(s.drop_last(), keep);
        assert(s.drop_last().push(s.last()) =~= s);
    }
}

/// The decimal digits of `n`.
pub fn decimal_chars(n: u64) -> (v: Vec<char>)
    ensures
        v@ == decimal(n as nat),
{
    let mut m: u64 = n;
    let mut v: Vec<char> = Vec::new();
    while m >= 10
        invariant
            decimal(n as nat) == decimal(m as nat) + v@,
        decreases m,
    {
        let d: u8 = (m % 10) as u8;
        let c: char = (48u8 + d) as char;
        assert(decimal(m as nat) == decimal((m / 10) as nat).push(c));
        let ghost old_v = v@;
        v.insert(0, c);
        assert(decimal((m / 10) as nat) + v@ =~= decimal((m / 10) as nat).push(c) + old_v);
        m = m / 10;
    }
    let d: u8 = m as u8;
    let c: char = (48u8 + d) as char;
    let ghost old_v = v@;
    v.insert(0, c);
    assert(decimal(m as nat) + old_v =~= v@);
    v
}

/// The decimal text of `n` as a `String`.
pub fn decimal_string(n: u64) -> (s: String)
    ensures
        s@ == decimal(n as nat),
{
    let v = decimal_chars(n);
    crate::text::string_of(&v)
}

/// `n` in decimal with a comma before every group of three digits from the right,
/// as in `1,234,567`.
pub fn format_with_commas(n: u64) -> (s: String)
    ensures
        s@ == group_thousands(decimal(n as nat)),
        decimal_value(without_commas(s@)) == n,
        s@.len() == decimal(n as nat).len() + (decimal(n as nat).len() - 1) / 3,
        forall|k: int| 0 <= k < s@.len() ==> ((s@[s@.len() - 1 - k] == ',') <==> #[trigger] (k % 4) == 3),
{
    proof {
        law_commas_read_back(n as nat);
        lemma_decimal_digits(n as nat);
        law_commas_every_three_from_right(decimal(n as nat));
    }
    let d = decimal_chars(n);
    let mut k: usize = d.len();
    let mut out: Vec<char> = Vec::new();
    assert(d@.take(k as int) == d@);
    assert(out@ =~= Seq::<char>::empty());
    while k > 3
        invariant
            k <= d.len(),
            group_thousands(d@) == group_thousands(d@.take(k as int)) + out@,
        decreases k,
    {
        let ghost old_out = out@;
        let ghost pre = d@.take(k as int);
        assert(pre.take(k - 3) == d@.take(k - 3));
        assert(pre.skip(k - 3) =~= seq![d@[k - 3], d@[k - 2], d@[k - 1]]);
        out.insert(0, d[k - 1]);
        out.insert(0, d[k - 2]);
        out.insert(0, d[k - 3]);
        out.insert(0, ',');
        assert(out@ =~= seq![','] + pre.skip(k - 3) + old_out);
        assert(group_thousands(pre) == group_thousands(pre.take(k - 3)) + seq![','] + pre.skip(k - 3));
        assert(group_thousands(d@.take(k - 3)) + out@ =~= group_thousands(pre) + old_out);
        k = k - 3;
    }
    let ghost rest = out@;
    let mut i: usize = k;
    while i > 0
        invariant
            i <= k <= 3,
            k <= d.len(),
            out@ == d@.subrange(i as int, k as int) + rest,
        decreases i,
    {
        let ghost before = out@;
        out.insert(0, d[i - 1]);
        assert(out@ =~= d@.subrange(i - 1, k as int) + rest);
        i = i - 1;
    }
    assert(d@.subrange(0, k as int) == d@.take(k as int));
    assert(group_thousands(d@.take(k as int)) == d@.take(k as int));
    crate::text::string_of(&out)
}

/// `s` with spaces put in front until it is at least `width` characters long.
pub fn pad_left_chars(s: &Vec<char>, width: usize) -> (r: Vec<char>)
    ensures
        r@ == pad_left(s@, width as nat),
{
    let mut r: Vec<char> = Vec::new();
    if s.len() < width {
        let fill = width - s.len();
        let mut i: usize = 0;
        while i < fill
            invariant
                i <= fill,
                r@ == Seq::new(i as nat, |j: int| ' '),
            decreases fill - i,
        {
            r.push(' ');
            i = i + 1;
            assert(r@ =~= Seq::new(i as nat, |j: int| ' '));
        }
    }
    let mut j: usize = 0;
    let ghost fill_seq = r@;
    while j < s.len()
        invariant
            j <= s.len(),
            r@ == fill_seq + s@.take(j as int),
        decreases s.len() - j,
    {
        r.push(s[j]);
        assert(s@.take(j + 1) == s@.take(j as int).push(s@[j as int]));
        j = j + 1;
    }
    assert(s@.take(s@.len() as int) == s@);
    assert(r@ =~= pad_left(s@, width as nat));
    r
}

/// Law: the text `format_with_commas` gives for `n`, with its commas taken out,
/// is the decimal text of `n` and reads back as `n`.
pub proof fn law_commas_read_back(n: nat)
    ensures
        without_commas(group_thousands(decimal(n))) == decimal(n),
        decimal_value(without_commas(group_thousands(decimal(n)))) == n,
{
    lemma_decimal_digits(n);
    lemma_group_thousands_without_commas(decimal(n));
    lemma_decimal_value(n);
}

/// Law: in the grouped text of a non-empty run of digits, counting from the right end
/// (position 0 is the last character), a comma stands exactly at the positions 3, 7, 11,
/// ...: every comma has three digits after it before the next comma or the end, and the
/// text is one comma longer than the digits for every full group of three past the first
/// digit.
pub proof fn law_commas_every_three_from_right(digits: Seq<char>)
    requires
        digits.len() >= 1,
        forall|i: int| 0 <= i < digits.len() ==> is_digit(#[trigger] digits[i]),
    ensures
        group_thousands(digits).len() == digits.len() + (digits.len() - 1) / 3,
        forall|k: int|
            0 <= k < group_thousands(digits).len() ==> ((group_thousands(digits)[group_thousands(
                digits,
            ).len() - 1 - k] == ',') <==> #[trigger] (k % 4) == 3),
    decreases digits.len(),
{
    let g = group_thousands(digits);
    if digits.len() <= 3 {
        assert forall|k: int| 0 <= k < g.len() implies ((g[g.len() - 1 - k] == ',') <==> #[trigger] (
        k % 4) == 3) by {
            assert(is_digit(digits[digits.len() - 1 - k]));
        }
    } else {
        let n = digits.len();
        let head = digits.take(n - 3);
        let tail = digits.skip(n - 3);
        assert forall|i: int| 0 <= i < head.len() implies is_digit(#[trigger] head[i]) by {
            assert(head[i] == digits[i]);
        }
        law_commas_every_three_from_right(head);
        let gh = group_thousands(head);
        assert(g == gh + seq![','] + tail);
        assert(g.len() == gh.len() + 4);
        assert forall|k: int| 0 <= k < g.len() implies ((g[g.len() - 1 - k] == ',') <==> #[trigger] (
        k % 4) == 3) by {
            if k < 3 {
                assert(g[g.len() - 1 - k] == tail[2 - k]);
                assert(tail[2 - k] == digits[n - 1 - k]);
                assert(is_digit(digits[n - 1 - k]));
            } else if k == 3 {
                assert(g[g.len() - 1 - k] == ',');
            } else {
                let k2 = k - 4;
                assert(g[g.len() - 1 - k] == gh[gh.len() - 1 - k2]);
                assert((k2 % 4 == 3) <==> (k % 4 == 3));
                assert((gh[gh.len() - 1 - k2] == ',') <==> (k2 % 4) == 3);
            }
        }
    }
}

/// Law: padding on the left gives a text at least `width` long that ends with `s` and
/// has only spaces before it.
pub proof fn law_pad_left(s: Seq<char>, width: nat)
    ensures
        pad_left(s, width).len() == if s.len() >= width {
            s.len()
        } else {
            width
        },
        pad_left(s, width).skip(pad_left(s, width).len() - s.len()) == s,
        forall|i: int|
            0 <= i < pad_left(s, width).len() - s.len() ==> #[trigger] pad_left(s, width)[i] == ' ',
{
    let p = pad_left(s, width);
    assert(p.skip(p.len() - s.len()) =~= s);
}

} // verus!
