use vstd::prelude::*;

verus! {

/// `c` is one of the ASCII digits `0` to `9`.
pub open spec fn is_digit(c: char) -> bool {
    '0' <= c <= '9'
}

/// The value of an ASCII digit.
pub open spec fn digit_value(c: char) -> int {
    (c as int) - ('0' as int)
}

/// Every character of `d` is an ASCII digit.
pub open spec fn all_digits(d: Seq<char>) -> bool {
    forall|i: int| 0 <= i < d.len() ==> #[trigger] is_digit(d[i])
}

/// The number that the decimal digits `d` denote (most significant first).
pub open spec fn digits_value(d: Seq<char>) -> nat
    decreases d.len(),
{
    if d.len() == 0 {
        0
    } else {
        (digits_value(d.drop_last()) * 10 + digit_value(d.last())) as nat
    }
}

/// The digits of an unsigned number in text form: one leading `+` is allowed and dropped.
pub open spec fn unsigned_digits(t: Seq<char>) -> Seq<char> {
    if t.len() > 0 && t[0] == '+' {
        t.drop_first()
    } else {
        t
    }
}

/// How text reads as an unsigned integer no greater than `max`: an optional `+`, then at
/// least one ASCII digit and nothing else, denoting a value no greater than `max`.
/// Anything else has no value.
pub open spec fn parse_unsigned(t: Seq<char>, max: nat) -> Option<nat> {
    let d = unsigned_digits(t);
    if d.len() > 0 && all_digits(d) && digits_value(d) <= max {
        Some(digits_value(d))
    } else {
        None
    }
}

/// The ASCII digit for `d` (taken modulo ten).
pub open spec fn digit_char(d: nat) -> char {
    let r: nat = d % 10;
    if r == 0 { '0' }
    else if r == 1 { '1' }
    else if r == 2 { '2' }
    else if r == 3 { '3' }
    else if r == 4 { '4' }
    else if r == 5 { '5' }
    else if r == 6 { '6' }
    else if r == 7 { '7' }
    else if r == 8 { '8' }
    else { '9' }
}

/// The shortest decimal text of `n`, without sign or leading zeros.
pub open spec fn decimal(n: nat) -> Seq<char>
    decreases n,
{
    if n < 10 {
        seq![digit_char(n)]
    } else {
        decimal(n / 10).push(digit_char(n % 10))
    }
}

/// Reads `cs[start..end]` as an unsigned integer no greater than `max`.
pub fn parse_unsigned_in(cs: &Vec<char>, start: usize, end: usize, max: u32) -> (r: Option<u32>)
    requires
        start <= end <= cs.len(),
        max < 0x1000_0000,
    ensures
        match r {
            Some(v) => parse_unsigned(cs@.subrange(start as int, end as int), max as nat)
                == Some(v as nat),
            None => parse_unsigned(cs@.subrange(start as int, end as int), max as nat) is None,
        },
{
    let ghost t = cs@.subrange(start as int, end as int);
    let mut p: usize = start;
    if start < end && cs[start] == '+' {
        p = start + 1;
    }
    assert(unsigned_digits(t) =~= cs@.subrange(p as int, end as int));
    let mut acc: u32 = 0;
    let mut i: usize = p;
    while i < end
        invariant
            start <= p <= i <= end <= cs.len(),
            max < 0x1000_0000,
            unsigned_digits(cs@.subrange(start as int, end as int)) == cs@.subrange(p as int, end as int),
            acc <= max + 1,
            all_digits(cs@.subrange(p as int, i as int)),
            acc as int == if digits_value(cs@.subrange(p as int, i as int)) <= max + 1 {
                digits_value(cs@.subrange(p as int, i as int)) as int
            } else {
                max + 1
            },
        decreases end - i,
    {
        let c = cs[i];
        if !('0' <= c && c <= '9') {
            assert(!all_digits(cs@.subrange(p as int, end as int))) by {
                assert(cs@.subrange(p as int, end as int)[i - p] == c);
                assert(!is_digit(cs@.subrange(p as int, end as int)[i - p]));
            }
            return None;
        }
        let d: u32 = (c as u32) - ('0' as u32);
        let ghost prev = cs@.subrange(p as int, i as int);
        let ghost next = cs@.subrange(p as int, i + 1);
        assert(next.drop_last() =~= prev);
        assert(next.last() == c);
        let v: u32 = acc * 10 + d;
        acc = if v > max + 1 { max + 1 } else { v };
        i = i + 1;
        assert(all_digits(next)) by {
            assert forall|k: int| 0 <= k < next.len() implies #[trigger] is_digit(next[k]) by {
                if k < prev.len() {
                    assert(next[k] == prev[k]);
                }
            }
        }
    }
    if p == end || acc > max {
        None
    } else {
        Some(acc)
    }
}

/// The one-character text of the digit `d`.
fn digit_text(d: u32) -> (r: &'static str)
    requires
        d < 10,
    ensures
        r@ == seq![digit_char(d as nat)],
{
    proof {
        reveal_strlit("0");
        reveal_strlit("1");
        reveal_strlit("2");
        reveal_strlit("3");
        reveal_strlit("4");
        reveal_strlit("5");
        reveal_strlit("6");
        reveal_strlit("7");
        reveal_strlit("8");
        reveal_strlit("9");
    }
    match d {
        0 => "0",
        1 => "1",
        2 => "2",
        3 => "3",
        4 => "4",
        5 => "5",
        6 => "6",
        7 => "7",
        8 => "8",
        _ => "9",
    }
}

/// Writes `n` in decimal, as `{}` formats an unsigned integer.
pub fn decimal_text(n: u32) -> (r: String)
    ensures
        r@ == decimal(n as nat),
        r@.len() > 0,
        all_digits(r@),
        digits_value(r@) == n,
        r@.len() == 1 || r@[0] != '0',
    decreases n,
{
    proof {
        lemma_decimal_digits(n as nat);
        decimal_is_shortest(n as nat);
    }
    if n < 10 {
        digit_text(n).to_owned()
    } else {
        let mut r = decimal_text(n / 10);
        r.append(digit_text(n % 10));
        r
    }
}

/// The decimal text of a number has no leading zero: it is `0` itself or starts with a
/// nonzero digit.
pub proof fn decimal_is_shortest(n: nat)
    ensures
        decimal(n).len() == 1 || decimal(n)[0] != '0',
    decreases n,
{
    if n >= 10 {
        let m = n / 10;
        let p = decimal(m);
        lemma_decimal_digits(m);
        assert(decimal(n)[0] == p[0]);
        if m < 10 {
            assert(m % 10 == m);
            assert(p[0] == digit_char(m));
            assert(p[0] != '0');
        } else {
            decimal_is_shortest(m);
            lemma_decimal_digits(m / 10);
            assert(p.len() > 1);
        }
    }
}

/// A digit string's value is at least its leading digit's.
proof fn lemma_value_at_least_lead(d: Seq<char>)
    requires
        d.len() > 0,
        all_digits(d),
    ensures
        digits_value(d) >= digit_value(d[0]),
    decreases d.len(),
{
    if d.len() > 1 {
        let p = d.drop_last();
        assert(is_digit(d[0]));
        assert(is_digit(d.last()));
        assert forall|i: int| 0 <= i < p.len() implies #[trigger] is_digit(p[i]) by {
            assert(p[i] == d[i]);
        }
        lemma_value_at_least_lead(p);
        assert(p[0] == d[0]);
    } else {
        assert(is_digit(d[0]));
        assert(d.drop_last() =~= Seq::<char>::empty());
    }
}

/// The digit for the value of an ASCII digit is that digit.
proof fn lemma_digit_char_of_value(c: char)
    requires
        is_digit(c),
    ensures
        digit_char(digit_value(c) as nat) == c,
        0 <= digit_value(c) < 10,
{
}

/// `decimal(n)` is the only text for `n` that is a nonempty run of digits without a leading
/// zero.
pub proof fn decimal_is_unique(d: Seq<char>, n: nat)
    requires
        d.len() > 0,
        all_digits(d),
        d.len() == 1 || d[0] != '0',
        digits_value(d) == n,
    ensures
        d == decimal(n),
    decreases d.len(),
{
    let c = d.last();
    assert(is_digit(c));
    lemma_digit_char_of_value(c);
    if d.len() == 1 {
        assert(d.drop_last() =~= Seq::<char>::empty());
        assert(digits_value(d) == digits_value(d.drop_last()) * 10 + digit_value(d.last()));
        assert(n == digit_value(c));
        assert(d =~= seq![digit_char(n)]);
    } else {
        let p = d.drop_last();
        assert forall|i: int| 0 <= i < p.len() implies #[trigger] is_digit(p[i]) by {
            assert(p[i] == d[i]);
        }
        assert(p[0] == d[0]);
        lemma_value_at_least_lead(p);
        assert(is_digit(p[0]));
        assert(digit_value(p[0]) >= 1);
        assert(digits_value(d) == digits_value(d.drop_last()) * 10 + digit_value(d.last()));
        assert(n == digits_value(p) * 10 + digit_value(c));
        assert(n / 10 == digits_value(p) && n % 10 == digit_value(c)) by {
            vstd::arithmetic::div_mod::lemma_fundamental_div_mod_converse(
                n as int,
                10,
                digits_value(p) as int,
                digit_value(c),
            );
        }
        decimal_is_unique(p, n / 10);
        assert(d =~= decimal(n / 10).push(digit_char(n % 10)));
    }
}

/// `k` zero digits.
pub open spec fn zeros(k: nat) -> Seq<char> {
    Seq::new(k, |i: int| '0')
}

/// Leading zeros change neither that a text is all digits nor the value it denotes.
proof fn lemma_zeros_prefix_value(k: nat, d: Seq<char>)
    requires
        all_digits(d),
    ensures
        all_digits(zeros(k) + d),
        digits_value(zeros(k) + d) == digits_value(d),
    decreases d.len() + k,
{
    let t = zeros(k) + d;
    assert forall|i: int| 0 <= i < t.len() implies #[trigger] is_digit(t[i]) by {
        if i >= k {
            assert(t[i] == d[i - k]);
        }
    }
    if d.len() == 0 {
        assert(t =~= zeros(k));
        if k > 0 {
            assert(t.drop_last() =~= zeros((k - 1) as nat) + d);
            lemma_zeros_prefix_value((k - 1) as nat, d);
        }
    } else {
        assert(t.drop_last() =~= zeros(k) + d.drop_last());
        assert forall|i: int| 0 <= i < d.drop_last().len() implies #[trigger] is_digit(
            d.drop_last()[i],
        ) by {
            assert(d.drop_last()[i] == d[i]);
        }
        lemma_zeros_prefix_value(k, d.drop_last());
        assert(t.last() == d.last());
    }
}

/// A nonempty run of digits is some leading zeros followed by the decimal text of its value.
proof fn lemma_strip_zeros(d: Seq<char>) -> (k: nat)
    requires
        d.len() > 0,
        all_digits(d),
    ensures
        d == zeros(k) + decimal(digits_value(d)),
    decreases d.len(),
{
    if d.len() == 1 || d[0] != '0' {
        decimal_is_unique(d, digits_value(d));
        assert(d =~= zeros(0) + d);
        0
    } else {
        let r = d.drop_first();
        assert forall|i: int| 0 <= i < r.len() implies #[trigger] is_digit(r[i]) by {
            assert(r[i] == d[i + 1]);
        }
        assert(d =~= zeros(1) + r);
        lemma_zeros_prefix_value(1, r);
        let k = lemma_strip_zeros(r);
        assert(d =~= zeros(k + 1) + decimal(digits_value(r)));
        k + 1
    }
}

/// What reads as a number: some leading zeros (any number of them) and the decimal text of a
/// value no greater than the bound, with or without one `+` in front. Nothing else has a
/// value.
pub proof fn parse_unsigned_reads_decimal(t: Seq<char>, max: nat)
    ensures
        parse_unsigned(t, max) matches Some(v) ==> v <= max && exists|k: nat|
            t == #[trigger] zeros(k) + decimal(v) || t == seq!['+'] + zeros(k) + decimal(v),
{
    if let Some(v) = parse_unsigned(t, max) {
        let d = unsigned_digits(t);
        let k = lemma_strip_zeros(d);
        if t.len() > 0 && t[0] == '+' {
            assert(t =~= seq!['+'] + d);
        }
        assert(t == zeros(k) + decimal(v) || t == seq!['+'] + zeros(k) + decimal(v));
    }
}

/// The decimal text of a value, after any number of leading zeros and with or without one
/// `+`, reads as that value where it is within the bound, and has no value where it is not.
pub proof fn parse_unsigned_of_padded_decimal(v: nat, k: nat, max: nat)
    ensures
        parse_unsigned(zeros(k) + decimal(v), max) == if v <= max {
            Some(v)
        } else {
            None::<nat>
        },
        parse_unsigned(seq!['+'] + zeros(k) + decimal(v), max) == if v <= max {
            Some(v)
        } else {
            None::<nat>
        },
{
    lemma_decimal_digits(v);
    lemma_zeros_prefix_value(k, decimal(v));
    let t = zeros(k) + decimal(v);
    assert(is_digit(t[0]));
    assert(unsigned_digits(t) == t);
    let p = seq!['+'] + zeros(k) + decimal(v);
    assert(p =~= seq!['+'] + t);
    assert(p[0] == '+');
    assert(p.drop_first() =~= t);
    assert(unsigned_digits(p) == t);
}

/// The decimal text of `n` reads back as `n`, under any bound that `n` meets.
pub proof fn decimal_reads_back(n: nat, max: nat)
    requires
        n <= max,
    ensures
        parse_unsigned(decimal(n), max) == Some(n),
{
    lemma_decimal_digits(n);
    assert(is_digit(decimal(n)[0]));
    assert(unsigned_digits(decimal(n)) == decimal(n));
}

/// The decimal text of `n` is a nonempty run of digits denoting `n`.
pub proof fn lemma_decimal_digits(n: nat)
    ensures
        decimal(n).len() > 0,
        all_digits(decimal(n)),
        digits_value(decimal(n)) == n,
    decreases n,
{
    if n < 10 {
        let d = decimal(n);
        assert(digits_value(d) == digits_value(d.drop_last()) * 10 + digit_value(d.last()));
        assert(d.drop_last() =~= Seq::<char>::empty());
    } else {
        lemma_decimal_digits(n / 10);
        let d = decimal(n);
        let p = decimal(n / 10);
        assert(d.drop_last() =~= p);
        assert forall|i: int| 0 <= i < d.len() implies #[trigger] is_digit(d[i]) by {
            if i < p.len() {
                assert(d[i] == p[i]);
            }
        }
    }
}

} // verus!
