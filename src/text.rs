use vstd::prelude::*;

verus! {

/// The decimal digit character for `d < 10`.
pub open spec fn digit_char(d: int) -> char {
    (d + 48) as char
}

pub open spec fn is_digit(c: char) -> bool {
    48 <= (c as int) <= 57
}

pub open spec fn digit_value(c: char) -> int {
    (c as int) - 48
}

/// Decimal text of `n`, left-padded with zeros to at least `width` characters.
pub open spec fn padded_decimal(n: nat, width: nat) -> Seq<char>
    decreases n + width,
{
    if n < 10 && width <= 1 {
        seq![digit_char(n as int)]
    } else {
        let w: nat = if width > 0 { (width - 1) as nat } else { 0 };
        padded_decimal(n / 10, w).push(digit_char((n % 10) as int))
    }
}

pub open spec fn all_digits(t: Seq<char>) -> bool {
    forall|i: int| 0 <= i < t.len() ==> is_digit(#[trigger] t[i])
}

/// The number that a string of decimal digits denotes.
pub open spec fn digits_value(t: Seq<char>) -> int
    decreases t.len(),
{
    if t.len() == 0 {
        0
    } else {
        digits_value(t.drop_last()) * 10 + digit_value(t.last())
    }
}

pub open spec fn pow10(k: nat) -> int
    decreases k,
{
    if k == 0 {
        1
    } else {
        10 * pow10((k - 1) as nat)
    }
}

/// Relies on `String::push`: appends one character.
#[verifier::external_body]
pub(crate) fn push_char(s: &mut String, c: char)
    ensures
        final(s)@ == old(s)@.push(c),
{
    s.push(c)
}

fn exec_digit_char(d: usize) -> (c: char)
    requires
        d < 10,
    ensures
        c == digit_char(d as int),
{
    let c = if d == 0 {
        '0'
    } else if d == 1 {
        '1'
    } else if d == 2 {
        '2'
    } else if d == 3 {
        '3'
    } else if d == 4 {
        '4'
    } else if d == 5 {
        '5'
    } else if d == 6 {
        '6'
    } else if d == 7 {
        '7'
    } else if d == 8 {
        '8'
    } else {
        '9'
    };
    c
}

/// Appends the decimal text of `n`, zero-padded to `width` characters.
pub(crate) fn push_padded_decimal(s: &mut String, n: usize, width: usize)
    ensures
        final(s)@ == old(s)@ + padded_decimal(n as nat, width as nat),
    decreases n + width,
{
    if !(n < 10 && width <= 1) {
        let w: usize = if width > 0 { width - 1 } else { 0 };
        push_padded_decimal(s, n / 10, w);
    }
    push_char(s, exec_digit_char(n % 10));
    proof {
        assert(final(s)@ =~= old(s)@ + padded_decimal(n as nat, width as nat));
    }
}

/// Whether `c` is a decimal digit, and its value.
pub(crate) fn exec_digit_value(c: char) -> (r: Option<usize>)
    ensures
        r is Some <==> is_digit(c),
        r is Some ==> r->Some_0 == digit_value(c) && r->Some_0 < 10,
{
    let v = c as u32;
    if 48 <= v && v <= 57 {
        Some((v - 48) as usize)
    } else {
        None
    }
}

pub proof fn lemma_padded_decimal_exact(n: nat, width: nat)
    requires
        width >= 1,
        n < pow10(width),
    ensures
        padded_decimal(n, width).len() == width,
        all_digits(padded_decimal(n, width)),
        digits_value(padded_decimal(n, width)) == n,
    decreases width,
{
    let p = padded_decimal(n, width);
    if n < 10 && width <= 1 {
        assert(p.drop_last() =~= Seq::<char>::empty());
        assert(digit_value(digit_char(n as int)) == n);
        assert(digits_value(p.drop_last()) == 0);
        assert(digits_value(p) == n);
    } else {
        let w: nat = (width - 1) as nat;
        assert(width > 1) by {
            if width == 1 {
                assert(pow10(1) == 10 * pow10(0));
            }
        }
        assert(n / 10 < pow10(w)) by {
            assert(pow10(width) == 10 * pow10(w));
        }
        lemma_padded_decimal_exact(n / 10, w);
        let q = padded_decimal(n / 10, w);
        assert(p == q.push(digit_char((n % 10) as int)));
        assert(p.drop_last() =~= q);
        assert(digit_value(digit_char((n % 10) as int)) == n % 10);
        assert(n == (n / 10) * 10 + n % 10);
        assert(digits_value(p) == digits_value(q) * 10 + digit_value(p.last()));
        assert(all_digits(p)) by {
            assert forall|i: int| 0 <= i < p.len() implies is_digit(#[trigger] p[i]) by {
                if i < q.len() {
                    assert(p[i] == q[i]);
                }
            }
        }
    }
}

pub proof fn lemma_digits_value_bound(t: Seq<char>)
    requires
        all_digits(t),
    ensures
        0 <= digits_value(t) < pow10(t.len()),
    decreases t.len(),
{
    if t.len() > 0 {
        let u = t.drop_last();
        assert(all_digits(u)) by {
            assert forall|i: int| 0 <= i < u.len() implies is_digit(#[trigger] u[i]) by {
                assert(u[i] == t[i]);
            }
        }
        lemma_digits_value_bound(u);
        assert(is_digit(t[t.len() - 1]));
        assert(pow10(t.len()) == 10 * pow10(u.len()));
    }
}

/// Reads the digits `s[from..to]` as a number; `None` when one of them is no digit.
pub(crate) fn parse_digits(s: &str, from: usize, to: usize) -> (r: Option<usize>)
    requires
        from <= to <= s@.len(),
        to - from <= 4,
    ensures
        r is Some <==> all_digits(s@.subrange(from as int, to as int)),
        r is Some ==> r->Some_0 == digits_value(s@.subrange(from as int, to as int)),
{
    let ghost t = s@.subrange(from as int, to as int);
    let mut val: usize = 0;
    let mut i: usize = from;
    while i < to
        invariant
            from <= i <= to,
            to <= s@.len(),
            to - from <= 4,
            t == s@.subrange(from as int, to as int),
            all_digits(s@.subrange(from as int, i as int)),
            val == digits_value(s@.subrange(from as int, i as int)),
        decreases to - i,
    {
        let c = s.get_char(i);
        match exec_digit_value(c) {
            None => {
                proof {
                    assert(t[i - from] == c);
                }
                return None;
            },
            Some(d) => {
                let ghost u = s@.subrange(from as int, i as int);
                let ghost u1 = s@.subrange(from as int, i + 1);
                proof {
                    lemma_digits_value_bound(u);
                    assert(pow10(u.len()) <= 1000) by {
                        reveal_with_fuel(pow10, 4);
                    }
                    assert(u1.drop_last() =~= u);
                    assert(all_digits(u1)) by {
                        assert forall|k: int| 0 <= k < u1.len() implies is_digit(#[trigger] u1[k]) by {
                            if k < u.len() {
                                assert(u1[k] == u[k]);
                            }
                        }
                    }
                }
                val = val * 10 + d;
                i = i + 1;
            },
        }
    }
    Some(val)
}

} // verus!
