use vstd::prelude::*;

use crate::text::push_char;

verus! {

/// The part of `s` before its first `c`; all of `s` when it holds no `c`.
pub open spec fn before_char(s: Seq<char>, c: char) -> Seq<char>
    decreases s.len(),
{
    if s.len() == 0 {
        s
    } else if s[0] == c {
        Seq::empty()
    } else {
        seq![s[0]] + before_char(s.drop_first(), c)
    }
}

/// The part of `s` after its first `c`; `None` when it holds no `c`.
pub open spec fn after_first_char(s: Seq<char>, c: char) -> Option<Seq<char>>
    decreases s.len(),
{
    if s.len() == 0 {
        None
    } else if s[0] == c {
        Some(s.drop_first())
    } else {
        after_first_char(s.drop_first(), c)
    }
}

/// `t` cut into groups of three characters from the right, each group preceded by a
/// space; a shorter leading group stands first without one.
pub open spec fn spaced_groups(t: Seq<char>) -> Seq<char>
    decreases t.len(),
{
    if t.len() < 3 {
        t
    } else {
        spaced_groups(t.subrange(0, t.len() - 3)) + seq![' '] + t.subrange(
            t.len() - 3,
            t.len() as int,
        )
    }
}

/// A number text with the digits before the decimal point grouped by thousands when
/// there are more than four of them; the decimals, if any, are kept up to a second point.
pub open spec fn spaced_number(s: Seq<char>) -> Seq<char> {
    let integral = before_char(s, '.');
    let grouped = if integral.len() > 4 {
        spaced_groups(integral)
    } else {
        integral
    };
    match after_first_char(s, '.') {
        Some(rest) => grouped + seq!['.'] + before_char(rest, '.'),
        None => grouped,
    }
}

fn exec_before_char(s: &str, c: char) -> (r: String)
    ensures
        r@ == before_char(s@, c),
    decreases s@.len(),
{
    let n = s.unicode_len();
    if n == 0 {
        return String::new();
    }
    let first = s.get_char(0);
    if first == c {
        return String::new();
    }
    let tail = s.substring_char(1, n);
    proof {
        assert(tail@ =~= s@.drop_first());
    }
    let rest = exec_before_char(tail, c);
    let mut r = String::new();
    push_char(&mut r, first);
    r.append(rest.as_str());
    proof {
        assert(r@ =~= seq![first] + rest@);
    }
    r
}

fn exec_after_first_char(s: &str, c: char) -> (r: Option<String>)
    ensures
        r is Some <==> after_first_char(s@, c) is Some,
        r is Some ==> r->Some_0@ == after_first_char(s@, c)->Some_0,
    decreases s@.len(),
{
    let n = s.unicode_len();
    if n == 0 {
        return None;
    }
    let tail = s.substring_char(1, n);
    proof {
        assert(tail@ =~= s@.drop_first());
    }
    if s.get_char(0) == c {
        Some(String::from_str(tail))
    } else {
        exec_after_first_char(tail, c)
    }
}

fn exec_spaced_groups(t: &str) -> (r: String)
    ensures
        r@ == spaced_groups(t@),
    decreases t@.len(),
{
    let n = t.unicode_len();
    if n < 3 {
        return String::from_str(t);
    }
    let head = t.substring_char(0, n - 3);
    let last = t.substring_char(n - 3, n);
    let mut r = exec_spaced_groups(head);
    push_char(&mut r, ' ');
    r.append(last);
    r
}

/// Groups the digits before the decimal point by thousands, separated by spaces, once
/// there are more than four of them.
pub fn space_sep_1000(s: String) -> (r: String)
    ensures
        r@ == spaced_number(s@),
{
    let integral = exec_before_char(s.as_str(), '.');
    let mut grouped = if integral.unicode_len() > 4 {
        exec_spaced_groups(integral.as_str())
    } else {
        integral
    };
    match exec_after_first_char(s.as_str(), '.') {
        Some(rest) => {
            let fractional = exec_before_char(rest.as_str(), '.');
            push_char(&mut grouped, '.');
            grouped.append(fractional.as_str());
            grouped
        },
        None => grouped,
    }
}

} // verus!
