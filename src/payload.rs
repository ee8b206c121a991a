use vstd::prelude::*;
use crate::quotes::Quote;

verus! {

pub open spec fn is_digit(c: char) -> bool {
    48 <= (c as u32) <= 57
}

/// The value of a run of decimal digits.
pub open spec fn digits_value(s: Seq<char>) -> int
    decreases s.len(),
{
    if s.len() == 0 {
        0
    } else {
        digits_value(s.drop_last()) * 10 + ((s.last() as u32) - 48)
    }
}

/// The digits of a month label: all of it, or what follows a leading `+`.
pub open spec fn label_digits(s: Seq<char>) -> Seq<char> {
    if s.len() > 0 && s[0] == '+' {
        s.drop_first()
    } else {
        s
    }
}

/// The month a label names: a decimal number from 1 to 12.
pub open spec fn month_number_of(s: Seq<char>) -> Option<int> {
    let d = label_digits(s);
    if d.len() > 0 && (forall|i: int| 0 <= i < d.len() ==> is_digit(d[i])) && 1 <= digits_value(d) <= 12 {
        Some(digits_value(d))
    } else {
        None
    }
}

/// The name of each month, from 1 for January to 12 for December.
pub open spec fn month_name_of(n: int) -> Seq<char> {
    if n == 1 { "January"@ }
    else if n == 2 { "February"@ }
    else if n == 3 { "March"@ }
    else if n == 4 { "April"@ }
    else if n == 5 { "May"@ }
    else if n == 6 { "June"@ }
    else if n == 7 { "July"@ }
    else if n == 8 { "August"@ }
    else if n == 9 { "September"@ }
    else if n == 10 { "October"@ }
    else if n == 11 { "November"@ }
    else { "December"@ }
}

proof fn lemma_digits_grow(s: Seq<char>)
    requires
        s.len() > 0,
        is_digit(s.last()),
        digits_value(s.drop_last()) >= 0,
    ensures
        digits_value(s) >= digits_value(s.drop_last()),
{
    let v = digits_value(s.drop_last());
    assert(v * 10 >= v) by (nonlinear_arith)
        requires v >= 0;
}

/// Reads a month label as its number from 1 to 12.
pub fn month_number(s: &str) -> (r: Option<usize>)
    ensures
        match month_number_of(s@) {
            Some(n) => r == Some(n as usize),
            None => r is None,
        },
{
    let len = s.unicode_len();
    let mut start: usize = 0;
    if len > 0 && s.get_char(0) == '+' {
        start = 1;
    }
    let ghost d = label_digits(s@);
    assert(d =~= s@.subrange(start as int, len as int));
    if start >= len {
        return None;
    }
    // The value read so far, or 13 once it is past 12.
    let mut value: usize = 0;
    let mut i: usize = start;
    while i < len
        invariant
            start <= i <= len,
            len == s@.len(),
            d =~= s@.subrange(start as int, len as int),
            d == label_digits(s@),
            forall|k: int| start <= k < i ==> is_digit(s@[k]),
            digits_value(s@.subrange(start as int, i as int)) >= 0,
            digits_value(s@.subrange(start as int, i as int)) <= 12 ==> value
                == digits_value(s@.subrange(start as int, i as int)),
            digits_value(s@.subrange(start as int, i as int)) > 12 ==> value == 13,
        decreases len - i,
    {
        let c = s.get_char(i);
        let code = c as u32;
        if code < 48 || code > 57 {
            assert(!is_digit(d[i - start]));
            assert(!(forall|k: int| 0 <= k < d.len() ==> is_digit(d[k])));
            return None;
        }
        let ghost prev = s@.subrange(start as int, i as int);
        let ghost next = s@.subrange(start as int, i + 1);
        assert(next.drop_last() =~= prev);
        proof {
            lemma_digits_grow(next);
        }
        if value <= 12 {
            value = value * 10 + (code - 48) as usize;
            if value > 12 {
                value = 13;
            }
        }
        i += 1;
    }
    assert(s@.subrange(start as int, len as int) =~= d);
    if value >= 1 && value <= 12 {
        Some(value)
    } else {
        None
    }
}

/// The name of the month that a label names.
pub fn month_name(month: &str) -> (r: Option<&'static str>)
    ensures
        match month_number_of(month@) {
            Some(n) => r is Some && r->Some_0@ == month_name_of(n),
            None => r is None,
        },
{
    match month_number(month) {
        Some(n) => Some(
            if n == 1 { "January" }
            else if n == 2 { "February" }
            else if n == 3 { "March" }
            else if n == 4 { "April" }
            else if n == 5 { "May" }
            else if n == 6 { "June" }
            else if n == 7 { "July" }
            else if n == 8 { "August" }
            else if n == 9 { "September" }
            else if n == 10 { "October" }
            else if n == 11 { "November" }
            else { "December" }
        ),
        None => None,
    }
}

/// The footer shown under a quote: its month's name and its year.
pub fn footer_text(quote: &Quote) -> (r: String)
    requires
        month_number_of(quote.month@) is Some,
    ensures
        r@ == "Arraying, "@ + month_name_of(month_number_of(quote.month@)->Some_0) + " "@ + quote.year@,
{
    let name = month_name(quote.month.as_str()).unwrap();
    String::from_str("Arraying, ").concat(name).concat(" ").concat(quote.year.as_str())
}

} // verus!
