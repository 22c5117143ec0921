use vstd::prelude::*;

verus! {

pub open spec fn is_decimal_digit(c: char) -> bool {
    48 <= c as u32 <= 57
}

/// The digits of a number: all that follows a leading `+`, or the whole text.
pub open spec fn unsigned_digits(s: Seq<char>) -> Seq<char> {
    if s.len() > 0 && s[0] == '+' {
        s.skip(1)
    } else {
        s
    }
}

/// The value of a string of decimal digits, most significant first.
pub open spec fn decimal_value(d: Seq<char>) -> nat
    decreases d.len(),
{
    if d.len() == 0 {
        0
    } else {
        decimal_value(d.drop_last()) * 10 + ((d.last() as u32) - 48) as nat
    }
}

/// The number that a text reads as in base ten: an optional `+`, then one
/// digit or more, and a value that fits in a `u32`.
pub open spec fn number_of(s: Seq<char>) -> Option<u32> {
    let d = unsigned_digits(s);
    if d.len() > 0 && (forall|i: int| 0 <= i < d.len() ==> is_decimal_digit(#[trigger] d[i]))
        && decimal_value(d) <= u32::MAX {
        Some(decimal_value(d) as u32)
    } else {
        None
    }
}

/// The number that `text` reads as in base ten, as `number_of` states it.
pub fn parse_number(text: &str) -> (r: Option<u32>)
    ensures
        r == number_of(text@),
{
    let n: usize = text.unicode_len();
    let start: usize = if n > 0 && text.get_char(0) == '+' { 1 } else { 0 };
    let ghost d: Seq<char> = unsigned_digits(text@);
    assert(d =~= text@.skip(start as int));
    if start == n {
        return None;
    }
    let mut acc: u64 = 0;
    let mut overflow: bool = false;
    let mut i: usize = start;
    while i < n
        invariant
            start <= i <= n,
            n == text@.len(),
            d == text@.skip(start as int),
            d == unsigned_digits(text@),
            forall|j: int| 0 <= j < i - start ==> is_decimal_digit(#[trigger] d[j]),
            !overflow ==> acc == decimal_value(d.take(i - start)) && acc <= u32::MAX,
            overflow ==> decimal_value(d.take(i - start)) > u32::MAX,
        decreases n - i,
    {
        let c: char = text.get_char(i);
        assert(d[i - start] == c);
        if !(48 <= c as u32 && c as u32 <= 57) {
            let ghost k: int = i - start;
            assert(!is_decimal_digit(d[k]));
            assert(!(forall|j: int| 0 <= j < d.len() ==> is_decimal_digit(#[trigger] d[j])));
            return None;
        }
        let ghost k: int = i - start;
        assert(d.take(k + 1).drop_last() =~= d.take(k));
        assert(d.take(k + 1).last() == c);
        proof {
            if overflow {
                assert(decimal_value(d.take(k + 1)) >= decimal_value(d.take(k))) by (nonlinear_arith)
                    requires
                        decimal_value(d.take(k + 1)) == decimal_value(d.take(k)) * 10 + ((c as u32) - 48) as nat,
                ;
            }
        }
        if !overflow {
            acc = acc * 10 + (c as u32 - 48) as u64;
            if acc > 4294967295 {
                overflow = true;
            }
        }
        i = i + 1;
    }
    assert(d.take(i - start) =~= d);
    if overflow {
        None
    } else {
        Some(acc as u32)
    }
}

} // verus!
