use vstd::prelude::*;

verus! {

/// A digit of radix 16, in either case.
pub open spec fn is_hex_digit(c: char) -> bool {
    let u = c as u32;
    (48 <= u <= 57) || (65 <= u <= 70) || (97 <= u <= 102)
}

/// The value of a digit of radix 16.
pub open spec fn hex_value(c: char) -> int {
    let u = c as u32;
    if u <= 57 {
        u - 48
    } else if u <= 70 {
        u - 55
    } else {
        u - 87
    }
}

/// A group of one or two characters that reads as a signed number of radix
/// 16: a single digit, two digits, or a sign followed by one digit.
pub open spec fn is_group(g: Seq<char>) -> bool {
    ||| g.len() == 1 && is_hex_digit(g[0])
    ||| g.len() == 2 && (is_hex_digit(g[0]) || g[0] == '+' || g[0] == '-') && is_hex_digit(g[1])
}

/// The number that a group reads as.
pub open spec fn group_value(g: Seq<char>) -> int {
    if g.len() == 1 {
        hex_value(g[0])
    } else if g[0] == '-' {
        -hex_value(g[1])
    } else if g[0] == '+' {
        hex_value(g[1])
    } else {
        16 * hex_value(g[0]) + hex_value(g[1])
    }
}

/// The digits of a color code: all that follows a leading `#`, or the whole
/// text where there is none.
pub open spec fn color_body(s: Seq<char>) -> Seq<char> {
    if s.len() > 0 && s[0] == '#' {
        s.skip(1)
    } else {
        s
    }
}

/// Every group of two characters, and a last one of one, reads as a number.
pub open spec fn groups_ok(b: Seq<char>) -> bool
    decreases b.len(),
{
    if b.len() <= 2 {
        b.len() == 0 || is_group(b)
    } else {
        is_group(b.take(2)) && groups_ok(b.skip(2))
    }
}

/// A color code: text that starts with `#`, or is six characters long, whose
/// digits read group by group.
pub open spec fn color_code_ok(s: Seq<char>) -> bool {
    &&& (s.len() > 0 && s[0] == '#') || s.len() == 6
    &&& groups_ok(color_body(s))
}

/// The character of a decimal digit.
pub open spec fn digit_char(d: int) -> char {
    seq!['0', '1', '2', '3', '4', '5', '6', '7', '8', '9'][d]
}

/// The decimal digits of a natural number, without leading zeros.
pub open spec fn decimal_nat(n: nat) -> Seq<char>
    decreases n,
{
    if n < 10 {
        seq![digit_char(n as int)]
    } else {
        decimal_nat(n / 10) + seq![digit_char((n % 10) as int)]
    }
}

/// The decimal text of an integer, with `-` before a negative one.
pub open spec fn decimal(v: int) -> Seq<char> {
    if v < 0 {
        seq!['-'] + decimal_nat((-v) as nat)
    } else {
        decimal_nat(v as nat)
    }
}

/// The decimal values of the groups of `b`, separated by single spaces.
pub open spec fn rgb_text(b: Seq<char>) -> Seq<char>
    decreases b.len(),
{
    if b.len() == 0 {
        Seq::empty()
    } else if b.len() <= 2 {
        decimal(group_value(b))
    } else {
        decimal(group_value(b.take(2))) + seq![' '] + rgb_text(b.skip(2))
    }
}

fn hex_digit(c: char) -> (r: Option<u64>)
    ensures
        r is Some <==> is_hex_digit(c),
        r is Some ==> r->0 == hex_value(c),
{
    let u: u32 = c as u32;
    if 48 <= u && u <= 57 {
        Some((u - 48) as u64)
    } else if 65 <= u && u <= 70 {
        Some((u - 55) as u64)
    } else if 97 <= u && u <= 102 {
        Some((u - 87) as u64)
    } else {
        None
    }
}

fn digit_str(d: u64) -> (r: &'static str)
    requires
        d < 10,
    ensures
        r@ == seq![digit_char(d as int)],
{
    if d == 0 {
        proof { reveal_strlit("0"); }
        "0"
    } else if d == 1 {
        proof { reveal_strlit("1"); }
        "1"
    } else if d == 2 {
        proof { reveal_strlit("2"); }
        "2"
    } else if d == 3 {
        proof { reveal_strlit("3"); }
        "3"
    } else if d == 4 {
        proof { reveal_strlit("4"); }
        "4"
    } else if d == 5 {
        proof { reveal_strlit("5"); }
        "5"
    } else if d == 6 {
        proof { reveal_strlit("6"); }
        "6"
    } else if d == 7 {
        proof { reveal_strlit("7"); }
        "7"
    } else if d == 8 {
        proof { reveal_strlit("8"); }
        "8"
    } else {
        proof { reveal_strlit("9"); }
        "9"
    }
}

/// Appends the decimal text of `v` to `out`.
fn push_decimal(out: &mut String, v: i64)
    requires
        -1000 < v < 1000,
    ensures
        final(out)@ == old(out)@ + decimal(v as int),
{
    let n: u64 = if v < 0 {
        proof { reveal_strlit("-"); }
        out.append("-");
        (-v) as u64
    } else {
        v as u64
    };
    let ghost before: Seq<char> = out@;
    if n >= 100 {
        out.append(digit_str(n / 100));
        out.append(digit_str((n / 10) % 10));
        out.append(digit_str(n % 10));
        proof {
            assert(decimal_nat((n / 10) as nat) == decimal_nat((n / 100) as nat) + seq![digit_char(((n / 10) % 10) as int)]);
        }
    } else if n >= 10 {
        out.append(digit_str(n / 10));
        out.append(digit_str(n % 10));
    } else {
        out.append(digit_str(n));
    }
    assert(out@ =~= before + decimal_nat(n as nat));
    assert(out@ =~= old(out)@ + decimal(v as int));
}

/// Whether `color_code` is a color code that `hex2rgb` can read.
pub fn is_color_code(color_code: &str) -> (r: bool)
    ensures
        r == color_code_ok(color_code@),
{
    let n: usize = color_code.unicode_len();
    let hashed: bool = n > 0 && color_code.get_char(0) == '#';
    if !hashed && n != 6 {
        return false;
    }
    let start: usize = if hashed { 1 } else { 0 };
    let ghost b: Seq<char> = color_body(color_code@);
    assert(b =~= color_code@.skip(start as int));
    assert(b.skip(0) =~= b);
    let mut i: usize = start;
    while i < n
        invariant
            start <= i <= n,
            n == color_code@.len(),
            start == color_code@.len() - b.len(),
            b == color_code@.skip(start as int),
            groups_ok(b) == groups_ok(b.skip(i - start)),
            b == color_body(color_code@),
            (color_code@.len() > 0 && color_code@[0] == '#') || color_code@.len() == 6,
        decreases n - i,
    {
        let ghost rest: Seq<char> = b.skip(i - start);
        let first: char = color_code.get_char(i);
        assert(rest.len() == n - i);
        let second_digit: Option<u64> = if i + 1 < n {
            hex_digit(color_code.get_char(i + 1))
        } else {
            None
        };
        let ok: bool = if i + 1 < n {
            (hex_digit(first).is_some() || first == '+' || first == '-') && second_digit.is_some()
        } else {
            hex_digit(first).is_some()
        };
        assert(rest[0] == first);
        assert(i + 1 < n ==> rest[1] == color_code@[i + 1]);
        let ghost g: Seq<char> = if rest.len() >= 2 { rest.take(2) } else { rest };
        assert(ok == is_group(g));
        proof {
            if rest.len() > 2 {
                assert(rest.take(2) =~= seq![rest[0], rest[1]]);
                assert(rest.skip(2) =~= b.skip(i + 2 - start));
            }
        }
        assert(groups_ok(rest) == (is_group(g) && (rest.len() > 2 ==> groups_ok(rest.skip(2)))));
        assert(color_code_ok(color_code@) == groups_ok(b));
        if !ok {
            return false;
        }
        if n - i <= 2 {
            return true;
        }
        i = i + 2;
    }
    assert(b.skip(i - start).len() == 0);
    true
}

/// The decimal values of the color code's groups of two digits, separated by
/// single spaces (`"#ff8000"` gives `"255 128 0"`).
pub fn hex2rgb(color_code: &str) -> (r: String)
    requires
        color_code_ok(color_code@),
    ensures
        r@ == rgb_text(color_body(color_code@)),
{
    proof { reveal_strlit(""); }
    let n: usize = color_code.unicode_len();
    let start: usize = if n > 0 && color_code.get_char(0) == '#' { 1 } else { 0 };
    let ghost b: Seq<char> = color_body(color_code@);
    let mut out: String = String::from_str("");
    assert(b =~= color_code@.skip(start as int));
    assert(b.skip(0) =~= b);
    let mut i: usize = start;
    while i < n
        invariant
            start <= i <= n,
            n == color_code@.len(),
            start == color_code@.len() - b.len(),
            b == color_code@.skip(start as int),
            groups_ok(b.skip(i - start)),
            i < n ==> rgb_text(b) == out@ + rgb_text(b.skip(i - start)),
            i >= n ==> rgb_text(b) == out@,
        decreases n - i,
    {
        let ghost rest: Seq<char> = b.skip(i - start);
        let ghost out0: Seq<char> = out@;
        let first: char = color_code.get_char(i);
        assert(rest.len() == n - i);
        assert(rest[0] == first);
        let ghost g: Seq<char> = if rest.len() >= 2 { rest.take(2) } else { rest };
        let value: i64 = if i + 1 < n {
            let second: char = color_code.get_char(i + 1);
            assert(rest[1] == second);
            let d: u64 = hex_digit(second).unwrap();
            if first == '-' {
                -(d as i64)
            } else if first == '+' {
                d as i64
            } else {
                (16 * hex_digit(first).unwrap() + d) as i64
            }
        } else {
            hex_digit(first).unwrap() as i64
        };
        proof {
            if rest.len() > 2 {
                assert(rest.take(2) =~= seq![rest[0], rest[1]]);
                assert(rest.skip(2) =~= b.skip(i + 2 - start));
            }
        }
        assert(value == group_value(g));
        push_decimal(&mut out, value);
        if n - i <= 2 {
            assert(out@ =~= rgb_text(b));
            i = n;
        } else {
            proof { reveal_strlit(" "); }
            assert(" "@ =~= seq![' ']);
            out.append(" ");
            assert(rgb_text(rest) == decimal(group_value(rest.take(2))) + seq![' '] + rgb_text(rest.skip(2)));
            assert(out@ =~= out0 + decimal(value as int) + seq![' ']);
            assert(out@ + rgb_text(b.skip(i + 2 - start)) =~= out0 + rgb_text(rest));
            i = i + 2;
        }
    }
    out
}

} // verus!
