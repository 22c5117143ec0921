use rand::Rng;
use vstd::prelude::*;
use crate::number::{number_of, parse_number};

verus! {

/// The smallest secret number.
pub const GUESS_MIN: u32 = 1;

/// One past the largest secret number.
pub const GUESS_END: u32 = 10;

/// How a guess compares with the secret number.
#[derive(PartialEq, Eq, Structural, Clone, Copy, Debug)]
pub enum Verdict {
    TooSmall,
    TooBig,
    Win,
}

pub open spec fn verdict_of(guess: u32, secret: u32) -> Verdict {
    if guess < secret {
        Verdict::TooSmall
    } else if guess > secret {
        Verdict::TooBig
    } else {
        Verdict::Win
    }
}

/// What is left of a line once `str::trim` has taken the white space off
/// both ends.
pub uninterp spec fn trimmed(s: Seq<char>) -> Seq<char>;

/// Relies on str::trim: its result depends on the characters alone.
#[verifier::external_body]
fn trim_line(s: &str) -> (r: &str)
    ensures
        r@ == trimmed(s@),
{
    s.trim()
}

/// Relies on rand 0.7's `Rng::gen_range(low, high)` on the thread's
/// generator: a value in `[low, high)`; it panics where `low >= high`.
#[verifier::external_body]
fn random_in_range(low: u32, high: u32) -> (r: u32)
    requires
        low < high,
    ensures
        low <= r < high,
{
    rand::thread_rng().gen_range(low, high)
}

/// The secret number of a new game, drawn at random.
pub fn draw_secret() -> (r: u32)
    ensures
        GUESS_MIN <= r < GUESS_END,
{
    random_in_range(GUESS_MIN, GUESS_END)
}

/// How `guess` compares with `secret`.
pub fn judge(guess: u32, secret: u32) -> (r: Verdict)
    ensures
        r == verdict_of(guess, secret),
{
    if guess < secret {
        Verdict::TooSmall
    } else if guess > secret {
        Verdict::TooBig
    } else {
        Verdict::Win
    }
}

/// The number on a line that a player typed, white space round it aside.
pub fn parse_guess(line: &str) -> (r: Option<u32>)
    ensures
        r == number_of(trimmed(line@)),
{
    parse_number(trim_line(line))
}

} // verus!
