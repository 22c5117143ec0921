use vstd::prelude::*;

verus! {

/// `n!`, with `0! == 1`.
pub open spec fn fact(n: nat) -> nat
    decreases n,
{
    if n == 0 {
        1
    } else {
        n * fact((n - 1) as nat)
    }
}

/// The tail of a board after its head is taken out: every later tile above the
/// head moves down by one, the others stay.
pub open spec fn reduce_tail(s: Seq<u64>) -> Seq<u64>
    recommends
        s.len() > 0,
{
    s.subrange(1, s.len() as int).map_values(|t: u64| if t > s[0] { (t - 1) as u64 } else { t })
}

/// The rank of a board: its head weighted by the factorial of the tail's
/// length, plus the rank of the reduced tail.
pub open spec fn hash_of(s: Seq<u64>) -> int
    decreases s.len(),
{
    if s.len() == 0 {
        0
    } else {
        s[0] * fact((s.len() - 1) as nat) + if s.len() == 1 {
            0
        } else {
            hash_of(reduce_tail(s))
        }
    }
}

pub proof fn lemma_fact_positive(n: nat)
    ensures
        fact(n) >= 1,
    decreases n,
{
    if n > 0 {
        lemma_fact_positive((n - 1) as nat);
        assert(n * fact((n - 1) as nat) >= 1) by (nonlinear_arith)
            requires
                n >= 1,
                fact((n - 1) as nat) >= 1,
        ;
    }
}

pub proof fn lemma_fact_monotone(m: nat, n: nat)
    requires
        m <= n,
    ensures
        fact(m) <= fact(n),
    decreases n,
{
    if m < n {
        lemma_fact_monotone(m, (n - 1) as nat);
        lemma_fact_positive((n - 1) as nat);
        assert(fact((n - 1) as nat) <= n * fact((n - 1) as nat)) by (nonlinear_arith)
            requires
                n >= 1,
                fact((n - 1) as nat) >= 1,
        ;
    }
}

proof fn lemma_fact_20()
    ensures
        fact(20) <= u64::MAX,
{
    reveal_with_fuel(fact, 21);
    assert(fact(20) == 2432902008176640000);
}

pub proof fn lemma_hash_nonnegative(s: Seq<u64>)
    ensures
        hash_of(s) >= 0,
    decreases s.len(),
{
    if s.len() > 0 {
        let f = fact((s.len() - 1) as nat);
        assert(s[0] * f >= 0) by (nonlinear_arith)
            requires
                s[0] >= 0,
                f >= 0,
        ;
        if s.len() > 1 {
            lemma_hash_nonnegative(reduce_tail(s));
        }
    }
}

/// `n!` for `n <= 20`, the largest factorial that fits in a `u64`.
pub fn factorial(n: u64) -> (r: u64)
    requires
        n <= 20,
    ensures
        r == fact(n as nat),
{
    let mut acc: u64 = 1;
    let mut i: u64 = 1;
    while i <= n
        invariant
            1 <= i <= n + 1,
            n <= 20,
            acc == fact((i - 1) as nat),
        decreases n + 1 - i,
    {
        proof {
            lemma_fact_monotone(i as nat, 20);
            lemma_fact_20();
        }
        assert(fact(i as nat) == i * fact((i - 1) as nat));
        acc = acc * i;
        i = i + 1;
    }
    acc
}

/// The rank of a board, computed as `hash_of` states it: the head times the
/// factorial of the tail's length, plus the rank of the reduced tail.
pub fn hash_board(board: Vec<u64>) -> (r: u64)
    requires
        1 <= board@.len() <= 21,
        hash_of(board@) <= u64::MAX,
    ensures
        r == hash_of(board@),
    decreases board@.len(),
{
    let n: usize = board.len();
    let head: u64 = board[0];
    let f: u64 = factorial((n - 1) as u64);
    proof {
        lemma_fact_positive((n - 1) as nat);
        if n > 1 {
            lemma_hash_nonnegative(reduce_tail(board@));
        }
        assert(head * f <= hash_of(board@));
    }
    let head_hash: u64 = head * f;
    if n == 1 {
        return head_hash;
    }
    let mut tail: Vec<u64> = Vec::new();
    let mut k: usize = 1;
    while k < n
        invariant
            1 <= k <= n,
            n == board@.len(),
            head == board@[0],
            tail@ == reduce_tail(board@).subrange(0, k - 1),
        decreases n - k,
    {
        let tile: u64 = board[k];
        if tile > head {
            tail.push(tile - 1);
        } else {
            tail.push(tile);
        }
        k = k + 1;
    }
    assert(tail@ =~= reduce_tail(board@));
    let rest: u64 = hash_board(tail);
    head_hash + rest
}

} // verus!
