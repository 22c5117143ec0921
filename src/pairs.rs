use vstd::prelude::*;

verus! {

/// The number of bodies in the system.
pub const BODIES_COUNT: usize = 5;

/// The number of unordered pairs of distinct bodies.
pub const INTERACTIONS_COUNT: usize = 10;

/// Where the pairs whose first body is `i` begin, in row-major order: each
/// earlier row `a` holds the `BODIES_COUNT - 1 - a` pairs `(a, b)` with `a < b`.
pub open spec fn row_start(i: int) -> int
    decreases i,
{
    if i <= 0 {
        0
    } else {
        row_start(i - 1) + (BODIES_COUNT - i)
    }
}

/// The place of the pair `(i, j)`, `i < j`, in row-major order.
pub open spec fn pair_index(i: int, j: int) -> int {
    row_start(i) + (j - i - 1)
}

proof fn lemma_pair_index_in_row(i: int, j: int)
    requires
        0 <= i < j < BODIES_COUNT,
    ensures
        0 <= row_start(i) <= pair_index(i, j) < row_start(i + 1),
        forall|a: int| i < a <= BODIES_COUNT ==> row_start(i + 1) <= #[trigger] row_start(a),
{
    reveal_with_fuel(row_start, 6);
}

/// Every unordered pair `(i, j)` of distinct bodies, `i < j`, in row-major
/// order: `i` in the outer loop, `j` in the inner one.
pub fn body_pairs() -> (r: Vec<(usize, usize)>)
    ensures
        r@.len() == INTERACTIONS_COUNT,
        forall|i: int, j: int|
            0 <= i < j < BODIES_COUNT ==> #[trigger] r@[pair_index(i, j)] == (i as usize, j as usize),
{
    reveal_with_fuel(row_start, 6);
    let mut r: Vec<(usize, usize)> = Vec::new();
    let mut i: usize = 0;
    while i < BODIES_COUNT
        invariant
            i <= BODIES_COUNT,
            r@.len() == row_start(i as int),
            forall|a: int, b: int|
                0 <= a < i && a < b < BODIES_COUNT ==> #[trigger] r@[pair_index(a, b)] == (a as usize, b as usize),
        decreases BODIES_COUNT - i,
    {
        let mut j: usize = i + 1;
        while j < BODIES_COUNT
            invariant
                i < BODIES_COUNT,
                i + 1 <= j <= BODIES_COUNT,
                r@.len() == row_start(i as int) + (j - i - 1),
                forall|a: int, b: int|
                    0 <= a < i && a < b < BODIES_COUNT ==> #[trigger] r@[pair_index(a, b)] == (a as usize, b as usize),
                forall|b: int|
                    i < b < j ==> #[trigger] r@[pair_index(i as int, b)] == (i, b as usize),
            decreases BODIES_COUNT - j,
        {
            let ghost before: Seq<(usize, usize)> = r@;
            r.push((i, j));
            assert forall|a: int, b: int|
                0 <= a < i && a < b < BODIES_COUNT implies #[trigger] r@[pair_index(a, b)] == (a as usize, b as usize) by {
                lemma_pair_index_in_row(a, b);
                assert(row_start(a + 1) <= row_start(i as int));
                assert(r@[pair_index(a, b)] == before[pair_index(a, b)]);
            }
            assert forall|b: int|
                i < b < j + 1 implies #[trigger] r@[pair_index(i as int, b)] == (i, b as usize) by {
                if b < j {
                    lemma_pair_index_in_row(i as int, b);
                    assert(r@[pair_index(i as int, b)] == before[pair_index(i as int, b)]);
                }
            }
            j = j + 1;
        }
        i = i + 1;
    }
    r
}

} // verus!
