use dangerust::hashboard::{factorial, hash_board};

#[test]
fn factorial_small_values() {
    assert_eq!(factorial(0), 1);
    assert_eq!(factorial(1), 1);
    assert_eq!(factorial(5), 120);
}

#[test]
fn factorial_largest_that_fits() {
    assert_eq!(factorial(20), 2432902008176640000);
}

#[test]
fn hash_of_two_tiles() {
    assert_eq!(hash_board(vec![0, 1]), 0);
    assert_eq!(hash_board(vec![1, 0]), 1);
}

#[test]
fn hash_of_four_tiles() {
    assert_eq!(hash_board(vec![3, 0, 1, 2]), 18);
    assert_eq!(hash_board(vec![3, 2, 1, 0]), 23);
}

#[test]
fn hash_of_single_tile_is_the_tile() {
    assert_eq!(hash_board(vec![7]), 7);
}

#[test]
fn hash_of_reversed_boards_is_last_rank() {
    assert_eq!(hash_board((0..=7).rev().collect::<Vec<u64>>()), 40319);
    assert_eq!(hash_board((0..16).rev().collect::<Vec<u64>>()), 20922789887999);
}

#[test]
fn hash_of_identity_board_is_zero() {
    assert_eq!(hash_board((0..21).collect::<Vec<u64>>()), 0);
}
