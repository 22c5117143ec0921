use dangerust::pairs::{body_pairs, BODIES_COUNT, INTERACTIONS_COUNT};

#[test]
fn pairs_in_row_major_order() {
    assert_eq!(
        body_pairs(),
        vec![(0, 1), (0, 2), (0, 3), (0, 4), (1, 2), (1, 3), (1, 4), (2, 3), (2, 4), (3, 4)]
    );
}

#[test]
fn pair_count_matches_body_count() {
    assert_eq!(INTERACTIONS_COUNT, BODIES_COUNT * (BODIES_COUNT - 1) / 2);
    assert_eq!(body_pairs().len(), INTERACTIONS_COUNT);
}
