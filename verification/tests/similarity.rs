use tunelock::similarity::token_overlap;

#[test]
fn shared_and_total_words() {
    assert_eq!(token_overlap("deep house mix", "house deep"), (2, 3));
    assert_eq!(token_overlap("one more time", "one more time"), (3, 3));
    assert_eq!(token_overlap("a a b", "b b"), (1, 2));
    assert_eq!(token_overlap("", "anything"), (0, 1));
    assert_eq!(token_overlap("", ""), (0, 0));
    assert_eq!(token_overlap("  spaced   out  ", "out"), (1, 2));
}

#[test]
fn overlap_is_symmetric() {
    assert_eq!(token_overlap("x y z", "y w"), token_overlap("y w", "x y z"));
}
