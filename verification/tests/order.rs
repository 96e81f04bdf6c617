use slate::order::{rank, Rank};

#[test]
fn equal_texts_are_the_same() {
    assert_eq!(Rank::Same, rank("", ""));
    assert_eq!(Rank::Same, rank("abc", "abc"));
    assert_eq!(Rank::Same, rank("\u{e9}\u{1f600}", "\u{e9}\u{1f600}"));
}

#[test]
fn a_prefix_comes_first() {
    assert_eq!(Rank::Before, rank("", "a"));
    assert_eq!(Rank::After, rank("a", ""));
    assert_eq!(Rank::Before, rank("ab", "abc"));
    assert_eq!(Rank::After, rank("abc", "ab"));
}

#[test]
fn the_first_difference_decides() {
    assert_eq!(Rank::Before, rank("abc", "abd"));
    assert_eq!(Rank::After, rank("b", "abc"));
    assert_eq!(Rank::Before, rank("Z", "a"));
    assert_eq!(Rank::Before, rank("a b", "a-b"));
    assert_eq!(Rank::Before, rank("10", "9"));
}

#[test]
fn the_order_is_that_of_the_bytes() {
    assert_eq!(Rank::Before, rank("z", "\u{e9}"));
    assert_eq!(Rank::Before, rank("\u{e9}", "\u{ffff}"));
    assert_eq!(Rank::Before, rank("\u{ffff}", "\u{10000}"));
    assert_eq!(Rank::After, rank("\u{1f600}", "\u{ff5e}"));
    assert_eq!(Rank::Before, rank("\u{7f}", "\u{80}"));
}

#[test]
fn the_order_agrees_with_the_comparison_of_strings() {
    let samples = ["", "a", "A", "aa", "ab", "b", "\u{0}", "\u{7f}", "\u{80}", "\u{7ff}", "\u{800}", "\u{d7ff}", "\u{e000}", "\u{ffff}", "\u{10000}", "\u{10ffff}", "a\u{e9}", "a\u{0}"];
    for a in samples {
        for b in samples {
            let expected = if a < b {
                Rank::Before
            } else if a == b {
                Rank::Same
            } else {
                Rank::After
            };
            assert_eq!(expected, rank(a, b), "{:?} against {:?}", a, b);
        }
    }
}
