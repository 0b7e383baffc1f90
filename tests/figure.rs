use dent::figure::{Border, BorderChars, Filled};

#[test]
fn filled_block_repeats_filler() {
    assert_eq!(Filled::new(3, 2, "x").render(), "xxx\nxxx");
}

#[test]
fn filled_block_of_multichar_filler() {
    assert_eq!(Filled::new(2, 3, "ab").render(), "abab\nabab\nabab");
}

#[test]
fn blank_block_is_spaces() {
    assert_eq!(Filled::blank(2, 1).render(), "  ");
    assert_eq!(Filled::blank(1, 3).render(), " \n \n ");
}

#[test]
fn empty_block_is_empty_text() {
    assert_eq!(Filled::blank(0, 0).render(), "");
    assert_eq!(Filled::blank(4, 0).render(), "");
}

#[test]
fn ascii_border_smallest() {
    let b = Border::new(BorderChars::ascii(), 3, 3);
    assert_eq!(b.render(), "+-+\n| |\n+-+");
}

#[test]
fn ascii_border_wide() {
    let b = Border::new(BorderChars::ascii(), 5, 4);
    assert_eq!(b.render(), "+---+\n|   |\n|   |\n+---+");
}

#[test]
fn unicode_border() {
    let b = Border::new(BorderChars::unicode(), 4, 3);
    assert_eq!(b.render(), "┌──┐\n│  │\n└──┘");
}

#[test]
fn filled_block_of_unicode_filler() {
    assert_eq!(Filled::new(3, 2, "─").render(), "───\n───");
}

#[test]
fn tall_narrow_border() {
    let b = Border::new(BorderChars::ascii(), 3, 5);
    assert_eq!(b.render(), "+-+\n| |\n| |\n| |\n+-+");
}
