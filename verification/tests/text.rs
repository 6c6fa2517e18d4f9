use bazaar_api::text::same_text;

#[test]
fn equal_strings_are_the_same_text() {
    assert!(same_text("", ""));
    assert!(same_text("sellPrice", "sellPrice"));
    assert!(same_text("aşıldı", "aşıldı"));
}

#[test]
fn strings_that_differ_are_not_the_same_text() {
    assert!(!same_text("sellPrice", "sellprice"));
    assert!(!same_text("a", "b"));
    assert!(!same_text("é", "e"));
}

#[test]
fn a_prefix_is_not_the_same_text() {
    assert!(!same_text("sell", "sellPrice"));
    assert!(!same_text("sellPrice", "sell"));
    assert!(!same_text("", "x"));
    assert!(!same_text("x", ""));
}
