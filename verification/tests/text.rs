use planet_relay::text::same_text;

#[test]
fn same_text_on_equal_slices() {
    assert!(same_text("", ""));
    assert!(same_text("GAS_GIANT", "GAS_GIANT"));
    assert!(same_text("Zürich", "Zürich"));
}

#[test]
fn same_text_on_different_slices() {
    assert!(!same_text("GAS_GIANT", "GAS_GIANt"));
    assert!(!same_text("GAS_GIANT", "GAS_GIAN"));
    assert!(!same_text("", " "));
    assert!(!same_text("Zurich", "Zürich"));
}
