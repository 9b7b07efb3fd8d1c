use netbattleship::ui::parse_coord;

#[test]
fn parses_upper_and_lower_case() {
    assert_eq!(parse_coord("E5"), Some((5, 4)));
    assert_eq!(parse_coord("e5"), Some((5, 4)));
    assert_eq!(parse_coord("A0"), Some((0, 0)));
    assert_eq!(parse_coord("a0"), Some((0, 0)));
    assert_eq!(parse_coord("J9"), Some((9, 9)));
    assert_eq!(parse_coord("j9"), Some((9, 9)));
}

#[test]
fn ignores_trailing_characters() {
    assert_eq!(parse_coord("E5 extra"), Some((5, 4)));
    assert_eq!(parse_coord("B37"), Some((3, 1)));
}

#[test]
fn rejects_bad_coordinates() {
    assert_eq!(parse_coord(""), None);
    assert_eq!(parse_coord("E"), None);
    assert_eq!(parse_coord("K1"), None);
    assert_eq!(parse_coord("k1"), None);
    assert_eq!(parse_coord("5E"), None);
    assert_eq!(parse_coord("EE"), None);
    assert_eq!(parse_coord("@5"), None);
    assert_eq!(parse_coord("E:"), None);
}
