use werdol::tile::Tile;

const CRANE: [char; 5] = ['C', 'R', 'A', 'N', 'E'];

fn checked(t: Tile, actual: char) -> Tile {
    let mut t = t;
    t.check(&CRANE, actual);
    t
}

#[test]
fn default_tile_is_blank() {
    assert_eq!(Tile::default(), Tile::Blank);
}

#[test]
fn input_sets_unconfirmed_letter() {
    let mut t = Tile::Missing('Z');
    t.input('Q');
    assert_eq!(t, Tile::Unconfirmed('Q'));
}

#[test]
fn delete_clears_any_tile() {
    let mut t = Tile::Correct('A');
    t.delete();
    assert_eq!(t, Tile::Blank);
}

#[test]
fn check_gives_correct_for_letter_at_its_position() {
    assert_eq!(checked(Tile::Unconfirmed('A'), 'A'), Tile::Correct('A'));
}

#[test]
fn check_prefers_correct_over_misplaced() {
    // 'C' is in the word and also the expected letter here.
    assert_eq!(checked(Tile::Unconfirmed('C'), 'C'), Tile::Correct('C'));
}

#[test]
fn check_gives_misplaced_for_letter_elsewhere_in_word() {
    assert_eq!(checked(Tile::Unconfirmed('E'), 'C'), Tile::Misplaced('E'));
}

#[test]
fn check_gives_missing_for_letter_not_in_word() {
    assert_eq!(checked(Tile::Unconfirmed('S'), 'C'), Tile::Missing('S'));
}

#[test]
fn check_is_case_sensitive() {
    assert_eq!(checked(Tile::Unconfirmed('c'), 'C'), Tile::Missing('c'));
}

#[test]
fn check_against_empty_word_gives_missing() {
    let mut t = Tile::Unconfirmed('A');
    t.check(&[], 'B');
    assert_eq!(t, Tile::Missing('A'));
}

#[test]
fn check_twice_leaves_scored_tile_unchanged() {
    for t in [Tile::Correct('R'), Tile::Misplaced('E'), Tile::Missing('S'), Tile::Blank] {
        let once = checked(t, 'C');
        assert_eq!(once, t);
        assert_eq!(checked(once, 'C'), t);
    }
    let once = checked(Tile::Unconfirmed('N'), 'C');
    assert_eq!(once, Tile::Misplaced('N'));
    assert_eq!(checked(once, 'C'), once);
}

#[test]
fn is_correct_only_for_correct() {
    assert!(Tile::Correct('A').is_correct());
    assert!(!Tile::Misplaced('A').is_correct());
    assert!(!Tile::Missing('A').is_correct());
    assert!(!Tile::Unconfirmed('A').is_correct());
    assert!(!Tile::Blank.is_correct());
}

#[test]
fn get_chr_gives_carried_letter() {
    assert_eq!(Tile::Correct('A').get_chr(), Some('A'));
    assert_eq!(Tile::Misplaced('B').get_chr(), Some('B'));
    assert_eq!(Tile::Missing('C').get_chr(), Some('C'));
    assert_eq!(Tile::Unconfirmed('D').get_chr(), Some('D'));
    assert_eq!(Tile::Blank.get_chr(), None);
}

#[test]
fn text_shows_letter_or_nothing() {
    assert_eq!(Tile::Unconfirmed('Q').text(), "Q");
    assert_eq!(Tile::Misplaced('E').text(), "E");
    assert_eq!(Tile::Blank.text(), "");
}
