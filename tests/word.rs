use werdol::word::{pick_word, word_from_offsets};

#[test]
fn offsets_map_to_letters_after_a() {
    assert_eq!(word_from_offsets([0, 1, 2, 25, 7]), Some(['A', 'B', 'C', 'Z', 'H']));
}

#[test]
fn offset_outside_alphabet_gives_none() {
    assert_eq!(word_from_offsets([0, 1, 26, 3, 4]), None);
    assert_eq!(word_from_offsets([255, 0, 0, 0, 0]), None);
}

#[test]
fn picked_word_is_five_upper_case_letters() {
    for _ in 0..50 {
        let w = pick_word();
        assert!(w.iter().all(|c| c.is_ascii_uppercase()));
    }
}
