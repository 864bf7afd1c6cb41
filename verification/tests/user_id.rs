use sponsor_block::gen_user_id::{
    user_id_from_indices, USER_ID_CHARACTERS, USER_ID_CHARACTER_COUNT, USER_ID_LENGTH,
};
use sponsor_block::gen_user_id;

#[test]
fn the_character_set_is_letters_and_digits() {
    assert_eq!(USER_ID_CHARACTERS.len(), 62);
    assert_eq!(USER_ID_CHARACTER_COUNT, 62);
    assert_eq!(USER_ID_LENGTH, 36);
    assert!(USER_ID_CHARACTERS.chars().all(|character| character.is_ascii_alphanumeric()));
}

#[test]
fn a_generated_id_has_the_form() {
    for _ in 0..200 {
        let id = gen_user_id();
        assert_eq!(id.len(), 36);
        assert_eq!(id.chars().count(), 36);
        assert!(id.chars().all(|character| character.is_ascii_alphanumeric()));
    }
}

#[test]
fn generated_ids_differ() {
    assert_ne!(gen_user_id(), gen_user_id());
}

#[test]
fn indices_pick_characters() {
    assert_eq!(user_id_from_indices(&[]), Some(String::new()));
    assert_eq!(user_id_from_indices(&[0, 25, 26, 51, 52, 61]), Some("AZaz09".to_owned()));
    assert_eq!(user_id_from_indices(&[7, 7, 7]), Some("HHH".to_owned()));
}

#[test]
fn an_index_outside_the_set_gives_nothing() {
    assert_eq!(user_id_from_indices(&[62]), None);
    assert_eq!(user_id_from_indices(&[0, 1, usize::MAX]), None);
    assert_eq!(user_id_from_indices(&[100, 0]), None);
}
