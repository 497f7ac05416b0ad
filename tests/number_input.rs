use bevy_ui_inspector::dropdown::Interaction;
use bevy_ui_inspector::number_input::{EditKey, TextInput};

fn focused(value: &str, cursor_moves_right: usize) -> TextInput {
    let mut t = TextInput::new();
    t.value = value.to_string();
    assert!(t.interact(Interaction::Pressed));
    for _ in 0..cursor_moves_right {
        t.apply_key(EditKey::ArrowRight);
    }
    t
}

#[test]
fn new_input_is_empty_and_unfocused() {
    let t = TextInput::new();
    assert_eq!(t.value, "");
    assert_eq!(t.cursor_position(), 0);
    assert!(!t.focussed());
    assert_eq!(t.display_text(), "");
}

#[test]
fn unfocused_input_ignores_keys() {
    let mut t = TextInput::new();
    t.value = "12".to_string();
    t.apply_key(EditKey::Digit(3));
    t.apply_key(EditKey::Backspace);
    assert_eq!(t.value, "12");
    assert_eq!(t.cursor_position(), 0);
    assert_eq!(t.display_text(), "12");
}

#[test]
fn digits_insert_at_cursor() {
    let mut t = focused("", 0);
    t.apply_key(EditKey::Digit(1));
    t.apply_key(EditKey::Digit(2));
    assert_eq!(t.value, "12");
    assert_eq!(t.cursor_position(), 2);
    t.apply_key(EditKey::ArrowLeft);
    t.apply_key(EditKey::Digit(0));
    assert_eq!(t.value, "102");
    assert_eq!(t.cursor_position(), 2);
    assert_eq!(t.display_text(), "10|2");
}

#[test]
fn digit_above_nine_changes_nothing() {
    let mut t = focused("5", 1);
    t.apply_key(EditKey::Digit(10));
    assert_eq!(t.value, "5");
    assert_eq!(t.cursor_position(), 1);
}

#[test]
fn arrows_stop_at_the_ends() {
    let mut t = focused("42", 0);
    t.apply_key(EditKey::ArrowLeft);
    assert_eq!(t.cursor_position(), 0);
    t.apply_key(EditKey::ArrowRight);
    t.apply_key(EditKey::ArrowRight);
    t.apply_key(EditKey::ArrowRight);
    assert_eq!(t.cursor_position(), 2);
}

#[test]
fn backspace_erases_before_cursor() {
    let mut t = focused("123", 2);
    t.apply_key(EditKey::Backspace);
    assert_eq!(t.value, "13");
    assert_eq!(t.cursor_position(), 1);
}

#[test]
fn backspace_at_start_does_nothing() {
    let mut t = focused("123", 0);
    t.apply_key(EditKey::Backspace);
    assert_eq!(t.value, "123");
    assert_eq!(t.cursor_position(), 0);
}

#[test]
fn delete_erases_after_cursor() {
    let mut t = focused("123", 1);
    t.apply_key(EditKey::Delete);
    assert_eq!(t.value, "13");
    assert_eq!(t.cursor_position(), 1);
    let mut end = focused("7", 1);
    end.apply_key(EditKey::Delete);
    assert_eq!(end.value, "7");
}

#[test]
fn cursor_past_a_replaced_value_acts_at_its_end() {
    let mut t = focused("12345", 5);
    t.value = "9".to_string();
    assert_eq!(t.display_text(), "9|");
    t.apply_key(EditKey::Digit(8));
    assert_eq!(t.value, "98");
    assert_eq!(t.cursor_position(), 2);
}

#[test]
fn blur_ends_editing() {
    let mut t = focused("12", 1);
    assert_eq!(t.display_text(), "1|2");
    t.blur();
    assert!(!t.focussed());
    assert_eq!(t.display_text(), "12");
    assert!(!t.interact(Interaction::Hovered));
    assert!(!t.focussed());
}

#[test]
fn keys_of_one_frame_apply_in_order() {
    let mut t = focused("", 0);
    t.handle_keyboard_input(&vec![
        EditKey::Digit(4),
        EditKey::Digit(2),
        EditKey::ArrowLeft,
        EditKey::Backspace,
        EditKey::Delete,
        EditKey::Digit(7),
    ]);
    assert_eq!(t.value, "7");
    assert_eq!(t.cursor_position(), 1);
}
