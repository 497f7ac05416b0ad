use bevy_ui_inspector::dropdown::{highlighted, Dropdown, Interaction};

#[test]
fn press_toggles_and_asks_for_backdrop() {
    let mut d = Dropdown::new(2);
    assert!(!d.open);
    let r = d.interact(Interaction::Pressed);
    assert!(d.open);
    assert!(r.highlight);
    assert!(r.spawn_backdrop);
    assert_eq!(d.selected, 2);
    let r = d.interact(Interaction::Pressed);
    assert!(!d.open);
    assert!(r.spawn_backdrop);
}

#[test]
fn hover_and_idle_do_not_toggle() {
    let mut d = Dropdown::new(0);
    let r = d.interact(Interaction::Hovered);
    assert!(!d.open);
    assert!(r.highlight);
    assert!(!r.spawn_backdrop);
    let r = d.interact(Interaction::Idle);
    assert!(!d.open);
    assert!(!r.highlight);
    assert!(!r.spawn_backdrop);
}

#[test]
fn highlight_colours() {
    assert!(highlighted(Interaction::Pressed));
    assert!(highlighted(Interaction::Hovered));
    assert!(!highlighted(Interaction::Idle));
}

#[test]
fn background_click_closes() {
    let mut d = Dropdown { open: true, selected: 3 };
    d.close();
    assert_eq!(d, Dropdown { open: false, selected: 3 });
}

#[test]
fn clicking_an_item_selects_its_position() {
    let mut d = Dropdown { open: true, selected: 0 };
    d.select_item(&vec![10, 11, 12, 13], 12);
    assert_eq!(d, Dropdown { open: false, selected: 2 });
}

#[test]
fn clicking_an_unknown_item_only_closes() {
    let mut d = Dropdown { open: true, selected: 1 };
    d.select_item(&vec![10, 11], 99);
    assert_eq!(d, Dropdown { open: false, selected: 1 });
}

#[test]
fn repeated_item_takes_last_position() {
    let mut d = Dropdown { open: true, selected: 0 };
    d.select_item(&vec![5, 6, 5, 7], 5);
    assert_eq!(d.selected, 2);
}

#[test]
fn selected_label_reads_the_chosen_item() {
    let labels = vec!["auto".to_string(), "px".to_string(), "%".to_string()];
    assert_eq!(Dropdown::new(1).selected_label(&labels), Some("px".to_string()));
    assert_eq!(Dropdown::new(3).selected_label(&labels), None);
    assert_eq!(Dropdown::new(0).selected_label(&vec![]), None);
}
