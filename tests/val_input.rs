use bevy_ui_inspector::val_input::{
    get_dropdown_value_for_val_type, get_val_type_for_dropdown_value, val_input_widths,
    val_type_options,
};
use bevy_ui_inspector::ValTypes;

const ALL: [ValTypes; 7] = [
    ValTypes::Auto,
    ValTypes::Px,
    ValTypes::Percent,
    ValTypes::Vw,
    ValTypes::Vh,
    ValTypes::VMin,
    ValTypes::VMax,
];

#[test]
fn dropdown_values_follow_the_list_order() {
    for (i, t) in ALL.iter().enumerate() {
        assert_eq!(get_dropdown_value_for_val_type(*t), i);
    }
}

#[test]
fn dropdown_value_round_trip() {
    for t in ALL {
        assert_eq!(get_val_type_for_dropdown_value(get_dropdown_value_for_val_type(t)), t);
    }
    for i in 0..7usize {
        assert_eq!(get_dropdown_value_for_val_type(get_val_type_for_dropdown_value(i)), i);
    }
}

#[test]
fn out_of_range_dropdown_value_means_auto() {
    assert_eq!(get_val_type_for_dropdown_value(7), ValTypes::Auto);
    assert_eq!(get_val_type_for_dropdown_value(usize::MAX), ValTypes::Auto);
    assert_eq!(get_val_type_for_dropdown_value(4), ValTypes::Vh);
}

#[test]
fn default_val_type_is_auto() {
    assert_eq!(ValTypes::default(), ValTypes::Auto);
}

#[test]
fn short_labels() {
    let labels: Vec<&str> = ALL.iter().map(|t| t.label()).collect();
    assert_eq!(labels, vec!["a", "px", "%", "vw", "vh", "vmin", "vmax"]);
}

#[test]
fn option_labels_spell_out_auto() {
    assert_eq!(ValTypes::Auto.option_label(), "auto");
    assert_eq!(ValTypes::Percent.option_label(), "%");
    assert_eq!(ValTypes::VMax.option_label(), "vmax");
}

#[test]
fn unit_options_list() {
    let options = val_type_options();
    let got: Vec<(String, usize)> = options.into_iter().map(|o| (o.label, o.value)).collect();
    let want: Vec<(String, usize)> = ["auto", "px", "%", "vw", "vh", "vmin", "vmax"]
        .iter()
        .enumerate()
        .map(|(i, l)| (l.to_string(), i))
        .collect();
    assert_eq!(got, want);
}

#[test]
fn only_px_and_percent_keep_their_number() {
    let kept: Vec<bool> = ALL.iter().map(|t| t.keeps_number()).collect();
    assert_eq!(kept, vec![false, true, true, false, false, false, false]);
}

#[test]
fn widths_hide_the_number_for_auto() {
    assert_eq!(val_input_widths(0), (55, 0));
    assert_eq!(val_input_widths(9), (55, 0));
    assert_eq!(val_input_widths(1), (30, 26));
    assert_eq!(val_input_widths(6), (30, 26));
}
