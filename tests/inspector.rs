use std::collections::HashMap;

use bevy_ui_inspector::inspector::{
    collapse_request, header_open, hit_test_step, parents_of_selected, select, topmost,
    track_selection,
};
use bevy_ui_inspector::{ActiveStyleInspection, PickingUiNode, RestorePreviousResource};

#[test]
fn topmost_takes_the_highest_stack_index() {
    assert_eq!(topmost(&vec![(1, 0), (2, 5), (3, 2)]), Some(2));
    assert_eq!(topmost(&vec![(1, 4)]), Some(1));
    assert_eq!(topmost(&vec![]), None);
}

#[test]
fn topmost_ties_go_to_the_first() {
    assert_eq!(topmost(&vec![(1, 0), (2, 7), (3, 7), (4, 1)]), Some(2));
}

#[test]
fn select_sets_both_resources() {
    let mut prev = RestorePreviousResource { selected: None, hovered: Some(4) };
    let mut insp = ActiveStyleInspection::new();
    select(&mut prev, &mut insp, 9);
    assert_eq!(prev, RestorePreviousResource { selected: Some(9), hovered: Some(4) });
    assert_eq!(insp.entity, Some(9));
}

#[test]
fn picking_click_selects_topmost_and_stops_picking() {
    let mut prev = RestorePreviousResource { selected: Some(1), hovered: Some(2) };
    let mut insp = ActiveStyleInspection { entity: Some(1) };
    let mut picking = PickingUiNode { is_picking: true };
    let hits = vec![(10, 1), (11, 3)];
    let r = hit_test_step(&mut prev, &mut insp, &mut picking, Some(&hits), true);
    assert_eq!(r, Some(11));
    assert_eq!(prev, RestorePreviousResource { selected: Some(11), hovered: None });
    assert_eq!(insp.entity, Some(11));
    assert!(!picking.is_picking);
}

#[test]
fn picking_without_click_only_outlines() {
    let mut prev = RestorePreviousResource::new();
    let mut insp = ActiveStyleInspection::new();
    let mut picking = PickingUiNode { is_picking: true };
    let hits = vec![(10, 1), (11, 0)];
    let r = hit_test_step(&mut prev, &mut insp, &mut picking, Some(&hits), false);
    assert_eq!(r, Some(10));
    assert_eq!(prev, RestorePreviousResource::new());
    assert_eq!(insp.entity, None);
    assert!(picking.is_picking);
}

#[test]
fn picking_outside_the_window_outlines_nothing() {
    let mut prev = RestorePreviousResource { selected: Some(3), hovered: None };
    let mut insp = ActiveStyleInspection::new();
    let mut picking = PickingUiNode { is_picking: true };
    assert_eq!(hit_test_step(&mut prev, &mut insp, &mut picking, None, false), None);
    let none: Vec<(u64, u32)> = vec![];
    assert_eq!(hit_test_step(&mut prev, &mut insp, &mut picking, Some(&none), true), None);
    assert_eq!(prev.selected, Some(3));
    assert!(!picking.is_picking);
}

#[test]
fn not_picking_outlines_hovered_then_selected() {
    let mut insp = ActiveStyleInspection::new();
    let mut picking = PickingUiNode::new();
    let mut prev = RestorePreviousResource { selected: Some(3), hovered: Some(8) };
    let hits = vec![(10, 1)];
    assert_eq!(hit_test_step(&mut prev, &mut insp, &mut picking, Some(&hits), true), Some(8));
    prev.hovered = None;
    assert_eq!(hit_test_step(&mut prev, &mut insp, &mut picking, None, false), Some(3));
    prev.selected = None;
    assert_eq!(hit_test_step(&mut prev, &mut insp, &mut picking, None, false), None);
    assert_eq!(insp.entity, None);
}

#[test]
fn selection_change_is_reported_once() {
    let mut last = None;
    assert_eq!(track_selection(&mut last, Some(4)), Some(4));
    assert_eq!(last, Some(4));
    assert_eq!(track_selection(&mut last, Some(4)), None);
    assert_eq!(track_selection(&mut last, None), None);
    assert_eq!(last, None);
}

#[test]
fn collapse_beats_expand() {
    assert_eq!(collapse_request(true, true), Some(false));
    assert_eq!(collapse_request(false, true), Some(true));
    assert_eq!(collapse_request(false, false), None);
}

#[test]
fn header_state() {
    let path = vec![5, 2, 1];
    assert_eq!(header_open(Some(true), None, &path, 9), Some(true));
    assert_eq!(header_open(Some(false), Some(5), &path, 2), Some(false));
    assert_eq!(header_open(None, Some(5), &path, 2), Some(true));
    assert_eq!(header_open(None, Some(5), &path, 9), Some(false));
    assert_eq!(header_open(None, None, &path, 2), None);
}

#[test]
fn ancestors_of_the_selection() {
    let parents: HashMap<u64, u64> = [(5, 2), (2, 1), (7, 1)].into_iter().collect();
    assert_eq!(parents_of_selected(Some(5), &parents), vec![5, 2, 1]);
    assert_eq!(parents_of_selected(Some(1), &parents), vec![1]);
    assert_eq!(parents_of_selected(None, &parents), Vec::<u64>::new());
}

#[test]
fn ancestor_walk_stops_on_a_cycle() {
    let parents: HashMap<u64, u64> = [(1, 2), (2, 1)].into_iter().collect();
    assert_eq!(parents_of_selected(Some(1), &parents), vec![1, 2, 1]);
}
