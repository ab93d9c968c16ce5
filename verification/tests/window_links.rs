use rmux_web::auto_named::AutoNamedWindows;
use rmux_web::window_links::{
    remapped_window_link_slot, renamed_window_link_slot, slot, slot_eq, WindowLinks,
};
use std::collections::BTreeMap;

fn keys(links: &WindowLinks, session: &str, index: u32) -> Vec<(String, u32)> {
    links
        .window_link_slots_for(session, index)
        .into_iter()
        .map(|s| (s.session_name, s.window_index))
        .collect()
}

fn pair(name: &str, index: u32) -> (String, u32) {
    (name.to_owned(), index)
}

#[test]
fn unlinked_window_counts_as_one() {
    let links = WindowLinks::new();
    assert_eq!(links.window_link_count("a", 0), 1);
    assert_eq!(links.window_linked_session_count("a", 0), 1);
    assert_eq!(links.window_linked_sessions_list("a", 0), vec!["a".to_owned()]);
    assert_eq!(keys(&links, "a", 0), vec![pair("a", 0)]);
}

#[test]
fn attach_links_source_and_target() {
    let mut links = WindowLinks::new();
    links.attach_window_link_slot("a", 1, "b", 2, "a");
    assert_eq!(links.window_link_count("a", 1), 2);
    assert_eq!(links.window_link_count("b", 2), 2);
    assert_eq!(keys(&links, "b", 2), vec![pair("a", 1), pair("b", 2)]);
    links.attach_window_link_slot("a", 1, "a", 3, "a");
    assert_eq!(links.window_link_count("a", 3), 3);
    assert_eq!(links.window_linked_session_count("a", 1), 2);
    assert_eq!(
        links.window_linked_sessions_list("b", 2),
        vec!["a".to_owned(), "b".to_owned()]
    );
}

#[test]
fn attach_moves_target_out_of_its_old_group() {
    let mut links = WindowLinks::new();
    links.attach_window_link_slot("a", 0, "b", 0, "a");
    links.attach_window_link_slot("c", 0, "b", 0, "c");
    assert_eq!(links.window_link_count("a", 0), 1);
    assert_eq!(keys(&links, "b", 0), vec![pair("c", 0), pair("b", 0)]);
}

#[test]
fn detach_dissolves_a_group_of_one() {
    let mut links = WindowLinks::new();
    links.attach_window_link_slot("a", 0, "b", 0, "a");
    links.attach_window_link_slot("a", 0, "c", 0, "a");
    assert_eq!(links.detach_window_link_slot("c", 0), 2);
    assert_eq!(links.detach_window_link_slot("b", 0), 1);
    assert_eq!(links.window_link_count("a", 0), 1);
    assert_eq!(links.detach_window_link_slot("z", 9), 1);
}

#[test]
fn swap_trades_slots_within_a_session() {
    let mut links = WindowLinks::new();
    links.attach_window_link_slot("a", 1, "b", 1, "a");
    links.swap_window_link_slots("a", 1, 4);
    assert_eq!(links.window_link_count("a", 1), 1);
    assert_eq!(keys(&links, "b", 1), vec![pair("a", 4), pair("b", 1)]);
    links.swap_window_link_slots("a", 4, 4);
    assert_eq!(links.window_link_count("a", 4), 2);
}

#[test]
fn rename_moves_slots_and_runtime() {
    let mut links = WindowLinks::new();
    links.attach_window_link_slot("a", 0, "b", 0, "a");
    links.rename_window_link_session("a", "z");
    assert_eq!(keys(&links, "b", 0), vec![pair("z", 0), pair("b", 0)]);
    let none: Vec<String> = Vec::new();
    assert_eq!(links.runtime_session_name_for_window("b", 0, &none, "b"), "z");
}

#[test]
fn runtime_session_follows_group_then_peers_then_own() {
    let mut links = WindowLinks::new();
    links.attach_window_link_slot("a", 0, "b", 0, "run");
    let none: Vec<String> = Vec::new();
    assert_eq!(links.runtime_session_name_for_window("a", 0, &none, "a"), "run");
    let members = vec!["c".to_owned(), "b".to_owned()];
    assert_eq!(links.runtime_session_name_for_window("c", 0, &members, "c"), "run");
    assert_eq!(links.runtime_session_name_for_window("c", 1, &members, "own"), "own");
    links.rename_window_link_runtime_session("run", "other");
    assert_eq!(links.runtime_session_name_for_window("a", 0, &none, "a"), "other");
    links.set_window_link_runtime_session_for_slot(&slot("b", 0), "b");
    assert_eq!(links.runtime_session_name_for_window("a", 0, &none, "a"), "b");
}

#[test]
fn removing_a_session_detaches_its_slots() {
    let mut links = WindowLinks::new();
    links.attach_window_link_slot("a", 0, "b", 0, "a");
    links.attach_window_link_slot("a", 0, "c", 0, "a");
    links.attach_window_link_slot("b", 5, "d", 5, "b");
    links.remove_window_link_session_slots("b");
    assert_eq!(keys(&links, "a", 0), vec![pair("a", 0), pair("c", 0)]);
    assert_eq!(links.window_link_count("d", 5), 1);
}

#[test]
fn remap_renumbers_one_session() {
    let mut links = WindowLinks::new();
    links.attach_window_link_slot("a", 3, "b", 3, "a");
    let mut map = BTreeMap::new();
    map.insert(3, 0);
    map.insert(0, 3);
    links.remap_window_link_slots("a", &map);
    assert_eq!(keys(&links, "b", 3), vec![pair("a", 0), pair("b", 3)]);
}

#[test]
fn slot_helpers_rename_and_remap() {
    let s = slot("a", 2);
    let mut map = BTreeMap::new();
    map.insert(2, 7);
    let moved = remapped_window_link_slot(&s, "a", &map);
    assert_eq!((moved.session_name.as_str(), moved.window_index), ("a", 7));
    let other = remapped_window_link_slot(&s, "b", &map);
    assert!(slot_eq(&other, &s));
    let renamed = renamed_window_link_slot(&s, "a", "q");
    assert_eq!((renamed.session_name.as_str(), renamed.window_index), ("q", 2));
    assert!(slot_eq(&renamed_window_link_slot(&s, "x", "q"), &s));
}

#[test]
fn auto_named_marks_clear_and_swap() {
    let mut marks = AutoNamedWindows::new();
    assert!(!marks.tracks_auto_named_window("a", 0));
    marks.mark_auto_named_window("a", 0);
    marks.mark_auto_named_window("a", 0);
    assert!(marks.tracks_auto_named_window("a", 0));
    marks.swap_auto_named_window_slots("a", 0, "a", 2);
    assert!(!marks.tracks_auto_named_window("a", 0));
    assert!(marks.tracks_auto_named_window("a", 2));
    marks.mark_auto_named_window("a", 0);
    marks.swap_auto_named_window_slots("a", 0, "a", 2);
    assert!(marks.tracks_auto_named_window("a", 0));
    assert!(marks.tracks_auto_named_window("a", 2));
    marks.clear_auto_named_window("a", 2);
    assert!(!marks.tracks_auto_named_window("a", 2));
    assert!(marks.tracks_auto_named_window("a", 0));
}

#[test]
fn auto_named_marks_follow_a_renumbering() {
    let mut marks = AutoNamedWindows::new();
    marks.mark_auto_named_window("a", 1);
    marks.mark_auto_named_window("b", 1);
    let mut map = BTreeMap::new();
    map.insert(1, 0);
    marks.remap_window_indexed_state("a", &map);
    assert!(marks.tracks_auto_named_window("a", 0));
    assert!(!marks.tracks_auto_named_window("a", 1));
    assert!(marks.tracks_auto_named_window("b", 1));
}

#[test]
fn removed_runtime_hands_over_to_first_surviving_slot() {
    let mut links = WindowLinks::new();
    links.attach_window_link_slot("a", 0, "c", 1, "a");
    links.attach_window_link_slot("a", 0, "b", 2, "a");
    links.attach_window_link_slot("a", 1, "d", 0, "a");
    links.attach_window_link_slot("x", 0, "y", 0, "x");
    let existing = vec![slot("b", 2), slot("c", 1), slot("d", 0), slot("y", 0)];
    let picks: Vec<(String, u32)> = links
        .linked_runtime_transfer_slots_for_removed_session("a", &existing)
        .into_iter()
        .map(|s| (s.session_name, s.window_index))
        .collect();
    assert_eq!(picks, vec![pair("b", 2), pair("d", 0)]);
    let existing = vec![slot("c", 1), slot("d", 0)];
    let picks: Vec<(String, u32)> = links
        .linked_runtime_transfer_slots_for_removed_session("a", &existing)
        .into_iter()
        .map(|s| (s.session_name, s.window_index))
        .collect();
    assert_eq!(picks, vec![pair("c", 1), pair("d", 0)]);
    assert!(links
        .linked_runtime_transfer_slots_for_removed_session("q", &existing)
        .is_empty());
}
