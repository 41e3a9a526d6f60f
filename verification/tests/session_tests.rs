use homokuzel::session::{image_drop_target, ActiveTab, ImageDropTarget, TabSession};

fn session_of(names: &[&str]) -> TabSession<String> {
    let mut s = TabSession::new(names[0].to_string());
    for n in &names[1..] {
        s.push_tab(n.to_string());
    }
    s
}

#[test]
fn new_session_shows_its_only_tab() {
    let s = TabSession::new("Image 1".to_string());
    assert_eq!(s.len(), 1);
    assert_eq!(s.active_tab(), ActiveTab::Image(0));
    assert_eq!(s.selected_layer(), 0);
    assert!(!s.merged_dirty());
}

#[test]
fn allocate_tab_id_counts_from_two() {
    let mut s = TabSession::new(1u32);
    assert_eq!(s.allocate_tab_id(), 2);
    assert_eq!(s.allocate_tab_id(), 3);
}

#[test]
fn push_tab_activates_and_selects_new_tab() {
    let mut s = TabSession::new("a".to_string());
    s.push_tab("b".to_string());
    assert_eq!(s.len(), 2);
    assert_eq!(s.active_tab(), ActiveTab::Image(1));
    assert_eq!(s.selected_layer(), 1);
    assert!(s.merged_dirty());
    assert_eq!(s.tab(1), "b");
}

#[test]
fn closing_the_last_tab_is_refused() {
    let mut s = TabSession::new("only".to_string());
    s.close_tab(0);
    assert_eq!(s.len(), 1);
    assert_eq!(s.tab(0), "only");
    assert!(!s.merged_dirty());
}

#[test]
fn closing_another_tab_keeps_the_shown_tab() {
    let mut s = session_of(&["a", "b", "c", "d"]);
    s.select_tab(2);
    s.close_tab(0);
    assert_eq!(s.tabs(), &vec!["b".to_string(), "c".to_string(), "d".to_string()]);
    assert_eq!(s.active_tab(), ActiveTab::Image(1));
    assert_eq!(s.tab(1), "c");
    s.close_tab(2);
    assert_eq!(s.active_tab(), ActiveTab::Image(1));
    assert_eq!(s.tab(1), "c");
}

#[test]
fn closing_the_shown_tab_shows_the_one_before() {
    let mut s = session_of(&["a", "b", "c"]);
    s.select_tab(1);
    s.close_tab(1);
    assert_eq!(s.active_tab(), ActiveTab::Image(0));
    let mut t = session_of(&["a", "b", "c"]);
    t.select_tab(0);
    t.close_tab(0);
    assert_eq!(t.active_tab(), ActiveTab::Image(0));
    assert_eq!(t.tab(0), "b");
}

#[test]
fn closing_clamps_the_selected_layer() {
    let mut s = session_of(&["a", "b", "c"]);
    s.select_merge();
    s.select_layer(2);
    s.close_tab(2);
    assert_eq!(s.selected_layer(), 1);
    assert_eq!(s.active_tab(), ActiveTab::Merge);
    assert!(s.merged_dirty());
}

#[test]
fn closing_the_tab_just_added_restores_the_tabs() {
    let mut s = session_of(&["a", "b"]);
    let before = s.tabs().clone();
    s.push_tab("new".to_string());
    let last = s.len() - 1;
    s.close_tab(last);
    assert_eq!(s.tabs(), &before);
}

#[test]
fn tab_mut_changes_only_that_tab() {
    let mut s = session_of(&["a", "b"]);
    s.tab_mut(1).push('!');
    assert_eq!(s.tabs(), &vec!["a".to_string(), "b!".to_string()]);
    assert_eq!(s.active_tab(), ActiveTab::Image(1));
}

#[test]
fn select_merge_marks_the_map_dirty() {
    let mut s = TabSession::new(0u8);
    s.select_merge();
    assert_eq!(s.active_tab(), ActiveTab::Merge);
    assert!(s.merged_dirty());
    s.clear_merged_dirty();
    assert!(!s.merged_dirty());
    s.mark_merged_dirty();
    assert!(s.merged_dirty());
}

#[test]
fn ensure_active_valid_keeps_a_valid_tab() {
    let mut s = session_of(&["a", "b"]);
    s.ensure_active_valid();
    assert_eq!(s.active_tab(), ActiveTab::Image(1));
    s.select_merge();
    s.ensure_active_valid();
    assert_eq!(s.active_tab(), ActiveTab::Merge);
}

#[test]
fn reload_replaces_tabs_and_resets_choices() {
    let mut s = session_of(&["a", "b", "c"]);
    s.reload(vec!["x".to_string(), "y".to_string()], "fallback".to_string());
    assert_eq!(s.tabs(), &vec!["x".to_string(), "y".to_string()]);
    assert_eq!(s.active_tab(), ActiveTab::Image(0));
    assert_eq!(s.selected_layer(), 0);
    assert!(s.merged_dirty());
    assert_eq!(s.allocate_tab_id(), 3);
}

#[test]
fn reload_of_an_empty_project_keeps_one_tab() {
    let mut s = session_of(&["a", "b"]);
    s.reload(Vec::new(), "Image 1".to_string());
    assert_eq!(s.tabs(), &vec!["Image 1".to_string()]);
    assert_eq!(s.allocate_tab_id(), 2);
}

#[test]
fn next_tab_id_reads_the_counter() {
    let mut s = TabSession::new(());
    assert_eq!(s.next_tab_id(), 2);
    s.allocate_tab_id();
    assert_eq!(s.next_tab_id(), 3);
}

#[test]
fn dropped_image_fills_an_empty_shown_tab() {
    assert_eq!(image_drop_target(ActiveTab::Image(2), false), ImageDropTarget::CurrentTab(2));
    assert_eq!(image_drop_target(ActiveTab::Image(2), true), ImageDropTarget::NewTab);
    assert_eq!(image_drop_target(ActiveTab::Merge, false), ImageDropTarget::NewTab);
}

#[test]
fn only_the_shown_image_tab_counts_as_shown() {
    let mut s = session_of(&["a", "b", "c"]);
    s.select_tab(1);
    assert!(s.shows_image(1));
    assert!(!s.shows_image(0));
    assert!(!s.shows_image(2));
    s.select_merge();
    assert!(!s.shows_image(0));
    assert!(!s.shows_image(1));
}
