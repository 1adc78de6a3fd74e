use map_editor::path_set::PathSet;
use map_editor::project::{OpenMapEntry, ProjectState};

fn project(root: &str, open: &[&str]) -> ProjectState {
    let mut p = ProjectState::new();
    p.root_path = Some(root.to_string());
    for path in open {
        p.note_open_map(path);
    }
    p
}

fn tab(path: &str, name: &str) -> OpenMapEntry {
    OpenMapEntry { path: path.to_string(), name: name.to_string() }
}

fn sorted(set: &PathSet) -> Vec<String> {
    let mut v = set.to_vec();
    v.sort();
    v
}

#[test]
fn a_new_project_is_empty() {
    let p = ProjectState::new();
    assert!(p.root.is_none());
    assert!(p.root_path.is_none());
    assert!(p.open_maps.is_empty());
    assert!(p.active_map.is_none());
    assert!(p.dirty_maps.is_empty());
}

#[test]
fn opening_adds_a_tab_and_makes_it_active() {
    let mut p = project("/p", &["/p/maps/a.mpr"]);
    assert_eq!(p.open_maps, vec![tab("/p/maps/a.mpr", "maps/a.mpr")]);
    assert_eq!(p.active_map.as_deref(), Some("/p/maps/a.mpr"));
    p.note_open_map("/p/b.mpr");
    assert_eq!(p.open_maps, vec![tab("/p/maps/a.mpr", "maps/a.mpr"), tab("/p/b.mpr", "b.mpr")]);
    assert_eq!(p.active_map.as_deref(), Some("/p/b.mpr"));
}

#[test]
fn opening_again_keeps_the_tab_order_and_clears_dirty() {
    let mut p = project("/p", &["/p/a.mpr", "/p/b.mpr"]);
    assert!(p.mark_dirty("/p/a.mpr"));
    assert!(p.is_dirty("/p/a.mpr"));
    p.note_open_map("/p/a.mpr");
    assert_eq!(p.open_maps, vec![tab("/p/a.mpr", "a.mpr"), tab("/p/b.mpr", "b.mpr")]);
    assert_eq!(p.active_map.as_deref(), Some("/p/a.mpr"));
    assert!(!p.is_dirty("/p/a.mpr"));
}

#[test]
fn only_open_documents_can_be_marked_dirty() {
    let mut p = project("/p", &["/p/a.mpr"]);
    assert!(!p.mark_dirty("/p/zzz.mpr"));
    assert!(!p.is_dirty("/p/zzz.mpr"));
    assert!(p.mark_dirty("/p/a.mpr"));
    assert!(p.mark_dirty("/p/a.mpr"));
    assert_eq!(sorted(&p.dirty_maps), vec!["/p/a.mpr"]);
    p.clear_dirty("/p/a.mpr");
    assert!(p.dirty_maps.is_empty());
}

#[test]
fn renaming_a_directory_moves_what_is_below_it() {
    let mut p = project("/p", &["/p/a/x.mpr", "/p/ab/y.mpr", "/p/z.mpr", "/p/a/deep/w.mpr"]);
    p.mark_dirty("/p/a/deep/w.mpr");
    p.mark_dirty("/p/ab/y.mpr");
    p.note_open_map("/p/z.mpr");
    p.handle_renamed_path("/p/a", "/p/c", true);
    assert_eq!(
        p.open_maps,
        vec![
            tab("/p/c/x.mpr", "c/x.mpr"),
            tab("/p/ab/y.mpr", "ab/y.mpr"),
            tab("/p/z.mpr", "z.mpr"),
            tab("/p/c/deep/w.mpr", "c/deep/w.mpr"),
        ]
    );
    assert_eq!(p.active_map.as_deref(), Some("/p/z.mpr"));
    assert_eq!(sorted(&p.dirty_maps), vec!["/p/ab/y.mpr", "/p/c/deep/w.mpr"]);
}

#[test]
fn renaming_a_directory_moves_the_active_document() {
    let mut p = project("/p", &["/p/z.mpr", "/p/a/x.mpr"]);
    p.handle_renamed_path("/p/a", "/p/c", true);
    assert_eq!(p.active_map.as_deref(), Some("/p/c/x.mpr"));
}

#[test]
fn renaming_a_file_moves_only_the_file() {
    let mut p = project("/p", &["/p/a.mpr", "/p/a.mpr.bak/x.mpr"]);
    p.mark_dirty("/p/a.mpr");
    p.handle_renamed_path("/p/a.mpr", "/p/b.mpr", false);
    assert_eq!(
        p.open_maps,
        vec![tab("/p/b.mpr", "b.mpr"), tab("/p/a.mpr.bak/x.mpr", "a.mpr.bak/x.mpr")]
    );
    assert_eq!(p.active_map.as_deref(), Some("/p/a.mpr.bak/x.mpr"));
    assert_eq!(sorted(&p.dirty_maps), vec!["/p/b.mpr"]);
}

#[test]
fn closing_the_active_tab_promotes_the_first_one_left() {
    let mut p = project("/p", &["/p/a.mpr", "/p/b.mpr"]);
    assert_eq!(p.close_map("/p/b.mpr"), Some("/p/a.mpr".to_string()));
    assert_eq!(p.active_map.as_deref(), Some("/p/a.mpr"));
    assert_eq!(p.open_maps, vec![tab("/p/a.mpr", "a.mpr")]);
    assert_eq!(p.close_map("/p/a.mpr"), None);
    assert_eq!(p.active_map, None);
    assert!(p.open_maps.is_empty());
}

#[test]
fn closing_another_tab_leaves_the_active_one() {
    let mut p = project("/p", &["/p/a.mpr", "/p/b.mpr", "/p/c.mpr"]);
    p.mark_dirty("/p/a.mpr");
    assert_eq!(p.close_map("/p/a.mpr"), None);
    assert_eq!(p.active_map.as_deref(), Some("/p/c.mpr"));
    assert!(!p.is_dirty("/p/a.mpr"));
    assert_eq!(p.close_map("/p/not-open.mpr"), None);
    assert_eq!(p.open_maps.len(), 2);
}

#[test]
fn closing_the_first_tab_while_active_promotes_the_second() {
    let mut p = project("/p", &["/p/a.mpr", "/p/b.mpr", "/p/c.mpr"]);
    p.note_open_map("/p/a.mpr");
    assert_eq!(p.close_map("/p/a.mpr"), Some("/p/b.mpr".to_string()));
    assert_eq!(p.active_map.as_deref(), Some("/p/b.mpr"));
}

#[test]
fn deleting_a_directory_closes_what_is_below_it() {
    let mut p = project("/p", &["/p/keep.mpr", "/p/a/x.mpr", "/p/a/y.mpr", "/p/ab/z.mpr"]);
    p.mark_dirty("/p/a/x.mpr");
    p.mark_dirty("/p/ab/z.mpr");
    p.note_open_map("/p/a/y.mpr");
    let next = p.handle_deleted_path("/p/a", true);
    assert_eq!(next, Some("/p/keep.mpr".to_string()));
    assert_eq!(p.active_map.as_deref(), Some("/p/keep.mpr"));
    assert_eq!(p.open_maps, vec![tab("/p/keep.mpr", "keep.mpr"), tab("/p/ab/z.mpr", "ab/z.mpr")]);
    assert_eq!(sorted(&p.dirty_maps), vec!["/p/ab/z.mpr"]);
}

#[test]
fn deleting_the_only_open_file() {
    let mut p = project("/p", &["/p/a.mpr"]);
    p.mark_dirty("/p/a.mpr");
    assert_eq!(p.handle_deleted_path("/p/a.mpr", false), None);
    assert!(p.open_maps.is_empty());
    assert_eq!(p.active_map, None);
    assert!(p.dirty_maps.is_empty());
}

#[test]
fn deleting_something_else_changes_nothing() {
    let mut p = project("/p", &["/p/a.mpr", "/p/b.mpr"]);
    assert_eq!(p.handle_deleted_path("/p/c.mpr", false), None);
    assert_eq!(p.handle_deleted_path("/p/dir", true), None);
    assert_eq!(p.open_maps.len(), 2);
    assert_eq!(p.active_map.as_deref(), Some("/p/b.mpr"));
}

#[test]
fn clearing_and_resetting() {
    let mut p = project("/p", &["/p/a.mpr"]);
    p.mark_dirty("/p/a.mpr");
    p.clear_workspace();
    assert!(p.open_maps.is_empty());
    assert!(p.active_map.is_none());
    assert!(p.dirty_maps.is_empty());
    assert_eq!(p.root_path.as_deref(), Some("/p"));
    p.note_open_map("/p/a.mpr");
    p.reset_all();
    assert!(p.root_path.is_none());
    assert!(p.open_maps.is_empty());
}

#[test]
fn path_sets_hold_each_path_once() {
    let mut s = PathSet::new();
    assert!(s.insert("/a".to_string()));
    assert!(!s.insert("/a".to_string()));
    assert!(s.insert("/b".to_string()));
    assert!(s.contains("/a"));
    assert!(!s.contains("/c"));
    assert_eq!(sorted(&s), vec!["/a", "/b"]);
    assert!(s.remove("/a"));
    assert!(!s.remove("/a"));
    assert_eq!(sorted(&s), vec!["/b"]);
    s.clear();
    assert!(s.is_empty());
}

#[test]
fn path_sets_merge_paths_that_a_rename_brings_together() {
    let mut s = PathSet::new();
    s.insert("/p/a/x".to_string());
    s.insert("/p/b/x".to_string());
    s.insert("/p/c".to_string());
    s.rename("/p/a", "/p/b", true);
    assert_eq!(sorted(&s), vec!["/p/b/x", "/p/c"]);
    s.delete("/p/b", true);
    assert_eq!(sorted(&s), vec!["/p/c"]);
    s.delete("/p/c", false);
    assert!(s.is_empty());
}
