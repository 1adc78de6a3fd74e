use map_editor::document::document_of;
use map_editor::document::new_map_document;
use map_editor::editor::{
    confirm_rename, default_map_to_write, scaffold_project, DeletePlan, Editor, ExplorerError,
    Followup, RenamePlan, SaveOutcome, SaveStep,
};
use map_editor::error::MapError;
use map_editor::events::WorkspaceCommand;
use map_editor::layout::{CloseChoice, EditorLayout, PendingCloseTab, RenameInput, RenameRequest};
use map_editor::map_data::blank_map;
use map_editor::project::ProjectState;
use map_editor::tree::{Node, NodeKind};

fn root_node(id: &str) -> Node {
    Node { id: id.to_string(), name: "p".to_string(), kind: NodeKind::Folder { children: vec![] } }
}

fn editor_with(open: &[&str]) -> Editor {
    let mut e = Editor::new();
    e.open_folder("/p".to_string(), Some(root_node("/p")));
    for path in open {
        assert!(e.map_loaded(path, Ok(blank_map(2, 2))).is_ok());
    }
    e
}

fn folders(e: &Editor) -> Vec<String> {
    let mut v = e.layout.open_folders.to_vec();
    v.sort();
    v
}

fn nothing() -> Followup {
    Followup { open_map: None, reset_view: false }
}

#[test]
fn opening_a_folder_resets_the_workspace() {
    let mut e = editor_with(&["/p/a.mpr"]);
    e.project.mark_dirty("/p/a.mpr");
    e.selected = Some((1, 1));
    e.layout.begin_rename("/p/a.mpr".to_string(), "a.mpr".to_string());
    e.layout.request_close("/p/a.mpr".to_string(), "a.mpr".to_string(), true);
    e.open_folder("/q".to_string(), Some(root_node("/q")));
    assert_eq!(e.project.root_path.as_deref(), Some("/q"));
    assert_eq!(e.project.root.as_ref().unwrap().id, "/q");
    assert!(e.project.open_maps.is_empty());
    assert!(e.project.active_map.is_none());
    assert!(e.project.dirty_maps.is_empty());
    assert!(e.layout.show_explorer);
    assert_eq!(folders(&e), vec!["/q"]);
    assert!(e.layout.rename.is_none());
    assert!(e.layout.pending_close.is_none());
    assert!(e.preview.is_none());
    assert!(e.selected.is_none());
}

#[test]
fn a_folder_that_cannot_be_read_leaves_no_project() {
    let mut e = editor_with(&["/p/a.mpr"]);
    e.open_folder("/q".to_string(), None);
    assert!(e.project.root.is_none());
    assert!(e.project.root_path.is_none());
    assert!(e.project.open_maps.is_empty());
    assert!(!e.layout.show_explorer);
    assert!(e.layout.open_folders.is_empty());
    assert!(e.preview.is_none());
}

#[test]
fn closing_the_folder() {
    let mut e = editor_with(&["/p/a.mpr"]);
    e.close_folder();
    assert!(e.project.root_path.is_none());
    assert!(e.project.open_maps.is_empty());
    assert!(!e.layout.show_explorer);
    assert!(e.preview.is_none());
}

#[test]
fn a_new_project_opens_its_first_map() {
    let plan = scaffold_project("/home/me/proj");
    assert_eq!(plan.maps_dir, "/home/me/proj/maps");
    assert_eq!(plan.default_map, "/home/me/proj/maps/main.mpr");
    let mut e = Editor::new();
    e.create_project(
        "/home/me/proj".to_string(),
        Some(root_node("/home/me/proj")),
        &plan.default_map,
        Ok(blank_map(64, 64)),
    );
    assert_eq!(e.project.active_map.as_deref(), Some("/home/me/proj/maps/main.mpr"));
    assert_eq!(e.project.open_maps.len(), 1);
    assert_eq!(e.project.open_maps[0].name, "maps/main.mpr");
    assert_eq!(e.preview, Some(blank_map(64, 64)));
    assert_eq!(folders(&e), vec!["/home/me/proj"]);
}

#[test]
fn a_new_project_whose_map_does_not_load_is_still_opened() {
    let mut e = Editor::new();
    e.create_project(
        "/x".to_string(),
        Some(root_node("/x")),
        "/x/maps/main.mpr",
        Err(MapError::InvalidSize { path: "/x/maps/main.mpr".to_string() }),
    );
    assert_eq!(e.project.root_path.as_deref(), Some("/x"));
    assert!(e.project.open_maps.is_empty());
    assert!(e.preview.is_none());
    let mut e = Editor::new();
    e.create_project("/x".to_string(), None, "/x/maps/main.mpr", Ok(blank_map(1, 1)));
    assert!(e.project.root_path.is_none());
    assert!(e.preview.is_none());
}

#[test]
fn refreshing_the_tree_replaces_the_snapshot() {
    let mut e = editor_with(&[]);
    let mut fresh = root_node("/p");
    fresh.name = "fresh".to_string();
    e.refresh_tree(Some(fresh));
    assert_eq!(e.project.root.as_ref().unwrap().name, "fresh");
    e.refresh_tree(None);
    assert_eq!(e.project.root.as_ref().unwrap().name, "fresh");
}

#[test]
fn new_entries_need_a_directory_within_the_project() {
    let e = editor_with(&[]);
    assert_eq!(e.check_new_entry("/p/maps", true), Ok(()));
    assert_eq!(e.check_new_entry("/p", true), Ok(()));
    assert_eq!(
        e.check_new_entry("/p/maps", false),
        Err(ExplorerError::NotADirectory { path: "/p/maps".to_string() })
    );
    assert_eq!(
        e.check_new_entry("/elsewhere", true),
        Err(ExplorerError::OutsideRoot { path: "/elsewhere".to_string() })
    );
    assert_eq!(
        e.check_new_entry("/pp", true),
        Err(ExplorerError::OutsideRoot { path: "/pp".to_string() })
    );
    assert_eq!(Editor::new().check_new_entry("/p", true), Err(ExplorerError::NoProject));
}

#[test]
fn a_created_file_is_opened_and_its_folder_expanded() {
    let mut e = editor_with(&[]);
    let next = e.file_created("/p/maps", "/p/maps/untitled.mpr".to_string());
    assert_eq!(
        next,
        Followup { open_map: Some("/p/maps/untitled.mpr".to_string()), reset_view: false }
    );
    assert_eq!(folders(&e), vec!["/p", "/p/maps"]);
    e.folder_created("/p/maps", "/p/maps/New Folder".to_string());
    assert_eq!(folders(&e), vec!["/p", "/p/maps", "/p/maps/New Folder"]);
}

#[test]
fn rename_is_planned_in_the_same_directory() {
    let e = editor_with(&[]);
    assert_eq!(
        e.plan_rename("/p/maps/a.mpr", "  b.mpr ", true, false),
        Ok(RenamePlan {
            from: "/p/maps/a.mpr".to_string(),
            to: "/p/maps/b.mpr".to_string(),
            was_dir: false
        })
    );
    assert_eq!(
        e.plan_rename("/p/maps", "levels", true, true),
        Ok(RenamePlan { from: "/p/maps".to_string(), to: "/p/levels".to_string(), was_dir: true })
    );
}

#[test]
fn rename_is_refused() {
    let e = editor_with(&[]);
    assert_eq!(
        e.plan_rename("/p/a.mpr", "b.mpr", false, false),
        Err(ExplorerError::Missing { path: "/p/a.mpr".to_string() })
    );
    assert_eq!(
        e.plan_rename("/q/a.mpr", "b.mpr", true, false),
        Err(ExplorerError::OutsideRoot { path: "/q/a.mpr".to_string() })
    );
    assert_eq!(e.plan_rename("/p/a.mpr", "   ", true, false), Err(ExplorerError::EmptyName));
    assert_eq!(
        e.plan_rename("/p/a.mpr", "x/y", true, false),
        Err(ExplorerError::InvalidName { name: "x/y".to_string() })
    );
    assert_eq!(
        e.plan_rename("/p/a.mpr", "..", true, false),
        Err(ExplorerError::InvalidName { name: "..".to_string() })
    );
    assert_eq!(e.plan_rename("/p/a.mpr", "a.mpr", true, false), Err(ExplorerError::Unchanged));
    assert_eq!(
        e.plan_rename("/p", "q", true, true),
        Err(ExplorerError::OutsideRoot { path: "/q".to_string() })
    );
    assert_eq!(Editor::new().plan_rename("/p/a", "b", true, false), Err(ExplorerError::NoProject));
    let plan = e.plan_rename("/p/a.mpr", "b.mpr", true, false).unwrap();
    assert_eq!(
        confirm_rename(&plan, true),
        Err(ExplorerError::DestinationExists { path: "/p/b.mpr".to_string() })
    );
    assert_eq!(confirm_rename(&plan, false), Ok(()));
}

#[test]
fn renaming_a_directory_cascades() {
    let mut e = editor_with(&["/p/a/x.mpr", "/p/z.mpr"]);
    e.layout.toggle_folder("/p/a");
    e.layout.toggle_folder("/p/a/sub");
    e.layout.toggle_folder("/p/ab");
    let plan = e.plan_rename("/p/a", "c", true, true).unwrap();
    let next = e.entry_renamed(&plan, "/p/a", "/p/c");
    assert_eq!(next, nothing());
    assert_eq!(e.project.open_maps[0].path, "/p/c/x.mpr");
    assert_eq!(e.project.open_maps[0].name, "c/x.mpr");
    assert_eq!(e.project.open_maps[1].path, "/p/z.mpr");
    assert_eq!(e.project.active_map.as_deref(), Some("/p/z.mpr"));
    assert_eq!(folders(&e), vec!["/p", "/p/ab", "/p/c", "/p/c/sub"]);
    assert!(e.preview.is_some());
}

#[test]
fn renaming_the_active_document_reopens_it() {
    let mut e = editor_with(&["/p/z.mpr", "/p/a/x.mpr"]);
    let plan = e.plan_rename("/p/a/x.mpr", "y.mpr", true, false).unwrap();
    let next = e.entry_renamed(&plan, "/p/a/x.mpr", "/p/a/y.mpr");
    assert_eq!(next, Followup { open_map: Some("/p/a/y.mpr".to_string()), reset_view: false });
    assert_eq!(e.project.active_map.as_deref(), Some("/p/a/y.mpr"));
    assert_eq!(folders(&e), vec!["/p"]);
}

#[test]
fn delete_is_planned_for_files_and_directories() {
    let e = editor_with(&[]);
    assert_eq!(
        e.plan_delete("/p/a.mpr", true, false, true),
        Ok(DeletePlan { path: "/p/a.mpr".to_string(), was_dir: false })
    );
    assert_eq!(
        e.plan_delete("/p/maps", true, true, false),
        Ok(DeletePlan { path: "/p/maps".to_string(), was_dir: true })
    );
    assert_eq!(
        e.plan_delete("/p/a.mpr", false, false, false),
        Err(ExplorerError::Missing { path: "/p/a.mpr".to_string() })
    );
    assert_eq!(
        e.plan_delete("/etc/passwd", true, false, true),
        Err(ExplorerError::OutsideRoot { path: "/etc/passwd".to_string() })
    );
    assert_eq!(
        e.plan_delete("/p/socket", true, false, false),
        Err(ExplorerError::Unsupported { path: "/p/socket".to_string() })
    );
    assert_eq!(Editor::new().plan_delete("/p/a", true, false, true), Err(ExplorerError::NoProject));
}

#[test]
fn deleting_the_active_document_promotes_the_next_tab() {
    let mut e = editor_with(&["/p/a.mpr", "/p/b.mpr"]);
    e.selected = Some((0, 0));
    let plan = e.plan_delete("/p/b.mpr", true, false, true).unwrap();
    let next = e.entry_deleted(&plan, "/p/b.mpr");
    assert_eq!(next, Followup { open_map: Some("/p/a.mpr".to_string()), reset_view: true });
    assert_eq!(e.project.active_map.as_deref(), Some("/p/a.mpr"));
    assert!(e.preview.is_none());
    assert!(e.selected.is_none());
    let plan = e.plan_delete("/p/a.mpr", true, false, true).unwrap();
    let next = e.entry_deleted(&plan, "/p/a.mpr");
    assert_eq!(next, Followup { open_map: None, reset_view: true });
    assert!(e.project.active_map.is_none());
    assert!(e.preview.is_none());
}

#[test]
fn deleting_something_else_keeps_the_preview() {
    let mut e = editor_with(&["/p/a.mpr"]);
    e.layout.toggle_folder("/p/old");
    e.layout.toggle_folder("/p/old/sub");
    let plan = e.plan_delete("/p/old", true, true, false).unwrap();
    let next = e.entry_deleted(&plan, "/p/old");
    assert_eq!(next, nothing());
    assert!(e.preview.is_some());
    assert_eq!(e.project.active_map.as_deref(), Some("/p/a.mpr"));
    assert_eq!(folders(&e), vec!["/p"]);
}

#[test]
fn closing_the_sole_active_tab_clears_the_preview() {
    let mut e = editor_with(&["/p/a.mpr"]);
    let next = e.close_map_and_select_next("/p/a.mpr");
    assert_eq!(next, Followup { open_map: None, reset_view: true });
    assert!(e.preview.is_none());
    assert!(e.project.open_maps.is_empty());
}

#[test]
fn closing_the_active_tab_asks_for_the_other_one() {
    let mut e = editor_with(&["/p/a.mpr", "/p/b.mpr"]);
    let next = e.close_map_and_select_next("/p/b.mpr");
    assert_eq!(next, Followup { open_map: Some("/p/a.mpr".to_string()), reset_view: true });
    assert_eq!(e.project.active_map.as_deref(), Some("/p/a.mpr"));
    let mut e = editor_with(&["/p/a.mpr", "/p/b.mpr"]);
    let next = e.close_map_and_select_next("/p/a.mpr");
    assert_eq!(next, nothing());
    assert!(e.preview.is_some());
}

#[test]
fn saving_the_active_document() {
    let mut e = editor_with(&["/p/a.mpr"]);
    e.project.mark_dirty("/p/a.mpr");
    let req = e.save_request().unwrap();
    assert_eq!(req.path, "/p/a.mpr");
    assert_eq!(req.document, document_of(&blank_map(2, 2)));
    e.map_saved("/p/a.mpr");
    assert!(!e.project.is_dirty("/p/a.mpr"));
    e.preview = None;
    assert!(e.save_request().is_none());
    assert!(Editor::new().save_request().is_none());
}

#[test]
fn save_and_close() {
    let mut e = editor_with(&["/p/a.mpr", "/p/b.mpr"]);
    e.project.mark_dirty("/p/a.mpr");
    e.project.mark_dirty("/p/b.mpr");
    assert_eq!(e.begin_save_and_close("/p/a.mpr"), SaveStep::AlreadyClean);
    assert_eq!(
        e.begin_save_and_close("/p/b.mpr"),
        SaveStep::Write(document_of(&blank_map(2, 2)))
    );
    let next = e.finish_save_and_close("/p/b.mpr", Some(SaveOutcome::Failed));
    assert_eq!(next, nothing());
    assert!(e.project.is_dirty("/p/b.mpr"));
    assert_eq!(e.project.open_maps.len(), 2);
    let next = e.finish_save_and_close("/p/b.mpr", None);
    assert_eq!(next, nothing());
    let next = e.finish_save_and_close("/p/b.mpr", Some(SaveOutcome::Written));
    assert_eq!(next, Followup { open_map: Some("/p/a.mpr".to_string()), reset_view: true });
    assert_eq!(e.project.open_maps.len(), 1);
    assert!(!e.project.is_dirty("/p/b.mpr"));
    let mut e = editor_with(&["/p/a.mpr", "/p/b.mpr"]);
    e.project.mark_dirty("/p/a.mpr");
    let next = e.finish_save_and_close("/p/a.mpr", None);
    assert_eq!(next, nothing());
    assert_eq!(e.project.open_maps.len(), 1);
    assert!(!e.project.is_dirty("/p/a.mpr"));
    let mut e = editor_with(&["/p/a.mpr"]);
    e.preview = None;
    assert_eq!(e.begin_save_and_close("/p/a.mpr"), SaveStep::NothingToSave);
    let next = e.finish_save_and_close("/p/a.mpr", Some(SaveOutcome::Written));
    assert_eq!(next, nothing());
    assert_eq!(e.project.open_maps.len(), 1);
}

#[test]
fn closing_a_dirty_tab_waits_for_a_decision() {
    let mut e = editor_with(&["/p/a.mpr", "/p/b.mpr"]);
    e.project.mark_dirty("/p/a.mpr");
    assert_eq!(e.request_close("/p/a.mpr", "a.mpr"), None);
    assert_eq!(
        e.layout.pending_close,
        Some(PendingCloseTab {
            path: "/p/a.mpr".to_string(),
            name: "a.mpr".to_string(),
            requires_save: true
        })
    );
    assert_eq!(
        e.request_close("/p/b.mpr", "b.mpr"),
        Some(WorkspaceCommand::CloseMap { path: "/p/b.mpr".to_string() })
    );
    assert_eq!(e.layout.resolve_pending_close(CloseChoice::Undecided), None);
    assert!(e.layout.pending_close.is_some());
    assert_eq!(
        e.layout.resolve_pending_close(CloseChoice::Save),
        Some(WorkspaceCommand::SaveAndClose { path: "/p/a.mpr".to_string() })
    );
    assert!(e.layout.pending_close.is_none());
    assert_eq!(e.layout.resolve_pending_close(CloseChoice::Save), None);
}

#[test]
fn answers_to_a_pending_close() {
    let pending = |requires_save: bool| {
        let mut l = EditorLayout::new();
        l.request_close("/p/a.mpr".to_string(), "a.mpr".to_string(), requires_save);
        l
    };
    let close = Some(WorkspaceCommand::CloseMap { path: "/p/a.mpr".to_string() });
    let mut l = pending(true);
    assert_eq!(l.resolve_pending_close(CloseChoice::Discard), close);
    assert!(l.pending_close.is_none());
    let mut l = pending(true);
    assert_eq!(l.resolve_pending_close(CloseChoice::Cancel), None);
    assert!(l.pending_close.is_none());
    let mut l = pending(true);
    assert_eq!(l.resolve_pending_close(CloseChoice::Dismissed), None);
    assert!(l.pending_close.is_none());
    let mut l = pending(false);
    assert_eq!(l.resolve_pending_close(CloseChoice::Undecided), close);
    assert!(l.pending_close.is_none());
}

#[test]
fn a_pending_close_is_dropped_when_its_tab_is_gone() {
    let mut e = editor_with(&["/p/a.mpr"]);
    e.project.mark_dirty("/p/a.mpr");
    e.request_close("/p/a.mpr", "a.mpr");
    e.layout.drop_stale_pending_close(&e.project);
    assert!(e.layout.pending_close.is_some());
    e.close_map_and_select_next("/p/a.mpr");
    e.layout.drop_stale_pending_close(&e.project);
    assert!(e.layout.pending_close.is_none());
    e.layout.drop_stale_pending_close(&ProjectState::new());
    assert!(e.layout.pending_close.is_none());
}

#[test]
fn rename_sessions() {
    let mut l = EditorLayout::new();
    l.begin_rename("/p/a.mpr".to_string(), "a.mpr".to_string());
    let s = l.rename.as_ref().unwrap();
    assert_eq!((s.buffer.as_str(), s.focus_requested), ("a.mpr", true));
    l.rename.as_mut().unwrap().buffer = "  b.mpr ".to_string();
    assert_eq!(
        l.finish_rename(RenameInput::Commit),
        Some(RenameRequest { from: "/p/a.mpr".to_string(), new_name: "b.mpr".to_string() })
    );
    assert!(l.rename.is_none());
    assert_eq!(l.finish_rename(RenameInput::Commit), None);

    l.begin_rename("/p/a.mpr".to_string(), "a.mpr".to_string());
    assert_eq!(l.finish_rename(RenameInput::Commit), None);
    assert!(l.rename.is_none());

    l.begin_rename("/p/a.mpr".to_string(), "a.mpr".to_string());
    l.rename.as_mut().unwrap().buffer = "   ".to_string();
    assert_eq!(l.finish_rename(RenameInput::Commit), None);
    assert!(l.rename.is_none());

    for input in [RenameInput::Cancel, RenameInput::FocusLost] {
        l.begin_rename("/p/a.mpr".to_string(), "a.mpr".to_string());
        l.rename.as_mut().unwrap().buffer = "b.mpr".to_string();
        assert_eq!(l.finish_rename(input), None);
        assert!(l.rename.is_none());
    }
    l.begin_rename("/p/a.mpr".to_string(), "a.mpr".to_string());
    l.cancel_rename();
    assert!(l.rename.is_none());
}

#[test]
fn folders_toggle() {
    let mut l = EditorLayout::new();
    assert!(!l.is_expanded("/p/a"));
    l.toggle_folder("/p/a");
    assert!(l.is_expanded("/p/a"));
    l.toggle_folder("/p/a");
    assert!(!l.is_expanded("/p/a"));
    l.reset_with_root("/p".to_string());
    assert!(l.show_explorer);
    assert!(l.is_expanded("/p"));
    l.reset();
    assert!(!l.show_explorer);
    assert!(!l.is_expanded("/p"));
}

#[test]
fn only_maps_are_opened() {
    assert!(Editor::wants_open("/p/a.mpr"));
    assert!(Editor::wants_open("/p/a.MAP"));
    assert!(!Editor::wants_open("/p/readme.txt"));
}

#[test]
fn a_map_that_fails_to_load_clears_the_preview_only() {
    let mut e = editor_with(&["/p/a.mpr"]);
    let err = MapError::InvalidSize { path: "/p/b.mpr".to_string() };
    assert_eq!(e.map_loaded("/p/b.mpr", Err(err.clone())), Err(err));
    assert!(e.preview.is_none());
    assert_eq!(e.project.open_maps.len(), 1);
    assert_eq!(e.project.active_map.as_deref(), Some("/p/a.mpr"));
}

#[test]
fn a_loaded_map_resets_the_selection() {
    let mut e = editor_with(&["/p/a.mpr"]);
    e.selected = Some((3, 3));
    e.project.mark_dirty("/p/a.mpr");
    assert!(e.map_loaded("/p/a.mpr", Ok(blank_map(5, 5))).is_ok());
    assert_eq!(e.preview, Some(blank_map(5, 5)));
    assert!(e.selected.is_none());
    assert!(!e.project.is_dirty("/p/a.mpr"));
    assert_eq!(e.project.open_maps.len(), 1);
}

#[test]
fn refusals_have_messages() {
    let path = || "/p/x".to_string();
    let cases = [
        (ExplorerError::NoProject, "No project is open"),
        (ExplorerError::NotADirectory { path: path() }, "Target is not a directory: /p/x"),
        (ExplorerError::OutsideRoot { path: path() }, "Target outside project root: /p/x"),
        (ExplorerError::Missing { path: path() }, "Target missing: /p/x"),
        (ExplorerError::EmptyName, "Rename requires a non-empty name"),
        (ExplorerError::InvalidName { name: "a/b".to_string() }, "Rename rejected invalid name: a/b"),
        (ExplorerError::Unchanged, "The name is unchanged"),
        (
            ExplorerError::DestinationExists { path: path() },
            "Rename destination already exists: /p/x",
        ),
        (ExplorerError::Unsupported { path: path() }, "Delete unsupported target type: /p/x"),
    ];
    for (error, text) in cases {
        assert_eq!(error.message(), text);
    }
}

#[test]
fn the_first_map_is_written_only_where_there_is_none() {
    assert_eq!(default_map_to_write(true), None);
    assert_eq!(default_map_to_write(false), Some(document_of(&blank_map(64, 64))));
    assert_eq!(new_map_document(), document_of(&blank_map(64, 64)));
    assert_eq!(new_map_document().elevations.map(|e| e.len()), Some(64 * 64));
}
