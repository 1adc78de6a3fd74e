//! Document-workflow state of the editor's panels: the expanded folders, the
//! rename in progress and the close that waits for a decision.

use crate::events::{command_view, WorkspaceCommand, WorkspaceCommandModel};
use crate::path_set::{moved_set, unaffected_set, PathSet};
use crate::project::ProjectState;
use crate::text::{from_chars, same_chars, to_chars, trim, trimmed};
use vstd::prelude::*;
use vstd::string::StringExecFns;

verus! {

/// A rename in progress: the entry it is about, the name it had, and what
/// has been typed so far.
#[derive(Debug, Clone, PartialEq, Eq)]
pub struct RenameSession {
    pub target_path: String,
    pub original_name: String,
    pub buffer: String,
    pub focus_requested: bool,
}

/// A close that waits for the decision on unsaved changes.
#[derive(Debug, Clone, PartialEq, Eq)]
pub struct PendingCloseTab {
    pub path: String,
    pub name: String,
    pub requires_save: bool,
}

/// What the panels show, and what waits for the user.
#[derive(Debug)]
pub struct EditorLayout {
    pub show_explorer: bool,
    /// Ids of the folders that are expanded.
    pub open_folders: PathSet,
    pub rename: Option<RenameSession>,
    pub pending_close: Option<PendingCloseTab>,
}

/// What a `RenameSession` holds.
pub struct RenameModel {
    pub target_path: Seq<char>,
    pub original_name: Seq<char>,
    pub buffer: Seq<char>,
    pub focus_requested: bool,
}

/// What a `PendingCloseTab` holds.
pub struct PendingModel {
    pub path: Seq<char>,
    pub name: Seq<char>,
    pub requires_save: bool,
}

/// What an `EditorLayout` holds.
pub struct LayoutModel {
    pub show_explorer: bool,
    pub open_folders: Set<Seq<char>>,
    pub rename: Option<RenameModel>,
    pub pending_close: Option<PendingModel>,
}

impl View for RenameSession {
    type V = RenameModel;

    open spec fn view(&self) -> RenameModel {
        RenameModel {
            target_path: self.target_path@,
            original_name: self.original_name@,
            buffer: self.buffer@,
            focus_requested: self.focus_requested,
        }
    }
}

impl View for PendingCloseTab {
    type V = PendingModel;

    open spec fn view(&self) -> PendingModel {
        PendingModel { path: self.path@, name: self.name@, requires_save: self.requires_save }
    }
}

/// What an optional rename session holds.
pub open spec fn rename_view(r: Option<RenameSession>) -> Option<RenameModel> {
    match r {
        Some(session) => Some(session@),
        None => None,
    }
}

/// What an optional pending close holds.
pub open spec fn pending_view(p: Option<PendingCloseTab>) -> Option<PendingModel> {
    match p {
        Some(pending) => Some(pending@),
        None => None,
    }
}

impl View for EditorLayout {
    type V = LayoutModel;

    open spec fn view(&self) -> LayoutModel {
        LayoutModel {
            show_explorer: self.show_explorer,
            open_folders: self.open_folders@,
            rename: rename_view(self.rename),
            pending_close: pending_view(self.pending_close),
        }
    }
}

/// How an input to the rename field ends the session.
#[derive(Debug, Clone, Copy, PartialEq, Eq, Structural)]
pub enum RenameInput {
    /// The name was confirmed.
    Commit,
    /// The rename was called off.
    Cancel,
    /// The field lost the focus.
    FocusLost,
}

/// The answer to the question whether unsaved changes are to be saved.
#[derive(Debug, Clone, Copy, PartialEq, Eq, Structural)]
pub enum CloseChoice {
    /// No answer yet.
    Undecided,
    Save,
    Discard,
    Cancel,
    /// The question was closed without an answer.
    Dismissed,
}

/// The rename to carry out: the entry and its new name.
#[derive(Debug, Clone, PartialEq, Eq)]
pub struct RenameRequest {
    pub from: String,
    pub new_name: String,
}

/// What a `RenameRequest` holds.
pub struct RenameRequestModel {
    pub from: Seq<char>,
    pub new_name: Seq<char>,
}

impl View for RenameRequest {
    type V = RenameRequestModel;

    open spec fn view(&self) -> RenameRequestModel {
        RenameRequestModel { from: self.from@, new_name: self.new_name@ }
    }
}

/// What an optional rename request holds.
pub open spec fn request_view(r: Option<RenameRequest>) -> Option<RenameRequestModel> {
    match r {
        Some(request) => Some(request@),
        None => None,
    }
}

impl LayoutModel {
    /// Nothing shown, nothing expanded, nothing in progress.
    pub open spec fn blank() -> LayoutModel {
        LayoutModel {
            show_explorer: false,
            open_folders: Set::empty(),
            rename: None,
            pending_close: None,
        }
    }

    /// The explorer shown with only the root folder expanded.
    pub open spec fn with_root(root_id: Seq<char>) -> LayoutModel {
        LayoutModel {
            show_explorer: true,
            open_folders: Set::<Seq<char>>::empty().insert(root_id),
            rename: None,
            pending_close: None,
        }
    }

    /// The rename that ending the session with `input` asks for: a
    /// confirmed name, trimmed, that is not empty and differs from the
    /// name the entry had.
    pub open spec fn rename_request(self, input: RenameInput) -> Option<RenameRequestModel> {
        match self.rename {
            Some(session) => {
                let name = trimmed(session.buffer);
                if input == RenameInput::Commit && name.len() > 0 && name
                    != session.original_name {
                    Some(RenameRequestModel { from: session.target_path, new_name: name })
                } else {
                    None
                }
            },
            None => None,
        }
    }

    /// Whether `choice` settles the pending close.
    pub open spec fn settles(self, choice: CloseChoice) -> bool {
        self.pending_close matches Some(p) && (!p.requires_save || choice
            != CloseChoice::Undecided)
    }

    /// The command that `choice` sends for the pending close: a close where
    /// nothing has to be saved or the changes are discarded, save-and-close
    /// where they are to be saved, none otherwise.
    pub open spec fn close_command(self, choice: CloseChoice) -> Option<WorkspaceCommandModel> {
        match self.pending_close {
            Some(p) => if !p.requires_save || choice == CloseChoice::Discard {
                Some(WorkspaceCommandModel::CloseMap { path: p.path })
            } else if choice == CloseChoice::Save {
                Some(WorkspaceCommandModel::SaveAndClose { path: p.path })
            } else {
                None
            },
            None => None,
        }
    }
}

impl EditorLayout {
    /// The layout before a project is opened.
    pub fn new() -> (layout: EditorLayout)
        ensures
            layout@ == LayoutModel::blank(),
    {
        EditorLayout {
            show_explorer: false,
            open_folders: PathSet::new(),
            rename: None,
            pending_close: None,
        }
    }

    /// Starts renaming the entry at `target_path`; the field shows its name.
    pub fn begin_rename(&mut self, target_path: String, original_name: String)
        ensures
            final(self)@ == (LayoutModel {
                rename: Some(
                    RenameModel {
                        target_path: target_path@,
                        original_name: original_name@,
                        buffer: original_name@,
                        focus_requested: true,
                    },
                ),
                ..old(self)@
            }),
    {
        let buffer = original_name.clone();
        self.rename = Some(
            RenameSession { target_path, original_name, buffer, focus_requested: true },
        );
    }

    /// Discards the rename in progress.
    pub fn cancel_rename(&mut self)
        ensures
            final(self)@ == (LayoutModel { rename: None, ..old(self)@ }),
    {
        self.rename = None;
    }

    /// Ends the rename in progress. The session is discarded whatever the
    /// input; the result is the rename to carry out, if there is one.
    pub fn finish_rename(&mut self, input: RenameInput) -> (request: Option<RenameRequest>)
        ensures
            final(self)@ == (LayoutModel { rename: None, ..old(self)@ }),
            request_view(request) == old(self)@.rename_request(input),
    {
        let mut request: Option<RenameRequest> = None;
        match &self.rename {
            Some(session) => {
                if input == RenameInput::Commit {
                    let typed = to_chars(session.buffer.as_str());
                    let name = trim(typed.as_slice());
                    let original = to_chars(session.original_name.as_str());
                    if name.len() > 0 && !same_chars(name, original.as_slice()) {
                        request = Some(
                            RenameRequest {
                                from: session.target_path.clone(),
                                new_name: from_chars(name),
                            },
                        );
                    }
                }
            },
            None => {},
        }
        self.rename = None;
        request
    }

    /// Records that closing the tab at `path` waits for a decision.
    pub fn request_close(&mut self, path: String, name: String, requires_save: bool)
        ensures
            final(self)@ == (LayoutModel {
                pending_close: Some(PendingModel { path: path@, name: name@, requires_save }),
                ..old(self)@
            }),
    {
        self.pending_close = Some(PendingCloseTab { path, name, requires_save });
    }

    /// Forgets the close that waits for a decision.
    pub fn clear_pending_close(&mut self)
        ensures
            final(self)@ == (LayoutModel { pending_close: None, ..old(self)@ }),
    {
        self.pending_close = None;
    }

    /// Applies the answer `choice` to the pending close. An answer settles
    /// it; without one it stays, unless nothing has to be saved.
    pub fn resolve_pending_close(&mut self, choice: CloseChoice) -> (command: Option<
        WorkspaceCommand,
    >)
        ensures
            command_view(command) == old(self)@.close_command(choice),
            final(self)@ == (LayoutModel {
                pending_close: if old(self)@.settles(choice) {
                    None
                } else {
                    old(self)@.pending_close
                },
                ..old(self)@
            }),
    {
        let mut command: Option<WorkspaceCommand> = None;
        let mut settled: bool = false;
        match &self.pending_close {
            Some(p) => {
                if !p.requires_save || choice == CloseChoice::Discard {
                    command = Some(WorkspaceCommand::CloseMap { path: p.path.clone() });
                    settled = true;
                } else if choice == CloseChoice::Save {
                    command = Some(WorkspaceCommand::SaveAndClose { path: p.path.clone() });
                    settled = true;
                } else if choice != CloseChoice::Undecided {
                    settled = true;
                }
            },
            None => {},
        }
        if settled {
            self.pending_close = None;
        }
        command
    }

    /// Drops a pending close whose tab is no longer open.
    pub fn drop_stale_pending_close(&mut self, project: &ProjectState)
        ensures
            final(self)@ == (LayoutModel {
                pending_close: match old(self)@.pending_close {
                    Some(p) => if project@.has_tab(p.path) {
                        Some(p)
                    } else {
                        None
                    },
                    None => None,
                },
                ..old(self)@
            }),
    {
        let stale: bool = match &self.pending_close {
            Some(p) => !project.is_open(p.path.as_str()),
            None => false,
        };
        if stale {
            self.pending_close = None;
        }
    }

    /// Hides the explorer and forgets everything.
    pub fn reset(&mut self)
        ensures
            final(self)@ == LayoutModel::blank(),
    {
        self.show_explorer = false;
        self.open_folders.clear();
        self.cancel_rename();
        self.clear_pending_close();
    }

    /// Shows the explorer with only the folder `root_id` expanded.
    pub fn reset_with_root(&mut self, root_id: String)
        ensures
            final(self)@ == LayoutModel::with_root(root_id@),
    {
        self.show_explorer = true;
        self.open_folders.clear();
        self.open_folders.insert(root_id);
        self.cancel_rename();
        self.clear_pending_close();
    }

    /// Whether the folder `id` is expanded.
    pub fn is_expanded(&self, id: &str) -> (b: bool)
        ensures
            b == self@.open_folders.contains(id@),
    {
        self.open_folders.contains(id)
    }

    /// Expands the folder `id` if it is collapsed, and collapses it if it
    /// is expanded.
    pub fn toggle_folder(&mut self, id: &str)
        ensures
            final(self)@ == (LayoutModel {
                open_folders: if old(self)@.open_folders.contains(id@) {
                    old(self)@.open_folders.remove(id@)
                } else {
                    old(self)@.open_folders.insert(id@)
                },
                ..old(self)@
            }),
    {
        if self.open_folders.contains(id) {
            self.open_folders.remove(id);
        } else {
            self.open_folders.insert(String::from_str(id));
        }
    }

    /// Moves the expanded folders below the renamed directory `old_id`.
    pub fn handle_renamed_path(&mut self, old_id: &str, new_id: &str, was_dir: bool)
        ensures
            final(self)@ == (LayoutModel {
                open_folders: if was_dir {
                    moved_set(old(self)@.open_folders, old_id@, new_id@, true)
                } else {
                    old(self)@.open_folders
                },
                ..old(self)@
            }),
    {
        if was_dir {
            self.open_folders.rename(old_id, new_id, true);
        }
    }

    /// Forgets the expanded folders within the deleted entry `id`.
    pub fn handle_deleted_path(&mut self, id: &str)
        ensures
            final(self)@ == (LayoutModel {
                open_folders: unaffected_set(old(self)@.open_folders, id@, true),
                ..old(self)@
            }),
    {
        self.open_folders.delete(id, true);
    }
}

} // verus!
