//! The commands that reach the document model, and the requests it sends on.

use vstd::prelude::*;

verus! {

/// Menu command: pick a folder to open, or close the open one.
#[derive(Debug, Clone, Copy, PartialEq, Eq, Structural)]
pub enum OpenFolder {
    Pick,
    Close,
}

/// Menu command: set up a new project in a folder to be picked.
#[derive(Debug, Clone, Copy, PartialEq, Eq, Structural)]
pub struct CreateProject;

/// A request to open the map at `path`.
#[derive(Debug, Clone, PartialEq, Eq)]
pub struct OpenMap {
    pub path: String,
}

/// A command of the explorer's context menu.
#[derive(Debug, Clone, PartialEq, Eq)]
pub enum ExplorerCommand {
    NewFile { parent: String },
    NewFolder { parent: String },
    RenameEntry { from: String, new_name: String },
    DeleteEntry { path: String },
}

/// A command on the open documents.
#[derive(Debug, Clone, PartialEq, Eq)]
pub enum WorkspaceCommand {
    SaveActive,
    SaveAndClose { path: String },
    CloseMap { path: String },
}

/// What a `WorkspaceCommand` holds.
pub enum WorkspaceCommandModel {
    SaveActive,
    SaveAndClose { path: Seq<char> },
    CloseMap { path: Seq<char> },
}

impl View for WorkspaceCommand {
    type V = WorkspaceCommandModel;

    open spec fn view(&self) -> WorkspaceCommandModel {
        match *self {
            WorkspaceCommand::SaveActive => WorkspaceCommandModel::SaveActive,
            WorkspaceCommand::SaveAndClose { path } => WorkspaceCommandModel::SaveAndClose {
                path: path@,
            },
            WorkspaceCommand::CloseMap { path } => WorkspaceCommandModel::CloseMap { path: path@ },
        }
    }
}

/// What an optional command holds.
pub open spec fn command_view(c: Option<WorkspaceCommand>) -> Option<WorkspaceCommandModel> {
    match c {
        Some(command) => Some(command@),
        None => None,
    }
}

} // verus!
