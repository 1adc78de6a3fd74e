//! The document model as one object: the project registry, the panel state
//! and the loaded map, with one operation for each step of a command.
//!
//! A command that touches the file system is handled in steps. The model
//! first checks the command against the registry and what the caller found
//! on disk, and either refuses it or hands back a plan. The caller carries
//! the plan out and reports back, and the model then updates itself and
//! says what has to follow: a map to open, or the view to reset.

use crate::document::{
    document_of, map_document, new_map_document, DocumentModel, MprDocument,
};
use crate::map_data::blank_model;
use crate::error::MapError;
use crate::events::{command_view, WorkspaceCommand, WorkspaceCommandModel};
use crate::layout::{EditorLayout, LayoutModel, PendingModel};
use crate::map_data::{text_view, MapData, MapModel};
use crate::parser::{is_map_path, names_map};
use crate::path_set::{moved_set, unaffected_set};
use crate::paths::{
    chars_join, chars_parent, chars_simple_name, chars_within, is_within, join, joined,
    lemma_joined_within, lemma_within_transitive, parent_dir, simple_name, within,
};
use crate::project::{first_path, ProjectModel, ProjectState};
use crate::text::{from_chars, same_chars, to_chars, trim, trimmed};
use crate::tree::{Node, NodeModel};
use vstd::prelude::*;
use vstd::string::StringExecFns;

verus! {

/// The document model: what is open, what the panels show, and the map
/// on screen.
pub struct Editor {
    pub project: ProjectState,
    pub layout: EditorLayout,
    /// The map that is shown: the contents of the active document.
    pub preview: Option<MapData>,
    /// The selected tile.
    pub selected: Option<(i32, i32)>,
}

/// What an `Editor` holds.
pub struct EditorModel {
    pub project: ProjectModel,
    pub layout: LayoutModel,
    pub preview: Option<MapModel>,
    pub selected: Option<(i32, i32)>,
}

/// What an optional map holds.
pub open spec fn map_view(map: Option<MapData>) -> Option<MapModel> {
    match map {
        Some(m) => Some(m@),
        None => None,
    }
}

impl View for Editor {
    type V = EditorModel;

    open spec fn view(&self) -> EditorModel {
        EditorModel {
            project: self.project@,
            layout: self.layout@,
            preview: map_view(self.preview),
            selected: self.selected,
        }
    }
}

/// What has to follow a step: a map to open next, and whether pan and zoom
/// go back to their defaults.
#[derive(Debug, Clone, PartialEq, Eq)]
pub struct Followup {
    pub open_map: Option<String>,
    pub reset_view: bool,
}

/// What a `Followup` holds.
pub struct FollowupModel {
    pub open_map: Option<Seq<char>>,
    pub reset_view: bool,
}

impl View for Followup {
    type V = FollowupModel;

    open spec fn view(&self) -> FollowupModel {
        FollowupModel { open_map: text_view(self.open_map), reset_view: self.reset_view }
    }
}

/// Why an explorer command was refused. A refused command has touched
/// neither the file system nor the model.
#[derive(Debug, Clone, PartialEq, Eq)]
pub enum ExplorerError {
    NoProject,
    NotADirectory { path: String },
    OutsideRoot { path: String },
    Missing { path: String },
    EmptyName,
    InvalidName { name: String },
    /// The new name is the old one.
    Unchanged,
    DestinationExists { path: String },
    /// Neither a file nor a directory.
    Unsupported { path: String },
}

/// What an `ExplorerError` holds.
pub enum ExplorerErrorModel {
    NoProject,
    NotADirectory { path: Seq<char> },
    OutsideRoot { path: Seq<char> },
    Missing { path: Seq<char> },
    EmptyName,
    InvalidName { name: Seq<char> },
    Unchanged,
    DestinationExists { path: Seq<char> },
    Unsupported { path: Seq<char> },
}

impl View for ExplorerError {
    type V = ExplorerErrorModel;

    open spec fn view(&self) -> ExplorerErrorModel {
        match *self {
            ExplorerError::NoProject => ExplorerErrorModel::NoProject,
            ExplorerError::NotADirectory { path } => ExplorerErrorModel::NotADirectory {
                path: path@,
            },
            ExplorerError::OutsideRoot { path } => ExplorerErrorModel::OutsideRoot { path: path@ },
            ExplorerError::Missing { path } => ExplorerErrorModel::Missing { path: path@ },
            ExplorerError::EmptyName => ExplorerErrorModel::EmptyName,
            ExplorerError::InvalidName { name } => ExplorerErrorModel::InvalidName { name: name@ },
            ExplorerError::Unchanged => ExplorerErrorModel::Unchanged,
            ExplorerError::DestinationExists { path } => ExplorerErrorModel::DestinationExists {
                path: path@,
            },
            ExplorerError::Unsupported { path } => ExplorerErrorModel::Unsupported { path: path@ },
        }
    }
}

/// The text shown for a refused command.
pub open spec fn refusal_of(e: ExplorerErrorModel) -> Seq<char> {
    match e {
        ExplorerErrorModel::NoProject => "No project is open"@,
        ExplorerErrorModel::NotADirectory { path } => "Target is not a directory: "@ + path,
        ExplorerErrorModel::OutsideRoot { path } => "Target outside project root: "@ + path,
        ExplorerErrorModel::Missing { path } => "Target missing: "@ + path,
        ExplorerErrorModel::EmptyName => "Rename requires a non-empty name"@,
        ExplorerErrorModel::InvalidName { name } => "Rename rejected invalid name: "@ + name,
        ExplorerErrorModel::Unchanged => "The name is unchanged"@,
        ExplorerErrorModel::DestinationExists { path } => "Rename destination already exists: "@
            + path,
        ExplorerErrorModel::Unsupported { path } => "Delete unsupported target type: "@ + path,
    }
}

fn with_path(prefix: &str, path: &String) -> (out: String)
    ensures
        out@ == prefix@ + path@,
{
    let mut out = String::from_str(prefix);
    out.append(path.as_str());
    out
}

impl ExplorerError {
    /// The text shown for the refusal.
    pub fn message(&self) -> (out: String)
        ensures
            out@ == refusal_of(self@),
    {
        match self {
            ExplorerError::NoProject => String::from_str("No project is open"),
            ExplorerError::NotADirectory { path } => with_path("Target is not a directory: ", path),
            ExplorerError::OutsideRoot { path } => with_path("Target outside project root: ", path),
            ExplorerError::Missing { path } => with_path("Target missing: ", path),
            ExplorerError::EmptyName => String::from_str("Rename requires a non-empty name"),
            ExplorerError::InvalidName { name } => with_path(
                "Rename rejected invalid name: ",
                name,
            ),
            ExplorerError::Unchanged => String::from_str("The name is unchanged"),
            ExplorerError::DestinationExists { path } => with_path(
                "Rename destination already exists: ",
                path,
            ),
            ExplorerError::Unsupported { path } => with_path(
                "Delete unsupported target type: ",
                path,
            ),
        }
    }
}

/// A rename that may be carried out.
#[derive(Debug, Clone, PartialEq, Eq)]
pub struct RenamePlan {
    pub from: String,
    pub to: String,
    pub was_dir: bool,
}

/// What a `RenamePlan` holds.
pub struct RenamePlanModel {
    pub from: Seq<char>,
    pub to: Seq<char>,
    pub was_dir: bool,
}

impl View for RenamePlan {
    type V = RenamePlanModel;

    open spec fn view(&self) -> RenamePlanModel {
        RenamePlanModel { from: self.from@, to: self.to@, was_dir: self.was_dir }
    }
}

/// A deletion that may be carried out: of a file, or of a directory with
/// all that it holds.
#[derive(Debug, Clone, PartialEq, Eq)]
pub struct DeletePlan {
    pub path: String,
    pub was_dir: bool,
}

/// What a `DeletePlan` holds.
pub struct DeletePlanModel {
    pub path: Seq<char>,
    pub was_dir: bool,
}

impl View for DeletePlan {
    type V = DeletePlanModel;

    open spec fn view(&self) -> DeletePlanModel {
        DeletePlanModel { path: self.path@, was_dir: self.was_dir }
    }
}

/// What the result of a check holds.
pub open spec fn check_view(r: Result<(), ExplorerError>) -> Result<(), ExplorerErrorModel> {
    match r {
        Ok(_) => Ok(()),
        Err(e) => Err(e@),
    }
}

/// What the result of planning a rename holds.
pub open spec fn rename_plan_view(r: Result<RenamePlan, ExplorerError>) -> Result<
    RenamePlanModel,
    ExplorerErrorModel,
> {
    match r {
        Ok(plan) => Ok(plan@),
        Err(e) => Err(e@),
    }
}

/// What the result of planning a deletion holds.
pub open spec fn delete_plan_view(r: Result<DeletePlan, ExplorerError>) -> Result<
    DeletePlanModel,
    ExplorerErrorModel,
> {
    match r {
        Ok(plan) => Ok(plan@),
        Err(e) => Err(e@),
    }
}

/// Whether a new entry may be made in `parent`: a project is open, and
/// `parent` is a directory within it.
pub open spec fn new_entry_check(
    root: Option<Seq<char>>,
    parent: Seq<char>,
    parent_is_dir: bool,
) -> Result<(), ExplorerErrorModel> {
    match root {
        None => Err(ExplorerErrorModel::NoProject),
        Some(r) => if !parent_is_dir {
            Err(ExplorerErrorModel::NotADirectory { path: parent })
        } else if !within(parent, r) {
            Err(ExplorerErrorModel::OutsideRoot { path: parent })
        } else {
            Ok(())
        },
    }
}

/// Where the entry `from` stands under the name `name`: in the directory
/// that holds it, or in the root if it has none.
pub open spec fn rename_destination(root: Seq<char>, from: Seq<char>, name: Seq<char>) -> Seq<
    char,
> {
    joined(
        match parent_dir(from) {
            Some(dir) => dir,
            None => root,
        },
        name,
    )
}

/// The rename of `from` to the name `new_name`, or why it is refused: no
/// project, the entry missing or outside the project, the trimmed name
/// empty or not one plain component, the name unchanged, or the destination
/// outside the project.
pub open spec fn rename_plan(
    root: Option<Seq<char>>,
    from: Seq<char>,
    new_name: Seq<char>,
    exists: bool,
    is_dir: bool,
) -> Result<RenamePlanModel, ExplorerErrorModel> {
    match root {
        None => Err(ExplorerErrorModel::NoProject),
        Some(r) => {
            let name = trimmed(new_name);
            let to = rename_destination(r, from, name);
            if !exists {
                Err(ExplorerErrorModel::Missing { path: from })
            } else if !within(from, r) {
                Err(ExplorerErrorModel::OutsideRoot { path: from })
            } else if name.len() == 0 {
                Err(ExplorerErrorModel::EmptyName)
            } else if !simple_name(name) {
                Err(ExplorerErrorModel::InvalidName { name })
            } else if to == from {
                Err(ExplorerErrorModel::Unchanged)
            } else if !within(to, r) {
                Err(ExplorerErrorModel::OutsideRoot { path: to })
            } else {
                Ok(RenamePlanModel { from, to, was_dir: is_dir })
            }
        },
    }
}

/// The deletion of `path`, or why it is refused: no project, the entry
/// missing or outside the project, or neither a file nor a directory.
pub open spec fn delete_plan(
    root: Option<Seq<char>>,
    path: Seq<char>,
    exists: bool,
    is_dir: bool,
    is_file: bool,
) -> Result<DeletePlanModel, ExplorerErrorModel> {
    match root {
        None => Err(ExplorerErrorModel::NoProject),
        Some(r) => if !exists {
            Err(ExplorerErrorModel::Missing { path })
        } else if !within(path, r) {
            Err(ExplorerErrorModel::OutsideRoot { path })
        } else if is_file {
            Ok(DeletePlanModel { path, was_dir: false })
        } else if is_dir {
            Ok(DeletePlanModel { path, was_dir: true })
        } else {
            Err(ExplorerErrorModel::Unsupported { path })
        },
    }
}

/// No explorer command is planned for a target outside the project root:
/// a new entry, a rename and a deletion there are all refused.
pub proof fn lemma_outside_root_is_refused(
    root: Seq<char>,
    target: Seq<char>,
    new_name: Seq<char>,
    exists: bool,
    is_dir: bool,
    is_file: bool,
)
    requires
        !within(target, root),
    ensures
        new_entry_check(Some(root), target, is_dir) is Err,
        rename_plan(Some(root), target, new_name, exists, is_dir) is Err,
        delete_plan(Some(root), target, exists, is_dir, is_file) is Err,
{
}

/// A new entry that may be made lies within the project root, whatever
/// its name.
pub proof fn lemma_new_entry_is_within_root(
    root: Seq<char>,
    parent: Seq<char>,
    parent_is_dir: bool,
    name: Seq<char>,
)
    requires
        root.len() > 0,
        new_entry_check(Some(root), parent, parent_is_dir) is Ok,
    ensures
        within(joined(parent, name), root),
{
    lemma_joined_within(parent, name);
    lemma_within_transitive(joined(parent, name), parent, root);
}

/// A planned rename stays within the project root at both ends.
pub proof fn lemma_rename_stays_within_root(
    root: Seq<char>,
    from: Seq<char>,
    new_name: Seq<char>,
    exists: bool,
    is_dir: bool,
)
    requires
        rename_plan(Some(root), from, new_name, exists, is_dir) is Ok,
    ensures
        within(rename_plan(Some(root), from, new_name, exists, is_dir)->Ok_0.from, root),
        within(rename_plan(Some(root), from, new_name, exists, is_dir)->Ok_0.to, root),
{
}

/// The paths of a new project: the directory of its maps and its first map.
#[derive(Debug, Clone, PartialEq, Eq)]
pub struct ScaffoldPlan {
    pub maps_dir: String,
    pub default_map: String,
}

/// Where the maps of the project at `root` go, and its first map.
pub fn scaffold_project(root: &str) -> (plan: ScaffoldPlan)
    ensures
        plan.maps_dir@ == joined(root@, "maps"@),
        plan.default_map@ == joined(joined(root@, "maps"@), "main.mpr"@),
{
    let maps_dir = join(root, "maps");
    let default_map = join(maps_dir.as_str(), "main.mpr");
    ScaffoldPlan { maps_dir, default_map }
}

/// The record to write as the first map of a new project: a blank map,
/// unless the project has its first map already.
pub fn default_map_to_write(default_map_exists: bool) -> (doc: Option<MprDocument>)
    ensures
        match doc {
            Some(d) => !default_map_exists && d@ == map_document(blank_model(64, 64)),
            None => default_map_exists,
        },
{
    if default_map_exists {
        None
    } else {
        Some(new_map_document())
    }
}

/// Says whether the destination of a planned rename is free.
pub fn confirm_rename(plan: &RenamePlan, destination_exists: bool) -> (r: Result<
    (),
    ExplorerError,
>)
    ensures
        check_view(r) == (if destination_exists {
            Err::<(), ExplorerErrorModel>(ExplorerErrorModel::DestinationExists { path: plan.to@ })
        } else {
            Ok::<(), ExplorerErrorModel>(())
        }),
{
    if destination_exists {
        Err(ExplorerError::DestinationExists { path: plan.to.clone() })
    } else {
        Ok(())
    }
}

/// How the attempt to save a document before closing it ended.
#[derive(Debug, Clone, Copy, PartialEq, Eq, Structural)]
pub enum SaveOutcome {
    Written,
    Failed,
}

/// What saving before a close has to do.
#[derive(Debug, Clone, PartialEq, Eq)]
pub enum SaveStep {
    /// Write this record to the document's path.
    Write(MprDocument),
    /// The document is not the active one; it counts as saved.
    AlreadyClean,
    /// The document is active but no map is loaded: nothing can be saved.
    NothingToSave,
}

/// What a `SaveStep` holds.
pub enum SaveStepModel {
    Write(DocumentModel),
    AlreadyClean,
    NothingToSave,
}

impl View for SaveStep {
    type V = SaveStepModel;

    open spec fn view(&self) -> SaveStepModel {
        match *self {
            SaveStep::Write(doc) => SaveStepModel::Write(doc@),
            SaveStep::AlreadyClean => SaveStepModel::AlreadyClean,
            SaveStep::NothingToSave => SaveStepModel::NothingToSave,
        }
    }
}

/// A document to write: where, and what.
#[derive(Debug, Clone, PartialEq, Eq)]
pub struct SaveRequest {
    pub path: String,
    pub document: MprDocument,
}

impl EditorModel {
    /// No project, no document, no map.
    pub open spec fn empty() -> EditorModel {
        EditorModel {
            project: ProjectModel::none(),
            layout: LayoutModel::blank(),
            preview: None,
            selected: None,
        }
    }

    /// The project at `dir` freshly opened with the snapshot `root`: only
    /// the root folder is expanded, and no document is open.
    pub open spec fn opened_folder(dir: Seq<char>, root: NodeModel) -> EditorModel {
        EditorModel {
            project: ProjectModel {
                root: Some(root),
                root_path: Some(dir),
                tabs: Seq::empty(),
                active: None,
                dirty: Set::empty(),
            },
            layout: LayoutModel::with_root(root.id),
            preview: None,
            selected: None,
        }
    }

    /// The map `map` of the document at `path` loaded and shown.
    pub open spec fn with_map(self, path: Seq<char>, map: MapModel) -> EditorModel {
        EditorModel {
            project: self.project.opened(path),
            preview: Some(map),
            selected: None,
            ..self
        }
    }

    /// The model after the rename `plan` was carried out; `old_id` and
    /// `new_id` are the ids of the entry before and after.
    pub open spec fn after_rename(
        self,
        plan: RenamePlanModel,
        old_id: Seq<char>,
        new_id: Seq<char>,
    ) -> EditorModel {
        EditorModel {
            project: self.project.renamed(plan.from, plan.to, plan.was_dir),
            layout: LayoutModel {
                open_folders: if plan.was_dir {
                    moved_set(self.layout.open_folders, old_id, new_id, true)
                } else {
                    self.layout.open_folders
                },
                ..self.layout
            },
            ..self
        }
    }

    /// What follows the rename: the active document is opened again where
    /// its path has changed.
    pub open spec fn rename_followup(self, plan: RenamePlanModel) -> FollowupModel {
        let after = self.project.renamed(plan.from, plan.to, plan.was_dir).active;
        FollowupModel {
            open_map: if self.project.active is Some && after != self.project.active {
                after
            } else {
                None
            },
            reset_view: false,
        }
    }

    /// The active document is among what `target` takes away and no tab is
    /// left to take its place.
    pub open spec fn loses_preview(self, target: Seq<char>, was_dir: bool) -> bool {
        self.project.loses_active(target, was_dir) && self.project.promoted(target, was_dir)
            is None
    }

    /// The model after `target` was deleted or closed. Where the active
    /// document went away, the shown map is cleared with the selection.
    pub open spec fn after_removal(self, target: Seq<char>, was_dir: bool) -> EditorModel {
        EditorModel {
            project: self.project.without(target, was_dir),
            preview: if self.project.loses_active(target, was_dir) {
                None
            } else {
                self.preview
            },
            selected: if self.project.loses_active(target, was_dir) {
                None
            } else {
                self.selected
            },
            ..self
        }
    }

    /// What follows a deletion or a close: the document that took the
    /// place of the active one is opened, and the view is reset where the
    /// active one went away.
    pub open spec fn removal_followup(self, target: Seq<char>, was_dir: bool) -> FollowupModel {
        FollowupModel {
            open_map: self.project.promoted(target, was_dir),
            reset_view: self.project.loses_active(target, was_dir),
        }
    }

    /// What saving before closing the document at `path` has to do.
    pub open spec fn save_step(self, path: Seq<char>) -> SaveStepModel {
        if self.project.active == Some(path) {
            match self.preview {
                Some(map) => SaveStepModel::Write(map_document(map)),
                None => SaveStepModel::NothingToSave,
            }
        } else {
            SaveStepModel::AlreadyClean
        }
    }
}

/// Closing or deleting the active document with another tab open makes
/// the first tab that is left active, and asks for it to be opened; with
/// no tab left nothing is shown and nothing is asked for.
pub proof fn lemma_removal_of_active(m: EditorModel, target: Seq<char>, was_dir: bool)
    requires
        m.project.loses_active(target, was_dir),
    ensures
        m.after_removal(target, was_dir).project.active == first_path(
            m.after_removal(target, was_dir).project.tabs,
        ),
        m.removal_followup(target, was_dir).open_map == m.after_removal(
            target,
            was_dir,
        ).project.active,
        m.after_removal(target, was_dir).project.tabs.len() == 0 ==> m.after_removal(
            target,
            was_dir,
        ).preview is None && m.removal_followup(target, was_dir).open_map is None,
{
}

/// Renaming a directory moves the tab of every document below it, and the
/// id of every expanded folder below it, to the same place below the new
/// name; an active document elsewhere stays active and is not reopened.
pub proof fn lemma_rename_cascade(
    m: EditorModel,
    plan: RenamePlanModel,
    old_id: Seq<char>,
    new_id: Seq<char>,
    i: int,
    folder: Seq<char>,
)
    requires
        plan.was_dir,
        0 <= i < m.project.tabs.len(),
        within(m.project.tabs[i].path, plan.from),
        m.layout.open_folders.contains(folder),
        within(folder, old_id),
        m.project.active matches Some(a) ==> !within(a, plan.from),
    ensures
        m.after_rename(plan, old_id, new_id).project.tabs[i].path == plan.to
            + m.project.tabs[i].path.subrange(
            plan.from.len() as int,
            m.project.tabs[i].path.len() as int,
        ),
        m.after_rename(plan, old_id, new_id).layout.open_folders.contains(
            new_id + folder.subrange(old_id.len() as int, folder.len() as int),
        ),
        m.after_rename(plan, old_id, new_id).project.active == m.project.active,
        m.rename_followup(plan).open_map is None,
{
    let moved_folder = crate::paths::moved(folder, old_id, new_id, true);
    assert(moved_folder == new_id + folder.subrange(old_id.len() as int, folder.len() as int));
    assert(m.layout.open_folders.contains(folder) && crate::paths::moved(
        folder,
        old_id,
        new_id,
        true,
    ) == moved_folder);
}

impl Editor {
    /// The model without a project.
    pub fn new() -> (editor: Editor)
        ensures
            editor@ == EditorModel::empty(),
    {
        Editor {
            project: ProjectState::new(),
            layout: EditorLayout::new(),
            preview: None,
            selected: None,
        }
    }

    /// Closes the project: nothing is left open, shown or selected.
    pub fn close_folder(&mut self)
        ensures
            final(self)@ == EditorModel::empty(),
    {
        self.project.reset_all();
        self.layout.reset();
        self.preview = None;
        self.selected = None;
    }

    /// Installs the project at the canonical directory `dir`. `loaded` is
    /// the snapshot of the directory, or `None` if it could not be read;
    /// the model is then left without a project.
    pub fn open_folder(&mut self, dir: String, loaded: Option<Node>)
        ensures
            final(self)@ == (match loaded {
                Some(root) => EditorModel::opened_folder(dir@, root@),
                None => EditorModel::empty(),
            }),
    {
        match loaded {
            Some(root) => {
                let root_id = root.id.clone();
                self.project.clear_workspace();
                self.project.root = Some(root);
                self.project.root_path = Some(dir);
                self.layout.reset_with_root(root_id);
                self.preview = None;
                self.selected = None;
            },
            None => {
                self.close_folder();
            },
        }
    }

    /// Installs a project that was just set up, as `open_folder` does, and
    /// opens its first map if that map could be loaded.
    pub fn create_project(
        &mut self,
        dir: String,
        loaded: Option<Node>,
        default_map: &str,
        parsed: Result<MapData, MapError>,
    )
        ensures
            final(self)@ == (match loaded {
                Some(root) => match parsed {
                    Ok(map) => EditorModel::opened_folder(dir@, root@).with_map(
                        default_map@,
                        map@,
                    ),
                    Err(_) => EditorModel::opened_folder(dir@, root@),
                },
                None => EditorModel::empty(),
            }),
    {
        let installed: bool = loaded.is_some();
        self.open_folder(dir, loaded);
        if installed {
            match parsed {
                Ok(map) => {
                    self.preview = Some(map);
                    self.project.note_open_map(default_map);
                },
                Err(_) => {},
            }
        }
    }

    /// Replaces the snapshot of the project directory; a snapshot that
    /// could not be taken leaves the old one in place.
    pub fn refresh_tree(&mut self, loaded: Option<Node>)
        ensures
            final(self)@ == (match loaded {
                Some(root) => EditorModel {
                    project: ProjectModel { root: Some(root@), ..old(self)@.project },
                    ..old(self)@
                },
                None => old(self)@,
            }),
    {
        match loaded {
            Some(root) => {
                self.project.root = Some(root);
            },
            None => {},
        }
    }

    /// Checks that a new file or folder may be made in `parent`.
    pub fn check_new_entry(&self, parent: &str, parent_is_dir: bool) -> (r: Result<
        (),
        ExplorerError,
    >)
        ensures
            check_view(r) == new_entry_check(self@.project.root_path, parent@, parent_is_dir),
    {
        match &self.project.root_path {
            None => Err(ExplorerError::NoProject),
            Some(root) => {
                if !parent_is_dir {
                    Err(ExplorerError::NotADirectory { path: String::from_str(parent) })
                } else if !is_within(parent, root.as_str()) {
                    Err(ExplorerError::OutsideRoot { path: String::from_str(parent) })
                } else {
                    Ok(())
                }
            },
        }
    }

    /// A new map was made at `file_path` in `parent`: the folder is
    /// expanded and the map is to be opened.
    pub fn file_created(&mut self, parent: &str, file_path: String) -> (next: Followup)
        ensures
            final(self)@ == (EditorModel {
                layout: LayoutModel {
                    open_folders: old(self)@.layout.open_folders.insert(parent@),
                    ..old(self)@.layout
                },
                ..old(self)@
            }),
            next@ == (FollowupModel { open_map: Some(file_path@), reset_view: false }),
    {
        self.layout.open_folders.insert(String::from_str(parent));
        Followup { open_map: Some(file_path), reset_view: false }
    }

    /// A new folder with the id `folder_id` was made in `parent`: both are
    /// expanded.
    pub fn folder_created(&mut self, parent: &str, folder_id: String)
        ensures
            final(self)@ == (EditorModel {
                layout: LayoutModel {
                    open_folders: old(self)@.layout.open_folders.insert(parent@).insert(
                        folder_id@,
                    ),
                    ..old(self)@.layout
                },
                ..old(self)@
            }),
    {
        self.layout.open_folders.insert(String::from_str(parent));
        self.layout.open_folders.insert(folder_id);
    }

    /// Plans the rename of the entry `from` to the name `new_name`.
    /// `exists` and `is_dir` say what was found at `from`.
    pub fn plan_rename(&self, from: &str, new_name: &str, exists: bool, is_dir: bool) -> (r: Result<
        RenamePlan,
        ExplorerError,
    >)
        ensures
            rename_plan_view(r) == rename_plan(
                self@.project.root_path,
                from@,
                new_name@,
                exists,
                is_dir,
            ),
    {
        match &self.project.root_path {
            None => Err(ExplorerError::NoProject),
            Some(root) => {
                let root_chars = to_chars(root.as_str());
                let from_chars_ = to_chars(from);
                let typed = to_chars(new_name);
                let name = trim(typed.as_slice());
                if !exists {
                    return Err(ExplorerError::Missing { path: String::from_str(from) });
                }
                if !chars_within(from_chars_.as_slice(), root_chars.as_slice()) {
                    return Err(ExplorerError::OutsideRoot { path: String::from_str(from) });
                }
                if name.len() == 0 {
                    return Err(ExplorerError::EmptyName);
                }
                if !chars_simple_name(name) {
                    return Err(ExplorerError::InvalidName { name: from_chars(name) });
                }
                let to = match chars_parent(from_chars_.as_slice()) {
                    Some(dir) => chars_join(dir, name),
                    None => chars_join(root_chars.as_slice(), name),
                };
                if same_chars(to.as_slice(), from_chars_.as_slice()) {
                    return Err(ExplorerError::Unchanged);
                }
                if !chars_within(to.as_slice(), root_chars.as_slice()) {
                    return Err(ExplorerError::OutsideRoot { path: from_chars(to.as_slice()) });
                }
                Ok(
                    RenamePlan {
                        from: String::from_str(from),
                        to: from_chars(to.as_slice()),
                        was_dir: is_dir,
                    },
                )
            },
        }
    }

    /// The rename `plan` was carried out. `old_id` and `new_id` are the
    /// canonical paths of the entry before and after.
    pub fn entry_renamed(&mut self, plan: &RenamePlan, old_id: &str, new_id: &str) -> (next:
        Followup)
        ensures
            final(self)@ == old(self)@.after_rename(plan@, old_id@, new_id@),
            next@ == old(self)@.rename_followup(plan@),
            old(self)@.project.is_consistent() ==> final(self)@.project.is_consistent(),
    {
        let had_active: bool = self.project.active_map.is_some();
        let before: String = match &self.project.active_map {
            Some(a) => a.clone(),
            None => String::new(),
        };
        self.layout.handle_renamed_path(old_id, new_id, plan.was_dir);
        self.project.handle_renamed_path(plan.from.as_str(), plan.to.as_str(), plan.was_dir);
        let mut open_map: Option<String> = None;
        if had_active {
            match &self.project.active_map {
                Some(a) => {
                    if *a != before {
                        open_map = Some(a.clone());
                    }
                },
                None => {},
            }
        }
        Followup { open_map, reset_view: false }
    }

    /// Plans the deletion of the entry at `path`. `exists`, `is_dir` and
    /// `is_file` say what was found there.
    pub fn plan_delete(&self, path: &str, exists: bool, is_dir: bool, is_file: bool) -> (r: Result<
        DeletePlan,
        ExplorerError,
    >)
        ensures
            delete_plan_view(r) == delete_plan(
                self@.project.root_path,
                path@,
                exists,
                is_dir,
                is_file,
            ),
    {
        match &self.project.root_path {
            None => Err(ExplorerError::NoProject),
            Some(root) => {
                if !exists {
                    Err(ExplorerError::Missing { path: String::from_str(path) })
                } else if !is_within(path, root.as_str()) {
                    Err(ExplorerError::OutsideRoot { path: String::from_str(path) })
                } else if is_file {
                    Ok(DeletePlan { path: String::from_str(path), was_dir: false })
                } else if is_dir {
                    Ok(DeletePlan { path: String::from_str(path), was_dir: true })
                } else {
                    Err(ExplorerError::Unsupported { path: String::from_str(path) })
                }
            },
        }
    }

    fn remove_target(&mut self, target: &str, was_dir: bool) -> (next: Followup)
        ensures
            final(self)@ == old(self)@.after_removal(target@, was_dir),
            next@ == old(self)@.removal_followup(target@, was_dir),
            old(self)@.project.is_consistent() ==> final(self)@.project.is_consistent(),
    {
        let lost: bool = match &self.project.active_map {
            Some(a) => crate::paths::is_affected(a.as_str(), target, was_dir),
            None => false,
        };
        let open_map = self.project.handle_deleted_path(target, was_dir);
        if lost {
            self.preview = None;
            self.selected = None;
        }
        Followup { open_map, reset_view: lost }
    }

    /// The deletion `plan` was carried out. `id` is the canonical path
    /// that the entry had.
    pub fn entry_deleted(&mut self, plan: &DeletePlan, id: &str) -> (next: Followup)
        ensures
            final(self)@ == (EditorModel {
                layout: LayoutModel {
                    open_folders: unaffected_set(old(self)@.layout.open_folders, id@, true),
                    ..old(self)@.layout
                },
                ..old(self)@.after_removal(plan.path@, plan.was_dir)
            }),
            next@ == old(self)@.removal_followup(plan.path@, plan.was_dir),
            old(self)@.project.is_consistent() ==> final(self)@.project.is_consistent(),
    {
        self.layout.handle_deleted_path(id);
        self.remove_target(plan.path.as_str(), plan.was_dir)
    }

    /// Closes the tab of the document at `path`.
    pub fn close_map_and_select_next(&mut self, path: &str) -> (next: Followup)
        ensures
            final(self)@ == old(self)@.after_removal(path@, false),
            next@ == old(self)@.removal_followup(path@, false),
            old(self)@.project.is_consistent() ==> final(self)@.project.is_consistent(),
    {
        self.remove_target(path, false)
    }

    /// The active document and its record, if there is an active document
    /// and its map is loaded: what the command to save has to write.
    pub fn save_request(&self) -> (r: Option<SaveRequest>)
        ensures
            match r {
                Some(req) => self@.project.active == Some(req.path@) && self@.preview is Some
                    && req.document@ == map_document(self@.preview->0),
                None => self@.project.active is None || self@.preview is None,
            },
    {
        match &self.project.active_map {
            Some(path) => match &self.preview {
                Some(map) => Some(SaveRequest { path: path.clone(), document: document_of(map) }),
                None => None,
            },
            None => None,
        }
    }

    /// The document at `path` was written: it is no longer unsaved.
    pub fn map_saved(&mut self, path: &str)
        ensures
            final(self)@ == (EditorModel {
                project: ProjectModel {
                    dirty: old(self)@.project.dirty.remove(path@),
                    ..old(self)@.project
                },
                ..old(self)@
            }),
            old(self)@.project.is_consistent() ==> final(self)@.project.is_consistent(),
    {
        self.project.clear_dirty(path);
    }

    /// What saving the document at `path` before closing it has to do.
    pub fn begin_save_and_close(&self, path: &str) -> (step: SaveStep)
        ensures
            step@ == self@.save_step(path@),
    {
        let key = String::from_str(path);
        let active: bool = match &self.project.active_map {
            Some(a) => *a == key,
            None => false,
        };
        if active {
            match &self.preview {
                Some(map) => SaveStep::Write(document_of(map)),
                None => SaveStep::NothingToSave,
            }
        } else {
            SaveStep::AlreadyClean
        }
    }

    /// Ends saving before a close. The tab is closed if the document was
    /// written or counted as saved already; otherwise nothing changes.
    pub fn finish_save_and_close(&mut self, path: &str, written: Option<SaveOutcome>) -> (next:
        Followup)
        ensures
            ({
                let proceed = old(self)@.save_step(path@) is AlreadyClean || (old(
                    self,
                )@.save_step(path@) is Write && written == Some(SaveOutcome::Written));
                let saved = EditorModel {
                    project: ProjectModel {
                        dirty: old(self)@.project.dirty.remove(path@),
                        ..old(self)@.project
                    },
                    ..old(self)@
                };
                if proceed {
                    final(self)@ == saved.after_removal(path@, false) && next@
                        == saved.removal_followup(path@, false)
                } else {
                    final(self)@ == old(self)@ && next@ == (FollowupModel {
                        open_map: None,
                        reset_view: false,
                    })
                }
            }),
            old(self)@.project.is_consistent() ==> final(self)@.project.is_consistent(),
    {
        let step = self.begin_save_and_close(path);
        let proceed: bool = match step {
            SaveStep::AlreadyClean => true,
            SaveStep::Write(_) => match written {
                Some(outcome) => outcome == SaveOutcome::Written,
                None => false,
            },
            SaveStep::NothingToSave => false,
        };
        if proceed {
            self.map_saved(path);
            self.close_map_and_select_next(path)
        } else {
            Followup { open_map: None, reset_view: false }
        }
    }

    /// Asks to close the tab of the document at `path`. A document with
    /// unsaved changes is not closed: the close is recorded as pending.
    /// Any other is to be closed by the command that is returned.
    pub fn request_close(&mut self, path: &str, name: &str) -> (command: Option<WorkspaceCommand>)
        ensures
            final(self)@ == (EditorModel {
                layout: LayoutModel {
                    pending_close: if old(self)@.project.dirty.contains(path@) {
                        Some(PendingModel { path: path@, name: name@, requires_save: true })
                    } else {
                        old(self)@.layout.pending_close
                    },
                    ..old(self)@.layout
                },
                ..old(self)@
            }),
            command_view(command) == (if old(self)@.project.dirty.contains(path@) {
                None::<WorkspaceCommandModel>
            } else {
                Some(WorkspaceCommandModel::CloseMap { path: path@ })
            }),
    {
        if self.project.is_dirty(path) {
            self.layout.request_close(String::from_str(path), String::from_str(name), true);
            None
        } else {
            Some(WorkspaceCommand::CloseMap { path: String::from_str(path) })
        }
    }

    /// Whether a request to open `path` is followed at all: only paths
    /// with the extension of a map are.
    pub fn wants_open(path: &str) -> (b: bool)
        ensures
            b == is_map_path(path@),
    {
        names_map(path)
    }

    /// Ends a request to open the map at `path`. A map that was loaded is
    /// shown, and its document becomes the active tab; a map that could
    /// not be loaded clears what is shown and leaves the tabs as they are.
    pub fn map_loaded(&mut self, path: &str, parsed: Result<MapData, MapError>) -> (r: Result<
        (),
        MapError,
    >)
        ensures
            final(self)@ == (match parsed {
                Ok(map) => old(self)@.with_map(path@, map@),
                Err(_) => EditorModel { preview: None, ..old(self)@ },
            }),
            match parsed {
                Ok(_) => r is Ok,
                Err(e) => r == Err::<(), MapError>(e),
            },
            old(self)@.project.is_consistent() ==> final(self)@.project.is_consistent(),
    {
        match parsed {
            Ok(map) => {
                self.preview = Some(map);
                self.selected = None;
                self.project.note_open_map(path);
                Ok(())
            },
            Err(e) => {
                self.preview = None;
                Err(e)
            },
        }
    }
}

} // verus!
