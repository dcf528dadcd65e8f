//! The menu bar: what each entry asks for.
use crate::app::App;
use crate::editor::{EditorFlags, EditorState};
use crate::language::LanguageChoice;
use crate::pacing::FramePacing;
use vstd::prelude::*;

verus! {

/// A direction in space.
#[derive(Debug, Clone, Copy, PartialEq, Eq, Structural)]
pub enum Axis {
    X,
    Y,
    Z,
}

/// An entry of the menu bar.
#[derive(Debug, Clone, Copy, PartialEq, Eq, Structural)]
pub enum MacMenuAction {
    SaveProject,
    SaveProjectAs,
    NewProject,
    OpenProject,
    /// The row of the list of opened projects.
    OpenRecent(usize),
    ShowProjectInFileManager,
    OpenImport,
    OpenExport,
    ExportViewportImage,
    OpenPlotDialog,
    OpenPreferences,
    OpenAbout,
    RequestExit,
    InsertPointsAtIntersections,
    OpenInsertPointAtElevation,
    OpenMoveToX,
    OpenMoveToY,
    OpenMoveToZ,
    OpenCreateTriangulation,
    OpenCutTriangulationByPolyline,
    OpenCutTriangulationByZ,
    OpenCutTriangulationBySurface,
    OpenCutTopologyByPitShell,
    OpenIncludeSolidInTopology,
    OpenContourTriangulation,
    OpenPointCloudTin,
    OpenPointCloudJoin,
    OpenPointCloudClassify,
    OpenCreateBlockModel,
    OpenSurveyDefinitions,
    OpenSurveyTransform,
    OpenCreateOreTriangulation,
    UndrapeAllRasters,
    /// The row of the list of view options.
    ToggleView(usize),
}

/// What the interface can ask for.
#[derive(Debug, Clone, Copy, PartialEq, Eq, Structural)]
pub enum UiCommand {
    SaveProject,
    NewProject,
    OpenProject,
    ShowProjectInFileManager,
    ExportViewportImage,
    OpenPlotDialog,
    OpenPreferences,
    RequestExit,
    InsertPointsAtIntersections,
    OpenCreateTriangulation,
    OpenCutTriangulationByPolyline,
    OpenCutTriangulationByZ,
    OpenCutTriangulationBySurface,
    OpenCutTopologyByPitShell,
    OpenIncludeSolidInTopology,
    OpenContourTriangulation,
    OpenPointCloudTin,
    OpenPointCloudJoin,
    OpenPointCloudClassify,
    OpenCreateBlockModel,
    OpenSurveyDefinitions,
    OpenSurveyTransform,
    OpenCreateOreTriangulation,
    UndrapeAllRasters,
    /// Save the project with this runtime id elsewhere.
    SaveProjectAs(u32),
    /// Open the project at this place.
    ActivateTrackedProject(u64),
    OpenInsertPointAtElevationDialog,
    OpenMoveToAxisDialog(Axis),
    /// Turn this view option on or off.
    ToggleViewOption(u64),
    SetLanguage(LanguageChoice),
}

/// The entry at `index`, if the list has one.
pub open spec fn listed(list: Seq<u64>, index: usize) -> Option<u64> {
    if index < list.len() {
        Some(list[index as int])
    } else {
        None
    }
}

/// The entry at `index`, if the list has one.
pub fn entry(list: &Vec<u64>, index: usize) -> (value: Option<u64>)
    ensures
        value == listed(list@, index),
{
    if index < list.len() {
        Some(list[index])
    } else {
        None
    }
}

impl MacMenuAction {
    /// The command that an entry stands for. Entries that open a panel stand for
    /// none, and neither do those that need a project, or a row of a list, that
    /// is not there.
    pub open spec fn command(
        self,
        active_project: Option<u32>,
        recent: Seq<u64>,
        toggles: Seq<u64>,
    ) -> Option<UiCommand> {
        match self {
            MacMenuAction::SaveProject => Some(UiCommand::SaveProject),
            MacMenuAction::SaveProjectAs => match active_project {
                Some(id) => Some(UiCommand::SaveProjectAs(id)),
                None => None,
            },
            MacMenuAction::NewProject => Some(UiCommand::NewProject),
            MacMenuAction::OpenProject => Some(UiCommand::OpenProject),
            MacMenuAction::OpenRecent(index) => match listed(recent, index) {
                Some(path) => Some(UiCommand::ActivateTrackedProject(path)),
                None => None,
            },
            MacMenuAction::ShowProjectInFileManager => Some(UiCommand::ShowProjectInFileManager),
            MacMenuAction::OpenImport => None,
            MacMenuAction::OpenExport => None,
            MacMenuAction::ExportViewportImage => Some(UiCommand::ExportViewportImage),
            MacMenuAction::OpenPlotDialog => Some(UiCommand::OpenPlotDialog),
            MacMenuAction::OpenPreferences => Some(UiCommand::OpenPreferences),
            MacMenuAction::OpenAbout => None,
            MacMenuAction::RequestExit => Some(UiCommand::RequestExit),
            MacMenuAction::InsertPointsAtIntersections => Some(
                UiCommand::InsertPointsAtIntersections,
            ),
            MacMenuAction::OpenInsertPointAtElevation => Some(
                UiCommand::OpenInsertPointAtElevationDialog,
            ),
            MacMenuAction::OpenMoveToX => Some(UiCommand::OpenMoveToAxisDialog(Axis::X)),
            MacMenuAction::OpenMoveToY => Some(UiCommand::OpenMoveToAxisDialog(Axis::Y)),
            MacMenuAction::OpenMoveToZ => Some(UiCommand::OpenMoveToAxisDialog(Axis::Z)),
            MacMenuAction::OpenCreateTriangulation => Some(UiCommand::OpenCreateTriangulation),
            MacMenuAction::OpenCutTriangulationByPolyline => Some(
                UiCommand::OpenCutTriangulationByPolyline,
            ),
            MacMenuAction::OpenCutTriangulationByZ => Some(UiCommand::OpenCutTriangulationByZ),
            MacMenuAction::OpenCutTriangulationBySurface => Some(
                UiCommand::OpenCutTriangulationBySurface,
            ),
            MacMenuAction::OpenCutTopologyByPitShell => Some(UiCommand::OpenCutTopologyByPitShell),
            MacMenuAction::OpenIncludeSolidInTopology => Some(
                UiCommand::OpenIncludeSolidInTopology,
            ),
            MacMenuAction::OpenContourTriangulation => Some(UiCommand::OpenContourTriangulation),
            MacMenuAction::OpenPointCloudTin => Some(UiCommand::OpenPointCloudTin),
            MacMenuAction::OpenPointCloudJoin => Some(UiCommand::OpenPointCloudJoin),
            MacMenuAction::OpenPointCloudClassify => Some(UiCommand::OpenPointCloudClassify),
            MacMenuAction::OpenCreateBlockModel => Some(UiCommand::OpenCreateBlockModel),
            MacMenuAction::OpenSurveyDefinitions => Some(UiCommand::OpenSurveyDefinitions),
            MacMenuAction::OpenSurveyTransform => Some(UiCommand::OpenSurveyTransform),
            MacMenuAction::OpenCreateOreTriangulation => Some(
                UiCommand::OpenCreateOreTriangulation,
            ),
            MacMenuAction::UndrapeAllRasters => Some(UiCommand::UndrapeAllRasters),
            MacMenuAction::ToggleView(index) => match listed(toggles, index) {
                Some(option) => Some(UiCommand::ToggleViewOption(option)),
                None => None,
            },
        }
    }

    /// The command that an entry stands for.
    pub fn to_command(
        self,
        active_project: Option<u32>,
        recent: &Vec<u64>,
        toggles: &Vec<u64>,
    ) -> (command: Option<UiCommand>)
        ensures
            command == self.command(active_project, recent@, toggles@),
    {
        match self {
            MacMenuAction::SaveProject => Some(UiCommand::SaveProject),
            MacMenuAction::SaveProjectAs => match active_project {
                Some(id) => Some(UiCommand::SaveProjectAs(id)),
                None => None,
            },
            MacMenuAction::NewProject => Some(UiCommand::NewProject),
            MacMenuAction::OpenProject => Some(UiCommand::OpenProject),
            MacMenuAction::OpenRecent(index) => match entry(recent, index) {
                Some(path) => Some(UiCommand::ActivateTrackedProject(path)),
                None => None,
            },
            MacMenuAction::ShowProjectInFileManager => Some(UiCommand::ShowProjectInFileManager),
            MacMenuAction::OpenImport => None,
            MacMenuAction::OpenExport => None,
            MacMenuAction::ExportViewportImage => Some(UiCommand::ExportViewportImage),
            MacMenuAction::OpenPlotDialog => Some(UiCommand::OpenPlotDialog),
            MacMenuAction::OpenPreferences => Some(UiCommand::OpenPreferences),
            MacMenuAction::OpenAbout => None,
            MacMenuAction::RequestExit => Some(UiCommand::RequestExit),
            MacMenuAction::InsertPointsAtIntersections => Some(
                UiCommand::InsertPointsAtIntersections,
            ),
            MacMenuAction::OpenInsertPointAtElevation => Some(
                UiCommand::OpenInsertPointAtElevationDialog,
            ),
            MacMenuAction::OpenMoveToX => Some(UiCommand::OpenMoveToAxisDialog(Axis::X)),
            MacMenuAction::OpenMoveToY => Some(UiCommand::OpenMoveToAxisDialog(Axis::Y)),
            MacMenuAction::OpenMoveToZ => Some(UiCommand::OpenMoveToAxisDialog(Axis::Z)),
            MacMenuAction::OpenCreateTriangulation => Some(UiCommand::OpenCreateTriangulation),
            MacMenuAction::OpenCutTriangulationByPolyline => Some(
                UiCommand::OpenCutTriangulationByPolyline,
            ),
            MacMenuAction::OpenCutTriangulationByZ => Some(UiCommand::OpenCutTriangulationByZ),
            MacMenuAction::OpenCutTriangulationBySurface => Some(
                UiCommand::OpenCutTriangulationBySurface,
            ),
            MacMenuAction::OpenCutTopologyByPitShell => Some(UiCommand::OpenCutTopologyByPitShell),
            MacMenuAction::OpenIncludeSolidInTopology => Some(
                UiCommand::OpenIncludeSolidInTopology,
            ),
            MacMenuAction::OpenContourTriangulation => Some(UiCommand::OpenContourTriangulation),
            MacMenuAction::OpenPointCloudTin => Some(UiCommand::OpenPointCloudTin),
            MacMenuAction::OpenPointCloudJoin => Some(UiCommand::OpenPointCloudJoin),
            MacMenuAction::OpenPointCloudClassify => Some(UiCommand::OpenPointCloudClassify),
            MacMenuAction::OpenCreateBlockModel => Some(UiCommand::OpenCreateBlockModel),
            MacMenuAction::OpenSurveyDefinitions => Some(UiCommand::OpenSurveyDefinitions),
            MacMenuAction::OpenSurveyTransform => Some(UiCommand::OpenSurveyTransform),
            MacMenuAction::OpenCreateOreTriangulation => Some(
                UiCommand::OpenCreateOreTriangulation,
            ),
            MacMenuAction::UndrapeAllRasters => Some(UiCommand::UndrapeAllRasters),
            MacMenuAction::ToggleView(index) => match entry(toggles, index) {
                Some(option) => Some(UiCommand::ToggleViewOption(option)),
                None => None,
            },
        }
    }
}

impl EditorFlags {
    /// The panels that are open after a menu entry was chosen.
    pub open spec fn panels_after(self, action: MacMenuAction) -> EditorFlags {
        match action {
            MacMenuAction::OpenImport => EditorFlags {
                show_import: true,
                show_export: false,
                ..self
            },
            MacMenuAction::OpenExport => EditorFlags {
                show_import: false,
                show_export: true,
                ..self
            },
            MacMenuAction::OpenAbout => EditorFlags { show_about: true, ..self },
            _ => self,
        }
    }

    /// The panels that are open after a menu entry was chosen.
    pub fn choose_panel(self, action: MacMenuAction) -> (flags: EditorFlags)
        ensures
            flags == self.panels_after(action),
    {
        match action {
            MacMenuAction::OpenImport => EditorFlags {
                show_import: true,
                show_export: false,
                ..self
            },
            MacMenuAction::OpenExport => EditorFlags {
                show_import: false,
                show_export: true,
                ..self
            },
            MacMenuAction::OpenAbout => EditorFlags { show_about: true, ..self },
            _ => self,
        }
    }
}

impl<P> App<P> {
    /// What choosing an entry of the menu bar comes to.
    pub open spec fn menu_followed(
        &self,
        action: MacMenuAction,
        recent: Seq<u64>,
        toggles: Seq<u64>,
        command: Option<UiCommand>,
        after: &App<P>,
    ) -> bool {
        &&& command == action.command(
            match self.workspace.active() {
                Some(project) => Some(project.runtime_id),
                None => None,
            },
            recent,
            toggles,
        )
        &&& *after == (App {
            editor: EditorState {
                flags: self.editor.flags.panels_after(action),
                ..self.editor
            },
            pacing: FramePacing {
                redraw_requested: self.pacing.redraw_requested || command is None,
                ..self.pacing
            },
            ..*self
        })
    }

    /// Does what an entry of the menu bar asks for, or hands back the command it
    /// stands for. `recent` lists the opened projects and `toggles` the view
    /// options, as the menu was built from them. An entry that stands for no
    /// command is shown by a frame.
    pub fn handle_mac_menu_action(
        &mut self,
        action: MacMenuAction,
        recent: &Vec<u64>,
        toggles: &Vec<u64>,
    ) -> (command: Option<UiCommand>)
        ensures
            old(self).menu_followed(action, recent@, toggles@, command, final(self)),
    {
        let active_project: Option<u32> = match self.workspace.active_project() {
            Some(project) => Some(project.runtime_id),
            None => None,
        };
        self.editor.flags = self.editor.flags.choose_panel(action);
        let command: Option<UiCommand> = action.to_command(active_project, recent, toggles);
        self.pacing.redraw_requested = self.pacing.redraw_requested || command.is_none();
        command
    }
}

/// An entry and a command of one name belong together: the entry asks for that
/// command, and no other entry does.
pub proof fn entries_ask_for_the_command_of_their_name(
    action: MacMenuAction,
    active: Option<u32>,
    recent: Seq<u64>,
    toggles: Seq<u64>,
)
    ensures
        action is SaveProject <==> action.command(active, recent, toggles) == Some(
            UiCommand::SaveProject,
        ),
        action is NewProject <==> action.command(active, recent, toggles) == Some(
            UiCommand::NewProject,
        ),
        action is OpenProject <==> action.command(active, recent, toggles) == Some(
            UiCommand::OpenProject,
        ),
        action is ShowProjectInFileManager <==> action.command(active, recent, toggles) == Some(
            UiCommand::ShowProjectInFileManager,
        ),
        action is ExportViewportImage <==> action.command(active, recent, toggles) == Some(
            UiCommand::ExportViewportImage,
        ),
        action is OpenPlotDialog <==> action.command(active, recent, toggles) == Some(
            UiCommand::OpenPlotDialog,
        ),
        action is OpenPreferences <==> action.command(active, recent, toggles) == Some(
            UiCommand::OpenPreferences,
        ),
        action is RequestExit <==> action.command(active, recent, toggles) == Some(
            UiCommand::RequestExit,
        ),
        action is InsertPointsAtIntersections <==> action.command(active, recent, toggles) == Some(
            UiCommand::InsertPointsAtIntersections,
        ),
        action is OpenCreateTriangulation <==> action.command(active, recent, toggles) == Some(
            UiCommand::OpenCreateTriangulation,
        ),
        action is OpenCutTriangulationByPolyline <==> action.command(active, recent, toggles) == Some(
            UiCommand::OpenCutTriangulationByPolyline,
        ),
        action is OpenCutTriangulationByZ <==> action.command(active, recent, toggles) == Some(
            UiCommand::OpenCutTriangulationByZ,
        ),
        action is OpenCutTriangulationBySurface <==> action.command(active, recent, toggles) == Some(
            UiCommand::OpenCutTriangulationBySurface,
        ),
        action is OpenCutTopologyByPitShell <==> action.command(active, recent, toggles) == Some(
            UiCommand::OpenCutTopologyByPitShell,
        ),
        action is OpenIncludeSolidInTopology <==> action.command(active, recent, toggles) == Some(
            UiCommand::OpenIncludeSolidInTopology,
        ),
        action is OpenContourTriangulation <==> action.command(active, recent, toggles) == Some(
            UiCommand::OpenContourTriangulation,
        ),
        action is OpenPointCloudTin <==> action.command(active, recent, toggles) == Some(
            UiCommand::OpenPointCloudTin,
        ),
        action is OpenPointCloudJoin <==> action.command(active, recent, toggles) == Some(
            UiCommand::OpenPointCloudJoin,
        ),
        action is OpenPointCloudClassify <==> action.command(active, recent, toggles) == Some(
            UiCommand::OpenPointCloudClassify,
        ),
        action is OpenCreateBlockModel <==> action.command(active, recent, toggles) == Some(
            UiCommand::OpenCreateBlockModel,
        ),
        action is OpenSurveyDefinitions <==> action.command(active, recent, toggles) == Some(
            UiCommand::OpenSurveyDefinitions,
        ),
        action is OpenSurveyTransform <==> action.command(active, recent, toggles) == Some(
            UiCommand::OpenSurveyTransform,
        ),
        action is OpenCreateOreTriangulation <==> action.command(active, recent, toggles) == Some(
            UiCommand::OpenCreateOreTriangulation,
        ),
        action is UndrapeAllRasters <==> action.command(active, recent, toggles) == Some(
            UiCommand::UndrapeAllRasters,
        ),
        action is OpenInsertPointAtElevation <==> action.command(active, recent, toggles) == Some(
            UiCommand::OpenInsertPointAtElevationDialog,
        ),
        action is OpenMoveToX <==> action.command(active, recent, toggles) == Some(
            UiCommand::OpenMoveToAxisDialog(Axis::X),
        ),
        action is OpenMoveToY <==> action.command(active, recent, toggles) == Some(
            UiCommand::OpenMoveToAxisDialog(Axis::Y),
        ),
        action is OpenMoveToZ <==> action.command(active, recent, toggles) == Some(
            UiCommand::OpenMoveToAxisDialog(Axis::Z),
        ),
{
}

/// Different entries ask for different things, but for rows of a list that hold
/// the same.
pub proof fn different_entries_ask_for_different_things(
    a: MacMenuAction,
    b: MacMenuAction,
    active: Option<u32>,
    recent: Seq<u64>,
    toggles: Seq<u64>,
)
    requires
        a != b,
        a.command(active, recent, toggles) is Some,
        a.command(active, recent, toggles) == b.command(active, recent, toggles),
    ensures
        ({
            ||| a is OpenRecent && b is OpenRecent && recent[a->OpenRecent_0 as int]
                == recent[b->OpenRecent_0 as int]
            ||| a is ToggleView && b is ToggleView && toggles[a->ToggleView_0 as int]
                == toggles[b->ToggleView_0 as int]
        }),
{
}

/// A row of a list asks for what the list holds there, and for nothing where the
/// list ends before it; to save elsewhere takes an open project.
pub proof fn rows_ask_for_what_is_listed(
    row: usize,
    active: Option<u32>,
    recent: Seq<u64>,
    toggles: Seq<u64>,
)
    ensures
        row < recent.len() ==> MacMenuAction::OpenRecent(row).command(active, recent, toggles)
            == Some(UiCommand::ActivateTrackedProject(recent[row as int])),
        row >= recent.len() ==> MacMenuAction::OpenRecent(row).command(
            active,
            recent,
            toggles,
        ) is None,
        row < toggles.len() ==> MacMenuAction::ToggleView(row).command(active, recent, toggles)
            == Some(UiCommand::ToggleViewOption(toggles[row as int])),
        row >= toggles.len() ==> MacMenuAction::ToggleView(row).command(
            active,
            recent,
            toggles,
        ) is None,
        active is Some ==> MacMenuAction::SaveProjectAs.command(active, recent, toggles) == Some(
            UiCommand::SaveProjectAs(active->0),
        ),
        active is None ==> MacMenuAction::SaveProjectAs.command(active, recent, toggles) is None,
{
}

/// Importing and exporting stand in one place: opening one panel closes the other.
/// The entry that tells about the application opens its panel, and no entry closes
/// that. Everything else about the editor stays.
pub proof fn entries_open_their_panels(flags: EditorFlags, action: MacMenuAction)
    ensures
        ({
            let after = flags.panels_after(action);
            &&& after.show_import == (action is OpenImport || flags.show_import
                && !(action is OpenExport))
            &&& after.show_export == (action is OpenExport || flags.show_export
                && !(action is OpenImport))
            &&& after.show_about == (action is OpenAbout || flags.show_about)
            &&& flags == (EditorFlags {
                show_import: flags.show_import,
                show_export: flags.show_export,
                show_about: flags.show_about,
                ..after
            })
        }),
{
}

/// An entry asks for a command or opens a panel, never both; what does neither is
/// a row that is not there, or a project that is not open.
pub proof fn entries_do_one_thing(
    action: MacMenuAction,
    flags: EditorFlags,
    active: Option<u32>,
    recent: Seq<u64>,
    toggles: Seq<u64>,
)
    ensures
        action.command(active, recent, toggles) is Some ==> flags.panels_after(action) == flags,
        action.command(active, recent, toggles) is None ==> {
            ||| action is OpenImport
            ||| action is OpenExport
            ||| action is OpenAbout
            ||| action is SaveProjectAs && active is None
            ||| action is OpenRecent && action->OpenRecent_0 >= recent.len()
            ||| action is ToggleView && action->ToggleView_0 >= toggles.len()
        },
{
}

/// What choosing an entry comes to: its command for the open project, its panel,
/// and a frame where there is no command to bring one. The project, its items and
/// what is left to do are untouched.
pub proof fn a_chosen_entry_is_followed<P>(
    before: &App<P>,
    action: MacMenuAction,
    recent: Seq<u64>,
    toggles: Seq<u64>,
    command: Option<UiCommand>,
    after: &App<P>,
)
    requires
        before.menu_followed(action, recent, toggles, command, after),
    ensures
        command == Some(UiCommand::OpenProject) <==> action is OpenProject,
        command == Some(UiCommand::NewProject) <==> action is NewProject,
        command == Some(UiCommand::SaveProject) <==> action is SaveProject,
        command == Some(UiCommand::RequestExit) <==> action is RequestExit,
        command is Some && action is SaveProjectAs ==> before.workspace.active() is Some && command
            == Some(UiCommand::SaveProjectAs(before.workspace.active()->0.runtime_id)),
        action is SaveProjectAs && before.workspace.active() is Some ==> command is Some,
        command is None ==> after.pacing.redraw_requested,
        command is Some ==> after.pacing.redraw_requested == before.pacing.redraw_requested,
        before.pacing.redraw_requested ==> after.pacing.redraw_requested,
        action is OpenImport ==> after.editor.flags.show_import && !after.editor.flags.show_export,
        action is OpenExport ==> after.editor.flags.show_export && !after.editor.flags.show_import,
        action is OpenAbout ==> after.editor.flags.show_about,
        after.workspace == before.workspace,
        after.items == before.items,
        after.outbox == before.outbox,
        after.lifecycle == before.lifecycle,
        after.editor.preferences == before.editor.preferences,
        after.editor.selected_handles == before.editor.selected_handles,
{
}

} // verus!
