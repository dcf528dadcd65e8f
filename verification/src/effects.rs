//! What the application asks of its surroundings: work for the renderer, the
//! history, the storage and the console, in the order in which it is to be done.
use crate::edits::Command;
use crate::i18n::{filled, literal_text, tr_format};
use crate::language::LanguageChoice;
use crate::model::ItemRef;
use i18n_embed::fluent::FluentLanguageLoader;
use vstd::prelude::*;

verus! {

/// How loud a notice is.
#[derive(Debug, Clone, Copy, PartialEq, Eq, Structural)]
pub enum Level {
    Message,
    Warning,
    Error,
}

/// Where a notice goes.
#[derive(Debug, Clone, Copy, PartialEq, Eq, Structural)]
pub enum Channel {
    /// The console that the user sees.
    Console,
    /// The application's log.
    Log,
}

/// What a notice is about.
#[derive(Debug, Clone, Copy, PartialEq, Eq, Structural)]
pub enum NoticeKind {
    SessionLoadFailed,
    SessionSaveFailed,
    BrowserSessionSaveFailed,
    ConfigLoadFailed,
    BrowserPreferencesFailed,
    BrowserRestoreFailed,
    BrowserActivationFailed,
    BrowserLoadFailed,
    BrowserProjectGone,
    BrowserSaveFailed,
    ReplacementFailed,
    BrowserDeleteRefused,
    BrowserDeleteFailed,
    BrowserActivated,
    BrowserSaved,
    BrowserDeleted,
    WindowFailed,
    GraphicsFailed,
    SlicePreviewFailed,
    /// The drawing of the window's icon could not be read.
    IconDrawingFailed,
    /// The window does not take the icon.
    IconRefused,
}

impl NoticeKind {
    /// The source text of the notice.
    pub open spec fn literal_text(self) -> Seq<char> {
        match self {
            NoticeKind::SessionLoadFailed => "Failed to load session file: %error%"@,
            NoticeKind::SessionSaveFailed => "Failed to save session: %error%"@,
            NoticeKind::BrowserSessionSaveFailed => "Failed to save browser session: %error%"@,
            NoticeKind::ConfigLoadFailed => "Failed to load config file: %error%"@,
            NoticeKind::BrowserPreferencesFailed => "Failed to load browser preferences: %error%"@,
            NoticeKind::BrowserRestoreFailed => "Could not restore the browser project: %error%"@,
            NoticeKind::BrowserActivationFailed => "Could not activate browser project: %error%"@,
            NoticeKind::BrowserLoadFailed => "Could not load the browser project: %error%"@,
            NoticeKind::BrowserProjectGone => "That browser project no longer exists"@,
            NoticeKind::BrowserSaveFailed => "Browser save failed: %error%"@,
            NoticeKind::ReplacementFailed => "Could not replace the current project: %error%"@,
            NoticeKind::BrowserDeleteRefused => "Could not delete browser project: %error%"@,
            NoticeKind::BrowserDeleteFailed => "Browser project deletion failed: %error%"@,
            NoticeKind::BrowserActivated => "Activated browser project '%name%'."@,
            NoticeKind::BrowserSaved => "Saved '%name%' to browser storage"@,
            NoticeKind::BrowserDeleted => "Deleted browser project"@,
            NoticeKind::WindowFailed => "Failed to create window: %error%"@,
            NoticeKind::GraphicsFailed => "Failed to initialize graphics: %error%"@,
            NoticeKind::SlicePreviewFailed => "Failed to detach top-down preview: %error%"@,
            NoticeKind::IconDrawingFailed => "Failed to rasterize window icon: %error%"@,
            NoticeKind::IconRefused => "Failed to create window icon: %error%"@,
        }
    }

    /// The name of the value that goes into the text, if one does.
    pub open spec fn value_name(self) -> Option<Seq<char>> {
        match self {
            NoticeKind::BrowserProjectGone
            | NoticeKind::BrowserDeleted => None,
            NoticeKind::BrowserActivated
            | NoticeKind::BrowserSaved => Some("name"@),
            _ => Some("error"@),
        }
    }

    /// The source text of the notice.
    pub fn literal(self) -> (text: &'static str)
        ensures
            text@ == self.literal_text(),
    {
        match self {
            NoticeKind::SessionLoadFailed => "Failed to load session file: %error%",
            NoticeKind::SessionSaveFailed => "Failed to save session: %error%",
            NoticeKind::BrowserSessionSaveFailed => "Failed to save browser session: %error%",
            NoticeKind::ConfigLoadFailed => "Failed to load config file: %error%",
            NoticeKind::BrowserPreferencesFailed => "Failed to load browser preferences: %error%",
            NoticeKind::BrowserRestoreFailed => "Could not restore the browser project: %error%",
            NoticeKind::BrowserActivationFailed => "Could not activate browser project: %error%",
            NoticeKind::BrowserLoadFailed => "Could not load the browser project: %error%",
            NoticeKind::BrowserProjectGone => "That browser project no longer exists",
            NoticeKind::BrowserSaveFailed => "Browser save failed: %error%",
            NoticeKind::ReplacementFailed => "Could not replace the current project: %error%",
            NoticeKind::BrowserDeleteRefused => "Could not delete browser project: %error%",
            NoticeKind::BrowserDeleteFailed => "Browser project deletion failed: %error%",
            NoticeKind::BrowserActivated => "Activated browser project '%name%'.",
            NoticeKind::BrowserSaved => "Saved '%name%' to browser storage",
            NoticeKind::BrowserDeleted => "Deleted browser project",
            NoticeKind::WindowFailed => "Failed to create window: %error%",
            NoticeKind::GraphicsFailed => "Failed to initialize graphics: %error%",
            NoticeKind::SlicePreviewFailed => "Failed to detach top-down preview: %error%",
            NoticeKind::IconDrawingFailed => "Failed to rasterize window icon: %error%",
            NoticeKind::IconRefused => "Failed to create window icon: %error%",
        }
    }

    /// The name of the value that goes into the text, if one does.
    pub fn placeholder(self) -> (name: Option<&'static str>)
        ensures
            name is Some <==> self.value_name() is Some,
            name is Some ==> name->0@ == self.value_name()->0,
    {
        match self {
            NoticeKind::BrowserProjectGone
            | NoticeKind::BrowserDeleted => None,
            NoticeKind::BrowserActivated
            | NoticeKind::BrowserSaved => Some("name"),
            _ => Some("error"),
        }
    }

    /// How loud the notice is.
    pub open spec fn loudness(self) -> Level {
        match self {
            NoticeKind::BrowserActivated
            | NoticeKind::BrowserSaved
            | NoticeKind::BrowserDeleted => Level::Message,
            NoticeKind::WindowFailed
            | NoticeKind::GraphicsFailed
            | NoticeKind::SlicePreviewFailed
            | NoticeKind::IconDrawingFailed
            | NoticeKind::IconRefused => Level::Error,
            _ => Level::Warning,
        }
    }

    /// How loud the notice is.
    pub fn level(self) -> (level: Level)
        ensures
            level == self.loudness(),
    {
        match self {
            NoticeKind::BrowserActivated
            | NoticeKind::BrowserSaved
            | NoticeKind::BrowserDeleted => Level::Message,
            NoticeKind::WindowFailed
            | NoticeKind::GraphicsFailed
            | NoticeKind::SlicePreviewFailed
            | NoticeKind::IconDrawingFailed
            | NoticeKind::IconRefused => Level::Error,
            _ => Level::Warning,
        }
    }

    /// Where the notice goes: to the user's console, but to the log where there
    /// may be no console to show it, or where it is not the user's to mend.
    pub open spec fn heard_in(self) -> Channel {
        match self {
            NoticeKind::SessionSaveFailed
            | NoticeKind::WindowFailed
            | NoticeKind::GraphicsFailed
            | NoticeKind::SlicePreviewFailed
            | NoticeKind::IconDrawingFailed
            | NoticeKind::IconRefused => Channel::Log,
            _ => Channel::Console,
        }
    }

    /// Where the notice goes.
    pub fn channel(self) -> (channel: Channel)
        ensures
            channel == self.heard_in(),
    {
        match self {
            NoticeKind::SessionSaveFailed
            | NoticeKind::WindowFailed
            | NoticeKind::GraphicsFailed
            | NoticeKind::SlicePreviewFailed
            | NoticeKind::IconDrawingFailed
            | NoticeKind::IconRefused => Channel::Log,
            _ => Channel::Console,
        }
    }
}

/// Something to tell the user, with the name or the error it is about.
#[derive(Debug, PartialEq)]
pub struct Notice {
    pub kind: NoticeKind,
    pub detail: String,
}

impl Notice {
    /// The names of the values that go into the text.
    pub open spec fn names(&self) -> Seq<Seq<char>> {
        match self.kind.value_name() {
            Some(name) => seq![name],
            None => Seq::empty(),
        }
    }

    /// The values that go into the text.
    pub open spec fn values(&self) -> Seq<Seq<char>> {
        match self.kind.value_name() {
            Some(_) => seq![self.detail@],
            None => Seq::empty(),
        }
    }

    /// The notice in the language in use.
    pub fn message(&self, loader: &FluentLanguageLoader) -> (text: String)
        ensures
            exists|answer: Seq<char>| #[trigger]
                crate::i18n::catalogue_answer(
                    crate::i18n::literal_id_text(self.kind.literal_text()),
                    answer,
                ) && text@ == filled(
                    literal_text(self.kind.literal_text(), answer),
                    self.names(),
                    self.values(),
                ),
    {
        let mut names: Vec<String> = Vec::new();
        let mut values: Vec<String> = Vec::new();
        match self.kind.placeholder() {
            Some(name) => {
                names.push(name.to_owned());
                values.push(self.detail.clone());
            },
            None => {},
        }
        proof {
            assert(crate::text::texts(names@) =~= self.names());
            assert(crate::text::texts(values@) =~= self.values());
        }
        tr_format(loader, self.kind.literal(), &names, &values)
    }
}

/// One thing for the surroundings to do.
#[derive(Debug, PartialEq)]
pub enum Effect {
    /// The renderer's geometry no longer shows the document.
    InvalidateGpuGeometry,
    /// The renderer's overlay no longer shows the editor's state.
    InvalidateGpuOverlay,
    /// The scene's bounds may have changed.
    InvalidateGpuBounds,
    /// Item and object ids start again; nothing cached under them holds.
    ClearGpuItemCaches,
    /// Put the documents together again for the scene.
    RebuildSceneDocument,
    /// Build the snap index from the scene document.
    RebuildSnapIndex,
    /// Let the camera show everything.
    FitView,
    /// Take up the history of the project with this runtime id.
    ActivateHistory(u32),
    /// Forget all history.
    ResetHistory,
    /// The edits of a gesture are one step, and it is complete.
    EndHistoryInteraction,
    /// Apply an edit of the open project with this runtime id and record it.
    ExecuteEditFor { runtime_id: u32, command: Command },
    /// Record an edit that was applied when the content stood at this epoch.
    RecordEdit { epoch: u64, command: Command },
    /// Write the session.
    PersistSession,
    ClearRotationCentre,
    /// Put previewed objects back where they stood.
    RestoreMoveSession,
    /// Put previewed collars back where they stood.
    RestoreCollarSession,
    CancelTextEdit,
    LeaveSliceMode,
    /// Drop drafts and dialogs that belong to a project.
    ClearProjectTransients,
    EndTieChain,
    /// Free what an unloaded item holds.
    ReleaseRuntime(ItemRef),
    EvictUnloadedItems,
    EvictUnloadedLayers,
    /// Decode the values of this block model again.
    DecodeBlockModelValues(u64),
    /// Stop background jobs, but not saves to browser storage where told so.
    CancelJobs { keep_browser_saves: bool },
    /// Mark the console report of a load as cancelled, by its ticket.
    CancelLoadReport(u64),
    RefreshAxisNames,
    SelectLanguage(LanguageChoice),
    ConfigureCamera,
    ApplyPresentMode,
    /// Close the renderer and its window.
    DropWindow,
    /// Whether leaving the page loses work.
    SetBrowserDirty(bool),
    InitializeBrowserStorage,
    /// Guard against leaving the page, and listen for pastes.
    InstallBrowserGuards,
    LoadBrowserSession,
    /// Start the renderer in the background.
    SpawnGraphics,
    /// Ask the window for a frame.
    RequestRedraw,
    ShowStartupReady,
    ShowStartupError(String),
    /// An error without a translation.
    Fail(String),
    /// A line for the console.
    Log(String),
    Notify(Notice),
    InstallMenuBar,
    /// Read a stored project in the background and open it.
    OpenBrowserRecord(u64),
    /// Close the project with this runtime id.
    CloseProject(u32),
    /// Hand pasted text to the renderer.
    QueuePaste(String),
}

} // verus!
