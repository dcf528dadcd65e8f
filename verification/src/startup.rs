//! Starting up: the stored settings, the first project, the window and its
//! renderer.
use crate::app::{cancelled_reports, App, Lifecycle};
use crate::config::{
    deduplicated, defines, known_system, named, named_definitions, resolved, resolved_definitions,
    workspace_order, Config, CoordinateSystem,
};
use crate::content::{tracked_all, tracked_with, Session};
use crate::editor::EditorState;
use crate::effects::{Effect, Notice, NoticeKind};
use crate::language::{LanguageChoice, Target};
use crate::pacing::FramePacing;
use crate::project::{OpenProject, ProjectPath};
use crate::tasks::PendingLoad;
use crate::text::text_of;
use vstd::prelude::*;

verus! {

/// What reading a stored value came to.
pub enum Stored<T> {
    Found(T),
    /// Nothing is stored.
    Absent,
    /// Something is stored but could not be read, for this reason.
    Unreadable(String),
}

/// The stored value, or `default` in its place.
pub open spec fn stored_or<T>(stored: Stored<T>, default: T) -> T {
    match stored {
        Stored::Found(value) => value,
        _ => default,
    }
}

/// What is said of a stored value that could not be read.
pub open spec fn unread<T>(stored: Stored<T>, kind: NoticeKind) -> Option<Notice> {
    match stored {
        Stored::Unreadable(reason) => Some(Notice { kind, detail: reason }),
        _ => None,
    }
}

/// The stored value, or `default` in its place. A value that could not be read
/// is worth a notice.
pub fn read_or_default<T>(stored: Stored<T>, default: T, kind: NoticeKind) -> (result: (
    T,
    Option<Notice>,
))
    ensures
        result.0 == stored_or(stored, default),
        result.1 == unread(stored, kind),
{
    match stored {
        Stored::Found(value) => (value, None),
        Stored::Absent => (default, None),
        Stored::Unreadable(reason) => (default, Some(Notice { kind, detail: reason })),
    }
}

/// The language to run in: the chosen one, or English where the build cannot
/// draw it.
pub open spec fn usable_language(choice: LanguageChoice, target: Target) -> LanguageChoice {
    if choice.available(target) {
        choice
    } else {
        LanguageChoice::English
    }
}

/// The definitions of coordinate systems that settings lead to.
pub open spec fn usable_definitions(config: &Config, resolves: Seq<bool>) -> Seq<CoordinateSystem> {
    resolved(config.coordinate_systems@.filter(|d: CoordinateSystem| named(d)), resolves)
}

/// The workspaces, the coordinate systems and whether they resolve are such as
/// settings can be applied with.
pub open spec fn applicable(config: &Config, workspaces: Seq<u8>, resolves: Seq<bool>) -> bool {
    &&& workspaces.len() > 0
    &&& workspaces.no_duplicates()
    &&& forall|i: int|
        0 <= i < config.workspace_order@.len() ==> workspaces.contains(
            #[trigger] config.workspace_order@[i],
        )
    &&& resolves.len() == config.coordinate_systems@.filter(|d: CoordinateSystem| named(d)).len()
}

/// Whether settings can be applied with these workspaces, and with what is told
/// of the coordinate systems.
pub fn can_apply(config: &Config, workspaces: &Vec<u8>, resolves: &Vec<bool>) -> (yes: bool)
    ensures
        yes == applicable(config, workspaces@, resolves@),
{
    if workspaces.len() == 0 {
        return false;
    }
    let mut i: usize = 0;
    while i < workspaces.len()
        invariant
            i <= workspaces@.len(),
            forall|j: int, k: int|
                0 <= j < k < i ==> #[trigger] workspaces@[j] != #[trigger] workspaces@[k],
        decreases workspaces.len() - i,
    {
        let mut j: usize = 0;
        while j < i
            invariant
                j <= i < workspaces@.len(),
                forall|k: int| 0 <= k < j ==> #[trigger] workspaces@[k] != workspaces@[i as int],
            decreases i - j,
        {
            if workspaces[j] == workspaces[i] {
                return false;
            }
            j += 1;
        }
        i += 1;
    }
    proof {
        assert(workspaces@.no_duplicates());
    }
    let mut n: usize = 0;
    while n < config.workspace_order.len()
        invariant
            n <= config.workspace_order@.len(),
            forall|k: int|
                0 <= k < n ==> workspaces@.contains(#[trigger] config.workspace_order@[k]),
        decreases config.workspace_order.len() - n,
    {
        let mut known: bool = false;
        let mut j: usize = 0;
        while j < workspaces.len()
            invariant
                j <= workspaces@.len(),
                n < config.workspace_order@.len(),
                known == exists|k: int|
                    0 <= k < j && #[trigger] workspaces@[k] == config.workspace_order@[n as int],
            decreases workspaces.len() - j,
        {
            if workspaces[j] == config.workspace_order[n] {
                known = true;
            }
            j += 1;
        }
        if !known {
            proof {
                assert(!workspaces@.contains(config.workspace_order@[n as int]));
            }
            return false;
        }
        n += 1;
    }
    let definitions: Vec<CoordinateSystem> = named_definitions(&config.coordinate_systems);
    resolves.len() == definitions.len()
}

impl EditorState {
    /// The settings are in force.
    pub open spec fn runs_with(
        &self,
        config: &Config,
        workspaces: Seq<u8>,
        resolves: Seq<bool>,
        target: Target,
    ) -> bool {
        &&& self.workspace_order@ == deduplicated(config.workspace_order@ + workspaces)
        &&& self.active_workspace == Some(self.workspace_order@[0])
        &&& self.coordinate_systems@ == usable_definitions(config, resolves)
        &&& text_of(self.local_system) == (match text_of(config.mine_coordinate_system) {
            Some(name) if defines(self.coordinate_systems@, name) => Some(name),
            _ => None,
        })
        &&& self.language == usable_language(config.language, target)
        &&& self.preferences == config.preferences.in_range()
        &&& self.delay_products@ == config.delay_products@
        &&& self.next_delay_product_id == config.delay_products@.len()
        &&& self.active_delay_product == (if config.delay_products@.len() == 0 {
            None
        } else {
            Some(config.delay_products@[0])
        })
    }

    /// Nothing but settings differs.
    pub open spec fn same_but_settings(&self, after: &EditorState) -> bool {
        *after == (EditorState {
            workspace_order: after.workspace_order,
            active_workspace: after.active_workspace,
            coordinate_systems: after.coordinate_systems,
            local_system: after.local_system,
            language: after.language,
            preferences: after.preferences,
            delay_products: after.delay_products,
            next_delay_product_id: after.next_delay_product_id,
            active_delay_product: after.active_delay_product,
            ..*self
        })
    }

    /// Puts settings in force. `workspaces` lists all there are, and `resolves`
    /// tells of each named coordinate system whether it resolves.
    pub fn configure(
        &mut self,
        config: &Config,
        workspaces: &Vec<u8>,
        resolves: &Vec<bool>,
        target: Target,
    )
        requires
            applicable(config, workspaces@, resolves@),
        ensures
            final(self).runs_with(config, workspaces@, resolves@, target),
            old(self).same_but_settings(final(self)),
    {
        let order: Vec<u8> = workspace_order(&config.workspace_order, workspaces);
        self.active_workspace = Some(order[0]);
        self.workspace_order = order;
        let definitions: Vec<CoordinateSystem> = named_definitions(&config.coordinate_systems);
        self.coordinate_systems = resolved_definitions(&definitions, resolves);
        self.local_system = known_system(&config.mine_coordinate_system, &self.coordinate_systems);
        self.language = config.language.or_available(target);
        self.preferences = config.preferences.clamped();
        self.delay_products = crate::project::copied_ids(&config.delay_products);
        self.next_delay_product_id = self.delay_products.len() as u64;
        self.active_delay_product = if self.delay_products.len() == 0 {
            None
        } else {
            Some(self.delay_products[0])
        };
    }
}

impl<P> App<P> {
    /// The settings are in force.
    pub open spec fn config_applied(
        &self,
        config: &Config,
        workspaces: Seq<u8>,
        resolves: Seq<bool>,
        after: &App<P>,
    ) -> bool {
        &&& after.editor.runs_with(config, workspaces, resolves, self.target)
        &&& self.editor.same_but_settings(&after.editor)
        &&& after.outbox@ == self.outbox@ + seq![
            Effect::RefreshAxisNames,
            Effect::SelectLanguage(usable_language(config.language, self.target)),
            Effect::ConfigureCamera,
        ]
        &&& *after == (App { editor: after.editor, outbox: after.outbox, ..*self })
    }

    /// Puts settings in force.
    pub fn apply_config(&mut self, config: &Config, workspaces: &Vec<u8>, resolves: &Vec<bool>)
        requires
            applicable(config, workspaces@, resolves@),
        ensures
            old(self).config_applied(config, workspaces@, resolves@, final(self)),
    {
        self.editor.configure(config, workspaces, resolves, self.target);
        self.outbox.push(Effect::RefreshAxisNames);
        self.outbox.push(Effect::SelectLanguage(self.editor.language));
        self.outbox.push(Effect::ConfigureCamera);
        proof {
            assert(self.outbox@ =~= old(self).outbox@ + seq![
                Effect::RefreshAxisNames,
                Effect::SelectLanguage(usable_language(config.language, old(self).target)),
                Effect::ConfigureCamera,
            ]);
        }
    }

    /// Tells the user something.
    pub fn notify(&mut self, notice: Notice)
        ensures
            final(self).outbox@ == old(self).outbox@.push(Effect::Notify(notice)),
            *final(self) == (App { outbox: final(self).outbox, ..*old(self) }),
    {
        self.outbox.push(Effect::Notify(notice));
    }

    /// Lets the camera show everything, if there is a renderer.
    pub fn fit_view_to_extents(&mut self)
        ensures
            final(self).outbox@ == old(self).outbox@ + old(self).for_renderer(Effect::FitView),
            *final(self) == (App {
                pacing: FramePacing {
                    redraw_requested: old(self).pacing.redraw_requested || old(self).surface is Some,
                    ..old(self).pacing
                },
                outbox: final(self).outbox,
                ..*old(self)
            }),
    {
        if self.surface.is_some() {
            self.outbox.push(Effect::FitView);
            self.pacing.redraw_requested = true;
        }
        proof {
            assert(self.outbox@ =~= old(self).outbox@ + old(self).for_renderer(Effect::FitView));
        }
    }

    /// Something that the scene can show is loaded. Asked right before a result
    /// is put in, so that loads that run side by side do not act on what the
    /// scene held when they began.
    pub fn scene_has_renderables(&self) -> (yes: bool)
        ensures
            yes == ((exists|i: int|
                0 <= i < self.workspace.projects@.len() && (
                #[trigger] self.workspace.projects@[i]).document.has_renderables())
                || self.items.item_loaded()),
    {
        let mut i: usize = 0;
        while i < self.workspace.projects.len()
            invariant
                i <= self.workspace.projects@.len(),
                forall|j: int|
                    0 <= j < i ==> !(#[trigger] self.workspace.projects@[j]).document.has_renderables(),
            decreases self.workspace.projects.len() - i,
        {
            if self.workspace.projects[i].document.holds_renderables() {
                return true;
            }
            i += 1;
        }
        self.items.has_loaded_items()
    }

    /// The list of opened projects that a stored session leads to.
    pub open spec fn session_paths(stored: Stored<Session>) -> Seq<ProjectPath> {
        match stored {
            Stored::Found(session) => match session.current_project_path {
                Some(path) => tracked_with(tracked_all(session.project_paths@), path),
                None => tracked_all(session.project_paths@),
            },
            _ => Seq::empty(),
        }
    }

    /// What is said of stored values that could not be read.
    pub open spec fn startup_notices(session: Stored<Session>, config: Stored<Config>) -> Seq<Effect> {
        (match unread(session, NoticeKind::SessionLoadFailed) {
            Some(notice) => seq![Effect::Notify(notice)],
            None => Seq::empty(),
        }) + (match unread(config, NoticeKind::ConfigLoadFailed) {
            Some(notice) => seq![Effect::Notify(notice)],
            None => Seq::empty(),
        })
    }

    /// The desktop application before any settings: with the list of opened
    /// projects, and what there is to say of stored values.
    pub open spec fn restored_with(
        &self,
        editor: EditorState,
        session: Stored<Session>,
        config: Stored<Config>,
    ) -> bool {
        &&& self.at_rest()
        &&& self.target == Target::Native
        &&& self.editor == editor
        &&& !self.browser.event_loop_proxy
        &&& self.tracked_project_paths@ == Self::session_paths(session)
        &&& self.outbox@ == Self::startup_notices(session, config)
    }

    /// Reads the session and the settings, and makes the application before any
    /// settings.
    fn restored(
        editor: EditorState,
        session: Stored<Session>,
        config: Stored<Config>,
        fallback: Config,
    ) -> (result: (App<P>, Config))
        requires
            !editor.flags.background_busy,
        ensures
            result.0.restored_with(editor, session, config),
            result.1 == stored_or(config, fallback),
    {
        let mut app: App<P> = App::default(Target::Native, editor);
        let nothing: Session = Session { project_paths: Vec::new(), current_project_path: None };
        let (session_read, notice): (Session, Option<Notice>) = read_or_default(
            session,
            nothing,
            NoticeKind::SessionLoadFailed,
        );
        if let Some(n) = notice {
            app.notify(n);
        }
        let (config_read, notice): (Config, Option<Notice>) = read_or_default(
            config,
            fallback,
            NoticeKind::ConfigLoadFailed,
        );
        if let Some(n) = notice {
            app.notify(n);
        }
        app.load_session_projects(&session_read);
        proof {
            assert(app.outbox@ =~= Self::startup_notices(session, config));
        }
        (app, config_read)
    }

    /// Shows the splash over the open project.
    fn show_startup_dialog(&mut self)
        ensures
            *final(self) == (App {
                lifecycle: Lifecycle { startup_dialog_dismissed: false, ..old(self).lifecycle },
                ..*old(self)
            }),
    {
        self.lifecycle.startup_dialog_dismissed = false;
    }

    /// `self` is restored; then come settings, then a project with the splash over
    /// it.
    pub open spec fn launched(
        &self,
        config: &Config,
        workspaces: Seq<u8>,
        resolves: Seq<bool>,
        untitled: OpenProject,
        after: &App<P>,
    ) -> bool {
        exists|configured: App<P>, installed: App<P>|
            #![trigger configured.project_installed(untitled, &installed)]
            self.config_applied(config, workspaces, resolves, &configured)
                && configured.project_installed(untitled, &installed) && *after == (App {
                lifecycle: Lifecycle { startup_dialog_dismissed: false, ..installed.lifecycle },
                ..installed
            })
    }

    /// The desktop application as it starts: with the stored settings, or
    /// `fallback` in their place, the list of opened projects, and a project that
    /// was never saved to draw into. The splash stands over it until it is
    /// dismissed.
    pub fn new(
        editor: EditorState,
        session: Stored<Session>,
        config: Stored<Config>,
        fallback: Config,
        workspaces: &Vec<u8>,
        resolves: &Vec<bool>,
        untitled: OpenProject,
    ) -> (app: App<P>)
        requires
            applicable(&stored_or(config, fallback), workspaces@, resolves@),
            !editor.flags.background_busy,
        ensures
            exists|started: App<P>| #[trigger]
                started.restored_with(editor, session, config) && started.launched(
                    &stored_or(config, fallback),
                    workspaces@,
                    resolves@,
                    untitled,
                    &app,
                ),
            app.wf(),
            app.target == Target::Native,
            !app.lifecycle.startup_dialog_dismissed,
            app.surface is None,
            !app.window_open,
            app.workspace.projects@ == seq![OpenProject { runtime_id: 1, ..untitled }],
            app.workspace.active_index == Some(0usize),
            app.items.is_blank(),
            app.tracked_project_paths@ == (match untitled.path {
                Some(path) => tracked_with(Self::session_paths(session), path),
                None => Self::session_paths(session),
            }),
            app.editor.runs_with(
                &stored_or(config, fallback),
                workspaces@,
                resolves@,
                Target::Native,
            ),
            app.outbox@ == Self::startup_notices(session, config) + seq![
                Effect::RefreshAxisNames,
                Effect::SelectLanguage(stored_or(config, fallback).language),
                Effect::ConfigureCamera,
                Effect::CancelJobs { keep_browser_saves: false },
                Effect::ResetHistory,
            ] + Self::transient_effects(editor.flags) + seq![
                Effect::ClearRotationCentre,
                Effect::LeaveSliceMode,
                Effect::ClearProjectTransients,
                Effect::ActivateHistory(1),
                Effect::RebuildSceneDocument,
                Effect::PersistSession,
            ],
    {
        let (mut app, config_read): (App<P>, Config) = App::restored(
            editor,
            session,
            config,
            fallback,
        );
        let ghost started = app;
        app.apply_config(&config_read, workspaces, resolves);
        let ghost configured = app;
        app.set_active_project(untitled);
        let ghost installed = app;
        app.show_startup_dialog();
        proof {
            assert(configured.project_installed(untitled, &installed));
            assert(started.launched(&config_read, workspaces@, resolves@, untitled, &app));
            assert(app.outbox@ =~= Self::startup_notices(session, config) + seq![
                Effect::RefreshAxisNames,
                Effect::SelectLanguage(config_read.language),
                Effect::ConfigureCamera,
                Effect::CancelJobs { keep_browser_saves: false },
                Effect::ResetHistory,
            ] + Self::transient_effects(editor.flags) + seq![
                Effect::ClearRotationCentre,
                Effect::LeaveSliceMode,
                Effect::ClearProjectTransients,
                Effect::ActivateHistory(1),
                Effect::RebuildSceneDocument,
                Effect::PersistSession,
            ]) by {
                assert(configured.editor.flags == editor.flags);
                assert(configured.loads.all() =~= Seq::<PendingLoad>::empty());
                assert(cancelled_reports(configured.loads.all()) =~= Seq::<Effect>::empty());
            }
        }
        app
    }
}

} // verus!
