//! The browser build: starting on a page, and what comes back from the
//! browser's storage, from background loads and from the clipboard.
use crate::app::{App, BrowserProject, BrowserState, GraphicsState, Lifecycle};
use crate::config::Config;
use crate::editor::EditorState;
use crate::effects::{Effect, Notice, NoticeKind};
use crate::items::SaveToken;
use crate::language::Target;
use crate::pacing::{FramePacing, SurfaceSize};
use crate::project::{OpenProject, ProjectPath, ProjectPersistence};
use crate::startup::{applicable, usable_language, Stored};
use crate::tasks::{BackgroundTaskState, BackgroundTaskTicket};
use crate::text::{chars_of, joined, string_of};
use vstd::prelude::*;

verus! {

/// What became of the renderer's start.
pub enum GraphicsOutcome {
    /// It runs, with a surface of this size.
    Ready(SurfaceSize),
    Failed(String),
    /// It is said to have finished, and left nothing.
    Missing,
}

/// What still differs from the saved copy in the project that was saved.
pub struct SnapshotMark {
    pub unsaved: bool,
    pub savepoint_revision: u64,
    pub dirty_layers: Vec<u64>,
}

/// A save to the browser's storage that is done.
pub struct BrowserSave {
    pub runtime_id: u32,
    /// The id it is stored under.
    pub project_id: u64,
    pub asset_token: SaveToken,
    /// The workspace that the project was in: runtime ids are used again.
    pub workspace: u64,
    pub mark: SnapshotMark,
    /// Why it failed, if it did.
    pub failure: Option<String>,
}

/// Something that can wait for a save, in the order in which it is done.
#[derive(Debug, Clone, Copy, PartialEq, Eq, Structural)]
pub enum SaveTask {
    /// The project that is to replace the saved one is opened.
    Replace,
    /// The saved project is closed.
    Close,
    /// The saved project is deleted from the browser's storage.
    Delete,
    /// The application is left, if that waited and nothing else holds it back.
    Leave,
}

impl SaveTask {
    /// The task behind this one.
    pub open spec fn following(self) -> Option<SaveTask> {
        match self {
            SaveTask::Replace => Some(SaveTask::Close),
            SaveTask::Close => Some(SaveTask::Delete),
            SaveTask::Delete => Some(SaveTask::Leave),
            SaveTask::Leave => None,
        }
    }
}

/// What is left of the work that waited for a save.
#[derive(Debug, Clone, Copy, PartialEq, Eq, Structural)]
pub struct SaveFollowUp {
    pub runtime_id: u32,
    /// The save succeeded.
    pub saved: bool,
    /// The replacement that waited for the save is to go on.
    pub replace: bool,
    /// The first task that was not looked at yet.
    pub next: Option<SaveTask>,
}

/// What follows a save.
#[derive(Debug, Clone, Copy, PartialEq, Eq, Structural)]
pub enum SaveStep {
    /// The project is gone; nothing follows.
    Stale,
    /// The project is there, and what waited for the save is done.
    Proceed(SaveFollowUp),
}

/// `name` without any number of `suffix` at its end.
pub open spec fn without_suffixes(name: Seq<char>, suffix: Seq<char>) -> Seq<char>
    decreases name.len(),
{
    if 0 < suffix.len() <= name.len() && name.subrange(name.len() - suffix.len(), name.len() as int)
        == suffix {
        without_suffixes(name.subrange(0, name.len() - suffix.len()), suffix)
    } else {
        name
    }
}

/// The file name that a stored project is read under: its name with one
/// extension.
pub fn browser_source_name(name: &str) -> (file: String)
    ensures
        file@ == without_suffixes(name@, ".omf"@) + ".omf"@,
{
    let chars: Vec<char> = chars_of(name);
    let mut end: usize = chars.len();
    proof {
        reveal_strlit(".omf");
        assert(chars@.subrange(0, end as int) =~= name@);
    }
    while end >= 4 && chars[end - 4] == '.' && chars[end - 3] == 'o' && chars[end - 2] == 'm'
        && chars[end - 1] == 'f'
        invariant
            end <= chars@.len(),
            ".omf"@ == seq!['.', 'o', 'm', 'f'],
            without_suffixes(name@, ".omf"@) == without_suffixes(
                chars@.subrange(0, end as int),
                ".omf"@,
            ),
        decreases end,
    {
        proof {
            let left = chars@.subrange(0, end as int);
            assert(left.subrange(end - 4, end as int) =~= ".omf"@);
            assert(left.subrange(0, end - 4) =~= chars@.subrange(0, end - 4));
        }
        end -= 4;
    }
    let stem: String = string_of(&chars, 0, end);
    proof {
        let left = chars@.subrange(0, end as int);
        if end >= 4 {
            let tail = left.subrange(end - 4, end as int);
            assert(tail[0] == chars@[end - 4]);
            assert(tail[1] == chars@[end - 3]);
            assert(tail[2] == chars@[end - 2]);
            assert(tail[3] == chars@[end - 1]);
            assert(tail != ".omf"@) by {
                assert(".omf"@[0] == '.' && ".omf"@[1] == 'o' && ".omf"@[2] == 'm' && ".omf"@[3]
                    == 'f');
            }
        }
        assert(without_suffixes(left, ".omf"@) == left);
    }
    joined(stem.as_str(), ".omf")
}

/// `path` without the separators at its end, and without a dot that stands
/// there for the place itself.
pub open spec fn without_end(path: Seq<char>) -> Seq<char>
    decreases path.len(),
{
    if path.len() > 0 && path.last() == '/' {
        without_end(path.drop_last())
    } else if path.len() > 1 && path.last() == '.' && path[path.len() - 2] == '/' {
        without_end(path.take(path.len() - 2))
    } else {
        path
    }
}

/// What stands behind the last separator of `path`.
pub open spec fn behind_separator(path: Seq<char>) -> Seq<char>
    decreases path.len(),
{
    if path.len() == 0 || path.last() == '/' {
        Seq::empty()
    } else {
        behind_separator(path.drop_last()).push(path.last())
    }
}

/// The name of the file or folder that a path on a page leads to; none where it
/// leads to the root, to the place itself or to the one above.
pub open spec fn last_component(path: Seq<char>) -> Option<Seq<char>> {
    let name = behind_separator(without_end(path));
    if name.len() == 0 || name == seq!['.'] || name == seq!['.', '.'] {
        None
    } else {
        Some(name)
    }
}

proof fn lemma_behind_separator(path: Seq<char>, start: int)
    requires
        0 <= start <= path.len(),
        start > 0 ==> path[start - 1] == '/',
        forall|i: int| start <= i < path.len() ==> path[i] != '/',
    ensures
        behind_separator(path) == path.skip(start),
    decreases path.len(),
{
    if start < path.len() {
        lemma_behind_separator(path.drop_last(), start);
        assert(path.skip(start) =~= path.drop_last().skip(start).push(path.last()));
    } else {
        assert(path.skip(start) =~= Seq::<char>::empty());
    }
}

/// The file name that a file from the page goes by: the last component of its
/// name, or a stand-in where it has none.
pub fn browser_source_filename(name: &str) -> (file: String)
    ensures
        file@ == (match last_component(name@) {
            Some(component) => component,
            None => "browser-file"@,
        }),
{
    let chars: Vec<char> = chars_of(name);
    let mut end: usize = chars.len();
    proof {
        assert(chars@.take(end as int) =~= name@);
    }
    while end > 0 && (chars[end - 1] == '/' || (end > 1 && chars[end - 1] == '.' && chars[end - 2]
        == '/'))
        invariant
            end <= chars@.len(),
            without_end(name@) == without_end(chars@.take(end as int)),
        decreases end,
    {
        proof {
            let left = chars@.take(end as int);
            assert(left.drop_last() =~= chars@.take(end - 1));
            if end > 1 {
                assert(left.take(end - 2) =~= chars@.take(end - 2));
            }
        }
        if chars[end - 1] == '/' {
            end -= 1;
        } else {
            end -= 2;
        }
    }
    let ghost left = chars@.take(end as int);
    let mut start: usize = end;
    while start > 0 && chars[start - 1] != '/'
        invariant
            start <= end <= chars@.len(),
            forall|i: int| start <= i < end ==> chars@[i] != '/',
        decreases start,
    {
        start -= 1;
    }
    proof {
        assert(without_end(left) == left);
        lemma_behind_separator(left, start as int);
        assert(left.skip(start as int) =~= chars@.subrange(start as int, end as int));
    }
    let length: usize = end - start;
    let dots: bool = (length == 1 && chars[start] == '.') || (length == 2 && chars[start] == '.'
        && chars[start + 1] == '.');
    let ghost found = chars@.subrange(start as int, end as int);
    proof {
        if dots {
            assert(found =~= seq!['.'] || found =~= seq!['.', '.']);
        } else {
            assert(found != seq!['.'] && found != seq!['.', '.']) by {
                assert(seq!['.'][0] == '.' && seq!['.', '.'][0] == '.' && seq!['.', '.'][1] == '.');
                if length > 0 {
                    assert(found[0] == chars@[start as int]);
                }
                if length > 1 {
                    assert(found[1] == chars@[start + 1]);
                }
            }
        }
    }
    if length == 0 || dots {
        "browser-file".to_owned()
    } else {
        string_of(&chars, start, end)
    }
}

/// The stored project at `i` is the first with the id.
pub open spec fn first_stored(stored: Seq<BrowserProject>, id: u64, i: int) -> bool {
    0 <= i < stored.len() && stored[i].id == id && forall|j: int|
        0 <= j < i ==> (#[trigger] stored[j]).id != id
}

/// The stored projects once one is stored under `id` with this name.
pub open spec fn stored_with(
    before: Seq<BrowserProject>,
    project: BrowserProject,
    after: Seq<BrowserProject>,
) -> bool {
    if exists|i: int| 0 <= i < before.len() && (#[trigger] before[i]).id == project.id {
        exists|i: int| #[trigger]
            first_stored(before, project.id, i) && after == before.update(i, project)
    } else {
        after == before.push(project)
    }
}

impl BrowserState {
    /// Adds a project to the stored ones, or gives it its new name.
    pub fn track(&mut self, project: BrowserProject)
        ensures
            stored_with(old(self).stored@, project, final(self).stored@),
            *final(self) == (BrowserState { stored: final(self).stored, ..*old(self) }),
    {
        let mut i: usize = 0;
        while i < self.stored.len()
            invariant
                i <= self.stored@.len(),
                *self == *old(self),
                forall|j: int| 0 <= j < i ==> (#[trigger] self.stored@[j]).id != project.id,
            decreases self.stored.len() - i,
        {
            if self.stored[i].id == project.id {
                proof {
                    assert(first_stored(self.stored@, project.id, i as int));
                }
                self.stored.set(i, project);
                return;
            }
            i += 1;
        }
        self.stored.push(project);
    }

    /// Takes a project off the stored ones.
    pub fn forget(&mut self, id: u64)
        ensures
            final(self).stored@ == old(self).stored@.filter(|p: BrowserProject| p.id != id),
            *final(self) == (BrowserState { stored: final(self).stored, ..*old(self) }),
    {
        let ghost before = self.stored@;
        let ghost keep = |p: BrowserProject| p.id != id;
        let ghost mut seen: int = 0;
        let mut i: usize = 0;
        proof {
            reveal(Seq::filter);
            assert(before.take(0).filter(keep) =~= Seq::empty());
            assert(self.stored@ =~= before.take(0).filter(keep) + before.skip(0));
        }
        while i < self.stored.len()
            invariant
                0 <= seen <= before.len(),
                before == old(self).stored@,
                keep == (|p: BrowserProject| p.id != id),
                i == before.take(seen).filter(keep).len(),
                self.stored@ == before.take(seen).filter(keep) + before.skip(seen),
                *self == (BrowserState { stored: self.stored, ..*old(self) }),
            decreases before.len() - seen,
        {
            let ghost kept = before.take(seen).filter(keep);
            proof {
                reveal(Seq::filter);
                assert(self.stored@[i as int] == before[seen]);
                assert(before.take(seen + 1).drop_last() =~= before.take(seen));
                assert(before.take(seen + 1).last() == before[seen]);
            }
            if self.stored[i].id == id {
                let _gone: BrowserProject = self.stored.remove(i);
                proof {
                    assert(self.stored@ =~= kept + before.skip(seen + 1));
                }
            } else {
                proof {
                    assert(self.stored@ =~= kept.push(before[seen]) + before.skip(seen + 1));
                }
                i += 1;
            }
            proof {
                seen = seen + 1;
            }
        }
        proof {
            assert(before.take(seen) =~= before);
            assert(self.stored@ =~= before.filter(keep));
        }
    }
}

impl<P> App<P> {
    /// The application on a page as it starts: with stored settings, if there
    /// are any, and a list of stored projects on its way. No project is open.
    pub fn web_new(
        editor: EditorState,
        config: Stored<Config>,
        workspaces: &Vec<u8>,
        resolves: &Vec<bool>,
    ) -> (app: App<P>)
        requires
            config is Found ==> applicable(&config->Found_0, workspaces@, resolves@),
            !editor.flags.background_busy,
        ensures
            app.at_rest(),
            app.target == Target::Web,
            app.browser.event_loop_proxy,
            app.tracked_project_paths@ == Seq::<ProjectPath>::empty(),
            match config {
                Stored::Found(c) => {
                    &&& app.editor.runs_with(&c, workspaces@, resolves@, Target::Web)
                    &&& editor.same_but_settings(&app.editor)
                },
                _ => app.editor == editor,
            },
            app.outbox@ == seq![Effect::InitializeBrowserStorage] + Self::settings_effects(config)
                + seq![Effect::InstallBrowserGuards, Effect::LoadBrowserSession],
    {
        let mut app: App<P> = App::default(Target::Web, editor);
        app.browser.event_loop_proxy = true;
        match config {
            Stored::Found(c) => {
                app.apply_config(&c, workspaces, resolves);
            },
            Stored::Absent => {},
            Stored::Unreadable(reason) => {
                app.notify(Notice { kind: NoticeKind::BrowserPreferencesFailed, detail: reason });
            },
        }
        app.outbox.push(Effect::InstallBrowserGuards);
        app.outbox.push(Effect::LoadBrowserSession);
        proof {
            assert(app.outbox@ =~= seq![Effect::InitializeBrowserStorage] + Self::settings_effects(
                config,
            ) + seq![Effect::InstallBrowserGuards, Effect::LoadBrowserSession]);
        }
        app
    }

    /// What the stored settings lead to on a page.
    pub open spec fn settings_effects(config: Stored<Config>) -> Seq<Effect> {
        match config {
            Stored::Found(c) => seq![
                Effect::RefreshAxisNames,
                Effect::SelectLanguage(usable_language(c.language, Target::Web)),
                Effect::ConfigureCamera,
            ],
            Stored::Absent => Seq::empty(),
            Stored::Unreadable(reason) => seq![
                Effect::Notify(
                    Notice { kind: NoticeKind::BrowserPreferencesFailed, detail: reason },
                ),
            ],
        }
    }

    /// The renderer was given up, for a reason in these words.
    pub open spec fn graphics_given_up(&self, words: Seq<char>, after: &App<P>) -> bool {
        &&& exists|reason: String| #[trigger]
            spoken(reason, words) && after.outbox@ == self.outbox@ + seq![
                Effect::Fail(reason),
                Effect::ShowStartupError(reason),
            ]
        &&& *after == (App {
            browser: BrowserState { graphics_state: GraphicsState::Failed, ..self.browser },
            lifecycle: Lifecycle { close_requested: true, ..self.lifecycle },
            outbox: after.outbox,
            ..*self
        })
    }

    /// Says what went wrong, on the page too, and gives the renderer up.
    fn give_up_graphics(&mut self, reason: String)
        ensures
            old(self).graphics_given_up(reason@, final(self)),
    {
        self.outbox.push(Effect::Fail(reason.clone()));
        self.outbox.push(Effect::ShowStartupError(reason));
        self.browser.graphics_state = GraphicsState::Failed;
        self.lifecycle.close_requested = true;
        proof {
            assert(spoken(reason, reason@));
            assert(self.outbox@ =~= old(self).outbox@ + seq![
                Effect::Fail(reason),
                Effect::ShowStartupError(reason),
            ]);
        }
    }

    /// Starts the renderer, once. It needs to wake the event loop when it runs.
    pub fn web_graphics_initialization(&mut self)
        ensures
            if old(self).browser.graphics_state != GraphicsState::NotStarted {
                *final(self) == *old(self)
            } else if !old(self).browser.event_loop_proxy {
                old(self).graphics_given_up("browser event-loop is unavailable"@, final(self))
            } else {
                &&& final(self).outbox@ == old(self).outbox@.push(Effect::SpawnGraphics)
                &&& *final(self) == (App {
                    browser: BrowserState {
                        graphics_state: GraphicsState::Initializing,
                        ..old(self).browser
                    },
                    outbox: final(self).outbox,
                    ..*old(self)
                })
            },
    {
        match self.browser.graphics_state {
            GraphicsState::NotStarted => {},
            _ => {
                return;
            },
        }
        if !self.browser.event_loop_proxy {
            self.give_up_graphics("browser event-loop is unavailable".to_owned());
            return;
        }
        self.browser.graphics_state = GraphicsState::Initializing;
        self.outbox.push(Effect::SpawnGraphics);
    }

    /// The renderer on the page runs, with a surface of this size.
    fn graphics_ready(&mut self, surface: SurfaceSize)
        ensures
            final(self).outbox@ == old(self).outbox@ + (seq![
                Effect::ApplyPresentMode,
                Effect::ShowStartupReady,
            ] + (if old(self).window_open {
                seq![Effect::RequestRedraw]
            } else {
                Seq::empty()
            })),
            *final(self) == (App {
                surface: Some(surface),
                browser: BrowserState { graphics_state: GraphicsState::Ready, ..old(self).browser },
                pacing: FramePacing { redraw_requested: true, ..old(self).pacing },
                outbox: final(self).outbox,
                ..*old(self)
            }),
    {
        self.surface = Some(surface);
        self.outbox.push(Effect::ApplyPresentMode);
        self.browser.graphics_state = GraphicsState::Ready;
        self.pacing.redraw_requested = true;
        self.outbox.push(Effect::ShowStartupReady);
        if self.window_open {
            self.outbox.push(Effect::RequestRedraw);
        }
        proof {
            assert(self.outbox@ =~= old(self).outbox@ + (seq![
                Effect::ApplyPresentMode,
                Effect::ShowStartupReady,
            ] + (if old(self).window_open {
                seq![Effect::RequestRedraw]
            } else {
                Seq::empty()
            })));
        }
    }

    /// What the end of the renderer's start changes.
    pub open spec fn graphics_settled(&self, outcome: GraphicsOutcome, after: &App<P>) -> bool {
        match outcome {
            GraphicsOutcome::Ready(surface) => {
                &&& after.outbox@ == self.outbox@ + (seq![
                    Effect::ApplyPresentMode,
                    Effect::ShowStartupReady,
                ] + (if self.window_open {
                    seq![Effect::RequestRedraw]
                } else {
                    Seq::empty()
                }))
                &&& *after == (App {
                    surface: Some(surface),
                    browser: BrowserState {
                        graphics_state: GraphicsState::Ready,
                        ..self.browser
                    },
                    pacing: FramePacing { redraw_requested: true, ..self.pacing },
                    outbox: after.outbox,
                    ..*self
                })
            },
            GraphicsOutcome::Failed(error) => self.graphics_given_up(
                "failed to initialize WebGPU: "@ + error@,
                after,
            ),
            GraphicsOutcome::Missing => self.graphics_given_up(
                "graphics completion event had no result"@,
                after,
            ),
        }
    }

    /// The renderer's start is over.
    pub fn graphics_initialization_finished(&mut self, outcome: GraphicsOutcome)
        ensures
            old(self).graphics_settled(outcome, final(self)),
    {
        match outcome {
            GraphicsOutcome::Ready(surface) => self.graphics_ready(surface),
            GraphicsOutcome::Failed(error) => {
                self.give_up_graphics(joined("failed to initialize WebGPU: ", error.as_str()));
            },
            GraphicsOutcome::Missing => {
                self.give_up_graphics("graphics completion event had no result".to_owned());
            },
        }
    }

    /// What the list of stored projects changes.
    pub open spec fn projects_restored(
        &self,
        result: Result<Vec<BrowserProject>, String>,
        after: &App<P>,
    ) -> bool {
        match result {
            Ok(projects) => *after == (App {
                browser: BrowserState { stored: projects, ..self.browser },
                ..*self
            }),
            Err(reason) => {
                &&& after.outbox@ == self.outbox@.push(
                    Effect::Notify(
                        Notice { kind: NoticeKind::BrowserRestoreFailed, detail: reason },
                    ),
                )
                &&& *after == (App { outbox: after.outbox, ..*self })
            },
        }
    }

    /// The list of stored projects came in, or did not for a reason. Nothing is
    /// opened: the splash offers the projects.
    pub fn browser_projects_restored(&mut self, result: Result<Vec<BrowserProject>, String>)
        ensures
            old(self).projects_restored(result, final(self)),
    {
        match result {
            Ok(projects) => {
                self.browser.stored = projects;
            },
            Err(reason) => {
                self.notify(Notice { kind: NoticeKind::BrowserRestoreFailed, detail: reason });
            },
        }
    }

    /// A load of a stored project no longer counts as pending.
    fn end_browser_load(&mut self, project_id: u64)
        ensures
            final(self).browser.loads_pending@ == old(self).browser.loads_pending@.remove(
                project_id,
            ),
            *final(self) == (App {
                browser: BrowserState {
                    loads_pending: final(self).browser.loads_pending,
                    ..old(self).browser
                },
                ..*old(self)
            }),
    {
        broadcast use vstd::std_specs::hash::group_hash_axioms;

        let _was: bool = self.browser.loads_pending.remove(&project_id);
        proof {
            assert(self.browser.loads_pending@ =~= old(self).browser.loads_pending@.remove(
                project_id,
            ));
        }
    }

    /// What the end of reading a stored project changes.
    pub open spec fn load_finished(
        &self,
        project_id: u64,
        ticket: BackgroundTaskTicket,
        result: Result<bool, String>,
        after: &App<P>,
    ) -> bool {
        &&& after.tasks.next_ticket == self.tasks.next_ticket
        &&& after.tasks.cpu_pending@ == self.tasks.cpu_pending@.remove(ticket.0)
        &&& after.tasks.awaiting_apply@ == self.tasks.awaiting_apply@
        &&& after.tasks.gpu_pending@ == self.tasks.gpu_pending@
        &&& after.tasks.reported@ == BackgroundTaskState::<P>::reports_without(
            self.tasks.reported@,
            ticket,
        )
        &&& after.browser.loads_pending@ == (if result == Ok::<bool, String>(true) {
            self.browser.loads_pending@
        } else {
            self.browser.loads_pending@.remove(project_id)
        })
        &&& match result {
            Ok(true) => after.outbox@ == self.outbox@.push(
                Effect::OpenBrowserRecord(project_id),
            ),
            Ok(false) => exists|nothing: String| #[trigger]
                spoken(nothing, Seq::empty()) && after.outbox@ == self.outbox@.push(
                    Effect::Notify(
                        Notice { kind: NoticeKind::BrowserProjectGone, detail: nothing },
                    ),
                ),
            Err(reason) => after.outbox@ == self.outbox@.push(
                Effect::Notify(Notice { kind: NoticeKind::BrowserLoadFailed, detail: reason }),
            ),
        }
        &&& (App {
            browser: BrowserState {
                loads_pending: after.browser.loads_pending,
                ..self.browser
            },
            outbox: after.outbox,
            ..*self
        }).same_but_tasks(after)
    }

    /// A stored project was read: it is there and is opened in the background,
    /// it is gone, or reading it failed. Its load stays pending while it opens.
    pub fn browser_project_loaded(
        &mut self,
        project_id: u64,
        ticket: BackgroundTaskTicket,
        result: Result<bool, String>,
    )
        requires
            old(self).wf(),
        ensures
            final(self).wf(),
            old(self).load_finished(project_id, ticket, result, final(self)),
    {
        let _known: bool = self.finish_background_task(ticket, false);
        match result {
            Ok(found) => if found {
                self.outbox.push(Effect::OpenBrowserRecord(project_id));
            } else {
                self.end_browser_load(project_id);
                let nothing: String = String::new();
                proof {
                    assert(spoken(nothing, Seq::empty()));
                }
                self.notify(Notice { kind: NoticeKind::BrowserProjectGone, detail: nothing });
            },
            Err(reason) => {
                self.end_browser_load(project_id);
                self.notify(Notice { kind: NoticeKind::BrowserLoadFailed, detail: reason });
            },
        }
    }

    /// The active project is stored under `record_id`.
    fn store_active(&mut self, record_id: u64)
        ensures
            final(self).workspace.active_index == old(self).workspace.active_index,
            final(self).workspace.next_runtime_id == old(self).workspace.next_runtime_id,
            final(self).workspace.projects@ == (match old(self).workspace.active() {
                Some(project) => old(self).workspace.projects@.update(
                    old(self).workspace.active_index->0 as int,
                    OpenProject {
                        id: record_id,
                        persistence: ProjectPersistence::BrowserRecord(record_id),
                        ..project
                    },
                ),
                None => old(self).workspace.projects@,
            }),
            *final(self) == (App { workspace: final(self).workspace, ..*old(self) }),
    {
        if let Some(i) = self.workspace.active_index {
            if i < self.workspace.projects.len() {
                self.workspace.projects[i].id = record_id;
                self.workspace.projects[i].persistence = ProjectPersistence::BrowserRecord(
                    record_id,
                );
            }
        }
    }

    /// A stored project was opened and is the active one, under the id and name
    /// it is stored with; or it could not be opened.
    pub fn browser_record_opened(&mut self, project_id: u64, result: Result<(u64, String), String>)
        ensures
            final(self).browser.loads_pending@ == old(self).browser.loads_pending@.remove(
                project_id,
            ),
            match result {
                Ok(record) => {
                    &&& final(self).workspace.active_index == old(self).workspace.active_index
                    &&& final(self).workspace.next_runtime_id == old(self).workspace.next_runtime_id
                    &&& final(self).workspace.projects@ == (match old(self).workspace.active() {
                        Some(project) => old(self).workspace.projects@.update(
                            old(self).workspace.active_index->0 as int,
                            OpenProject {
                                id: record.0,
                                persistence: ProjectPersistence::BrowserRecord(record.0),
                                ..project
                            },
                        ),
                        None => old(self).workspace.projects@,
                    })
                    &&& final(self).outbox@ == old(self).outbox@ + seq![
                        Effect::PersistSession,
                        Effect::Notify(
                            Notice { kind: NoticeKind::BrowserActivated, detail: record.1 },
                        ),
                    ]
                },
                Err(reason) => {
                    &&& final(self).workspace == old(self).workspace
                    &&& final(self).outbox@ == old(self).outbox@.push(
                        Effect::Notify(
                            Notice { kind: NoticeKind::BrowserActivationFailed, detail: reason },
                        ),
                    )
                },
            },
            *final(self) == (App {
                browser: BrowserState {
                    loads_pending: final(self).browser.loads_pending,
                    ..old(self).browser
                },
                workspace: final(self).workspace,
                outbox: final(self).outbox,
                ..*old(self)
            }),
    {
        self.end_browser_load(project_id);
        match result {
            Ok(record) => {
                self.store_active(record.0);
                self.persist_session();
                self.notify(Notice { kind: NoticeKind::BrowserActivated, detail: record.1 });
                proof {
                    assert(self.outbox@ =~= old(self).outbox@ + seq![
                        Effect::PersistSession,
                        Effect::Notify(
                            Notice { kind: NoticeKind::BrowserActivated, detail: record.1 },
                        ),
                    ]);
                }
            },
            Err(reason) => {
                self.notify(Notice { kind: NoticeKind::BrowserActivationFailed, detail: reason });
            },
        }
    }

    /// What pasted text changes.
    pub open spec fn pasted(&self, text: String, after: &App<P>) -> bool {
        if self.surface is Some {
            self.redrawn_with(seq![Effect::QueuePaste(text)], after)
        } else {
            *after == *self
        }
    }

    /// Text was pasted on the page. Without a renderer there is nowhere for it
    /// to go.
    pub fn browser_clipboard_pasted(&mut self, text: String)
        ensures
            old(self).pasted(text, final(self)),
    {
        if self.surface.is_some() {
            self.outbox.push(Effect::QueuePaste(text));
            self.pacing.redraw_requested = true;
            proof {
                assert(self.outbox@ =~= old(self).outbox@ + seq![Effect::QueuePaste(text)]);
            }
        }
    }
}

/// `text` is made of these words.
pub open spec fn spoken(text: String, words: Seq<char>) -> bool {
    text@ == words
}

} // verus!
