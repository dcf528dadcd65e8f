//! Edits of the open project: what has to be in memory for one, what follows
//! from one, and how the console reports those that a gesture repeats.
use crate::app::{App, GestureLog, SceneCaches};
use crate::editor::{
    entity_exists, existing, keep_id, keep_layer, kept_id, kept_layer, kept_part, parts_of_held,
    without_objects, DatasetPart, EditorState,
};
use crate::effects::Effect;
use crate::items::{
    distinct_ids, saved_items, saving_everything_leaves_nothing_dirty, ProjectItems, SaveToken,
};
use crate::model::{
    epochs, first_item, holds, ids, same_membership, saved_holds, ItemRef, OpenItem, SceneEntityId,
    SectionKind,
};
use crate::pacing::FramePacing;
use crate::project::{holds_id, Folders, OpenProject, ProjectStore};
use vstd::prelude::*;

verus! {

/// What an edit changes, as far as it is known here.
#[derive(Debug, Clone, Copy, PartialEq, Eq, Structural)]
pub enum Command {
    /// Gives an item another presentation.
    SetItemStyle { item: ItemRef, before: u64, after: u64 },
    /// Takes an item out of the project.
    DeleteItem { item: ItemRef },
    /// Changes the document; the number stands for the change.
    ChangeDocument(u64),
}

/// How to go about an edit.
#[derive(Debug, Clone, Copy, PartialEq, Eq, Structural)]
pub enum EditStep {
    /// Read layers back from disk first, then try again.
    RestoreLayers,
    /// Read items back from disk first, then try again.
    RestoreItems,
    /// Apply the edit and record it; one that continues a gesture extends the
    /// step that the gesture began.
    Apply { continuing: bool },
    /// There is no project to edit.
    NoProject,
}

/// What an applied or reverted edit left to do.
pub struct StepEffects {
    pub unloaded_items: Vec<ItemRef>,
    pub document_changed: bool,
    pub items_changed: bool,
    pub membership_changed: bool,
    /// Block models whose values are to be decoded again.
    pub block_model_decodes: Vec<u64>,
}

/// One release for each unloaded item.
pub open spec fn releases(items: Seq<ItemRef>) -> Seq<Effect> {
    items.map_values(|item: ItemRef| Effect::ReleaseRuntime(item))
}

/// One decoding for each block model.
pub open spec fn decodings(ids: Seq<u64>) -> Seq<Effect> {
    ids.map_values(|id: u64| Effect::DecodeBlockModelValues(id))
}

proof fn lemma_in_order<A>(before: Seq<A>, a: Seq<A>, b: Seq<A>, c: Seq<A>, d: Seq<A>)
    ensures
        before + a + b + c + d == before + (a + b + c + d),
{
    assert(before + a + b + c + d =~= before + (a + b + c + d));
}

impl<P> App<P> {
    /// The editor after the sweep, and the tie chain's end if it lost its anchor.
    pub open spec fn references_dropped(&self, after: &App<P>) -> bool {
        &&& self.editor.references_swept(&self.workspace, &self.items, &after.editor)
        &&& after.items == (ProjectItems {
            active_triangulation: kept_id(
                self.items.active_triangulation,
                self.items.triangulations@,
            ),
            ..self.items
        })
        &&& after.outbox@ == self.outbox@ + self.sweep_effects()
        &&& *after == (App {
            editor: after.editor,
            items: after.items,
            outbox: after.outbox,
            ..*self
        })
    }

    /// The tie chain ends where its anchor is gone.
    pub open spec fn sweep_effects(&self) -> Seq<Effect> {
        if self.editor.tie_anchor is Some && !holds(
            self.items.drill_holes@,
            self.editor.tie_anchor->0.dataset,
        ) {
            seq![Effect::EndTieChain]
        } else {
            Seq::empty()
        }
    }

    /// Drops the editor's references to what the project no longer holds. Undo
    /// and redo bring items back and take them away, and no one place could
    /// clean up after that.
    pub fn drop_editor_references_to_missing_items(&mut self)
        ensures
            old(self).references_dropped(final(self)),
    {
        let anchored: bool = self.editor.tie_anchor.is_some();
        self.editor.sweep_references(&self.workspace, &self.items);
        self.items.active_triangulation = keep_id(
            self.items.active_triangulation,
            &self.items.triangulations,
        );
        if anchored && self.editor.tie_anchor.is_none() {
            self.outbox.push(Effect::EndTieChain);
        }
        proof {
            assert(self.outbox@ =~= old(self).outbox@ + old(self).sweep_effects());
        }
    }

    /// Adds one release for each unloaded item, and the evictions.
    fn release_unloaded(&mut self, items: &Vec<ItemRef>)
        ensures
            final(self).outbox@ == old(self).outbox@ + (releases(items@) + seq![
                Effect::EvictUnloadedItems,
                Effect::EvictUnloadedLayers,
            ]),
            *final(self) == (App { outbox: final(self).outbox, ..*old(self) }),
    {
        let mut i: usize = 0;
        proof {
            assert(self.outbox@ =~= old(self).outbox@ + releases(items@.take(0)));
        }
        while i < items.len()
            invariant
                i <= items@.len(),
                self.outbox@ == old(self).outbox@ + releases(items@.take(i as int)),
                *self == (App { outbox: self.outbox, ..*old(self) }),
            decreases items.len() - i,
        {
            self.outbox.push(Effect::ReleaseRuntime(items[i]));
            proof {
                assert(self.outbox@ =~= old(self).outbox@ + releases(items@.take(i + 1)));
            }
            i += 1;
        }
        self.outbox.push(Effect::EvictUnloadedItems);
        self.outbox.push(Effect::EvictUnloadedLayers);
        proof {
            assert(items@.take(i as int) =~= items@);
            assert(self.outbox@ =~= old(self).outbox@ + (releases(items@) + seq![
                Effect::EvictUnloadedItems,
                Effect::EvictUnloadedLayers,
            ]));
        }
    }

    /// Adds one decoding for each block model, and asks for a frame.
    fn decode_values(&mut self, ids: &Vec<u64>)
        ensures
            old(self).redrawn_with(decodings(ids@), final(self)),
    {
        let mut i: usize = 0;
        proof {
            assert(self.outbox@ =~= old(self).outbox@ + decodings(ids@.take(0)));
        }
        while i < ids.len()
            invariant
                i <= ids@.len(),
                self.outbox@ == old(self).outbox@ + decodings(ids@.take(i as int)),
                *self == (App { outbox: self.outbox, ..*old(self) }),
            decreases ids.len() - i,
        {
            self.outbox.push(Effect::DecodeBlockModelValues(ids[i]));
            proof {
                assert(self.outbox@ =~= old(self).outbox@ + decodings(ids@.take(i + 1)));
            }
            i += 1;
        }
        self.pacing.redraw_requested = true;
        proof {
            assert(ids@.take(i as int) =~= ids@);
        }
    }

    /// Tells the renderer and the storage what an edit changed, and asks for a
    /// frame.
    fn announce_step(&mut self, effects: &StepEffects)
        ensures
            old(self).redrawn_with(old(self).announcements(effects), final(self)),
    {
        if effects.items_changed {
            self.invalidate_topology_bounds_and_redraw();
            self.invalidate_overlay();
        }
        if effects.membership_changed {
            self.persist_session();
        }
        self.decode_values(&effects.block_model_decodes);
        proof {
            assert(self.outbox@ =~= old(self).outbox@ + old(self).announcements(effects));
        }
    }

    /// What the renderer and the storage do after an edit.
    pub open spec fn announcements(&self, effects: &StepEffects) -> Seq<Effect> {
        (if effects.items_changed {
            self.for_renderer(Effect::InvalidateGpuBounds) + self.for_renderer(
                Effect::InvalidateGpuOverlay,
            )
        } else {
            Seq::empty()
        }) + (if effects.membership_changed {
            seq![Effect::PersistSession]
        } else {
            Seq::empty()
        }) + decodings(effects.block_model_decodes@)
    }

    /// What the surroundings do after an edit.
    pub open spec fn step_effects(&self, effects: &StepEffects) -> Seq<Effect> {
        releases(effects.unloaded_items@) + seq![
            Effect::EvictUnloadedItems,
            Effect::EvictUnloadedLayers,
        ] + self.sweep_effects() + (if effects.document_changed {
            self.geometry_effects()
        } else {
            Seq::empty()
        }) + self.announcements(effects)
    }

    /// The editor after an edit: without references to what is gone, and where
    /// the document changed, in step with what it hides and what is locked.
    pub open spec fn step_followed(&self, document_changed: bool, after: &EditorState) -> bool {
        let before = self.editor;
        let hidden = existing(before.hidden_handles@, &self.workspace, &self.items);
        let frozen = existing(before.frozen_handles@, &self.workspace, &self.items);
        let selected = existing(before.selected_handles@, &self.workspace, &self.items);
        let explicit = existing(before.explicitly_frozen@, &self.workspace, &self.items);
        let relocked = document_changed && self.caches.layer_lock_key != Some(
            self.lock_key(self.composite()),
        );
        &&& after.hidden_handles@ == (if document_changed {
            EditorState::hidden_mirrors(hidden, self.active_document_view())
        } else {
            hidden
        })
        &&& after.explicitly_frozen@ == explicit
        &&& after.frozen_handles@ == (if relocked {
            without_objects(frozen, explicit).union(self.locked_objects())
        } else {
            frozen
        })
        &&& after.selected_handles@ == (if relocked {
            selected.difference(self.locked_objects())
        } else {
            selected
        })
        &&& after.translucent_handles@ == existing(
            before.translucent_handles@,
            &self.workspace,
            &self.items,
        )
        &&& after.active_layer == kept_layer(before.active_layer, &self.workspace)
        &&& after.active_drill_hole == kept_id(before.active_drill_hole, self.items.drill_holes@)
        &&& after.tie_anchor == kept_part(before.tie_anchor, self.items.drill_holes@)
        &&& after.selected_drill_holes@ == parts_of_held(
            before.selected_drill_holes@,
            self.items.drill_holes@,
        )
        &&& after.selected_tie_ins@ == parts_of_held(
            before.selected_tie_ins@,
            self.items.drill_holes@,
        )
        &&& after.initiation_dialog == kept_part(before.initiation_dialog, self.items.drill_holes@)
        &&& after.same_but_references(&before)
    }

    /// The application after an edit.
    pub open spec fn step_applied(&self, effects: &StepEffects, after: &App<P>) -> bool {
        &&& self.step_followed(effects.document_changed, &after.editor)
        &&& after.items == (ProjectItems {
            active_triangulation: kept_id(
                self.items.active_triangulation,
                self.items.triangulations@,
            ),
            ..self.items
        })
        &&& after.caches == (if effects.document_changed {
            SceneCaches {
                scene_document_key: Some(self.composite()),
                snap_index_dirty: self.caches.snap_index_dirty || self.scene_is_stale(),
                layer_lock_key: Some(self.lock_key(self.composite())),
                ..self.caches
            }
        } else {
            self.caches
        })
        &&& after.outbox@ == self.outbox@ + self.step_effects(effects)
        &&& after.pacing == (FramePacing { redraw_requested: true, ..self.pacing })
        &&& after.same_session(self)
        &&& after.gestures == self.gestures
    }

    /// Does what an applied or reverted edit left to do.
    pub fn apply_step_effects(&mut self, effects: &StepEffects)
        ensures
            old(self).step_applied(effects, final(self)),
    {
        self.release_unloaded(&effects.unloaded_items);
        self.drop_editor_references_to_missing_items();
        let ghost swept = *self;
        if effects.document_changed {
            self.invalidate_geometry();
        }
        let ghost shown = *self;
        self.announce_step(effects);
        proof {
            let released = releases(effects.unloaded_items@) + seq![
                Effect::EvictUnloadedItems,
                Effect::EvictUnloadedLayers,
            ];
            let geometry = if effects.document_changed {
                old(self).geometry_effects()
            } else {
                Seq::empty()
            };
            assert(shown.outbox@ =~= swept.outbox@ + geometry);
            lemma_in_order(
                old(self).outbox@,
                released,
                old(self).sweep_effects(),
                geometry,
                old(self).announcements(effects),
            );
        }
    }

    /// The layer that drawing goes to: the editor's, while the active project
    /// has it loaded.
    pub fn active_layer(&self) -> (layer: Option<u64>)
        ensures
            layer == kept_layer(self.editor.active_layer, &self.workspace),
    {
        keep_layer(self.editor.active_layer, &self.workspace)
    }

    /// Whether there is a project to edit and the view is one to edit in.
    pub fn editing_ready(&self) -> (yes: bool)
        ensures
            yes == (self.workspace.active() is Some && !self.editor.flags.fly_mode_enabled),
    {
        self.workspace.has_active_project() && !self.editor.flags.fly_mode_enabled
    }

    /// The presentation of one item, as the first half of a style command.
    pub fn item_style(&self, item: ItemRef) -> (style: Option<u64>)
        ensures
            style == self.items.style(item),
    {
        self.items.item_style(item)
    }

    /// The edit that gives an item another presentation. One that changes
    /// nothing is no edit, and neither is one of an item that is not there.
    pub fn set_item_style(&self, item: ItemRef, after: u64) -> (command: Option<Command>)
        ensures
            command == (match self.items.style(item) {
                Some(before) if before != after => Some(
                    Command::SetItemStyle { item, before, after },
                ),
                _ => None,
            }),
    {
        match self.item_style(item) {
            Some(before) => if before != after {
                Some(Command::SetItemStyle { item, before, after })
            } else {
                None
            },
            None => None,
        }
    }

    /// The edit that changes an item's presentation by `change`, so that several
    /// such edits can be one step.
    pub fn item_style_command<F: FnOnce(u64) -> u64>(&self, item: ItemRef, change: F) -> (command: Option<
        Command,
    >)
        requires
            forall|style: u64| #[trigger] change.requires((style,)),
        ensures
            match self.items.style(item) {
                Some(before) => exists|after: u64| #[trigger]
                    change.ensures((before,), after) && command == (if before != after {
                        Some(Command::SetItemStyle { item, before, after })
                    } else {
                        None
                    }),
                None => command is None,
            },
    {
        match self.item_style(item) {
            Some(before) => {
                let after: u64 = change(before);
                if before != after {
                    Some(Command::SetItemStyle { item, before, after })
                } else {
                    None
                }
            },
            None => None,
        }
    }

    /// The edit that takes an item out of the project, if it is there.
    pub fn delete_project_item(&self, item: ItemRef) -> (command: Option<Command>)
        ensures
            command == (if self.items.style(item) is Some {
                Some(Command::DeleteItem { item })
            } else {
                None
            }),
    {
        match self.item_style(item) {
            Some(_) => Some(Command::DeleteItem { item }),
            None => None,
        }
    }

    /// Some layer that the edit needs waits on disk.
    pub open spec fn layers_wait(&self, layers: Seq<u64>) -> bool {
        self.workspace.active() is Some && exists|i: int|
            0 <= i < layers.len() && self.workspace.active()->0.document.deferred_layers@.contains(
                #[trigger] layers[i],
            )
    }

    /// Some item that the edit needs waits on disk.
    pub open spec fn items_wait(&self, needed: Seq<ItemRef>) -> bool {
        exists|i: int| 0 <= i < needed.len() && self.items.deferred(#[trigger] needed[i])
    }

    /// How to go about an edit that needs these layers and items.
    pub fn execute_edit(&self, layers: &Vec<u64>, needed: &Vec<ItemRef>) -> (step: EditStep)
        ensures
            step == (if self.layers_wait(layers@) {
                EditStep::RestoreLayers
            } else if self.items_wait(needed@) {
                EditStep::RestoreItems
            } else if self.workspace.active() is None {
                EditStep::NoProject
            } else {
                EditStep::Apply { continuing: self.gesture_log.active }
            }),
    {
        if let Some(project) = self.workspace.active_project() {
            let mut i: usize = 0;
            while i < layers.len()
                invariant
                    i <= layers@.len(),
                    self.workspace.active() == Some(*project),
                    forall|j: int|
                        0 <= j < i ==> !project.document.deferred_layers@.contains(
                            #[trigger] layers@[j],
                        ),
                decreases layers.len() - i,
            {
                if holds_id(&project.document.deferred_layers, layers[i]) {
                    return EditStep::RestoreLayers;
                }
                i += 1;
            }
        }
        proof {
            assert(!self.layers_wait(layers@));
        }
        let mut i: usize = 0;
        while i < needed.len()
            invariant
                i <= needed@.len(),
                !self.layers_wait(layers@),
                forall|j: int| 0 <= j < i ==> !self.items.deferred(#[trigger] needed@[j]),
            decreases needed.len() - i,
        {
            if self.items.is_deferred(needed[i]) {
                return EditStep::RestoreItems;
            }
            i += 1;
        }
        if self.workspace.has_active_project() {
            EditStep::Apply { continuing: self.gesture_log.active }
        } else {
            EditStep::NoProject
        }
    }

    /// Has an edit applied that a background job made for the open project with
    /// this runtime id, and recorded as one step. `found` tells whether there is a
    /// project to edit.
    pub fn execute_edit_for(&mut self, runtime_id: u32, command: Command) -> (found: bool)
        ensures
            found == (old(self).workspace.active() is Some),
            final(self).outbox@ == (if found {
                old(self).outbox@.push(Effect::ExecuteEditFor { runtime_id, command })
            } else {
                old(self).outbox@
            }),
            *final(self) == (App { outbox: final(self).outbox, ..*old(self) }),
    {
        let found: bool = self.workspace.has_active_project();
        if found {
            self.outbox.push(Effect::ExecuteEditFor { runtime_id, command });
        }
        found
    }

    /// Has an edit recorded that is applied already, such as a drag that was
    /// committed when the pointer came up.
    pub fn record_applied_edit(&mut self, command: Command)
        ensures
            final(self).outbox@ == old(self).outbox@.push(
                Effect::RecordEdit {
                    epoch: match old(self).workspace.active() {
                        Some(project) => project.content_epoch,
                        None => 0,
                    },
                    command,
                },
            ),
            *final(self) == (App { outbox: final(self).outbox, ..*old(self) }),
    {
        let epoch: u64 = self.active_project_content_epoch();
        self.outbox.push(Effect::RecordEdit { epoch, command });
    }

    /// The pointer let go of a widget, or took hold of one: at the end of a
    /// gesture its edits are one step, and what it had to say is said.
    pub open spec fn gesture_turned(&self, active: bool, after: &App<P>) -> bool {
        let ended = self.gesture_log.active && !active;
        &&& after.gesture_log.active == active
        &&& after.gesture_log.reported@ == (if ended {
            Seq::<u64>::empty()
        } else {
            self.gesture_log.reported@
        })
        &&& after.gesture_log.deferred == (if ended {
            None
        } else {
            self.gesture_log.deferred
        })
        &&& after.outbox@ == self.outbox@ + (if ended {
            seq![Effect::EndHistoryInteraction] + (match self.gesture_log.deferred {
                Some(line) => seq![Effect::Log(line)],
                None => Seq::empty(),
            })
        } else {
            Seq::empty()
        })
        &&& *after == (App { gesture_log: after.gesture_log, outbox: after.outbox, ..*self })
    }

    /// The pointer let go of a widget, or took hold of one. What waited for the
    /// gesture's end is settled.
    pub fn set_ui_pointer_gesture_active(&mut self, active: bool)
        ensures
            old(self).gesture_turned(active, final(self)),
    {
        if self.gesture_log.active && !active {
            self.outbox.push(Effect::EndHistoryInteraction);
            self.gesture_log.reported = Vec::new();
            let deferred: Option<String> = self.gesture_log.deferred.take();
            if let Some(line) = deferred {
                self.outbox.push(Effect::Log(line));
            }
        }
        self.gesture_log.active = active;
        proof {
            let ended = old(self).gesture_log.active && !active;
            assert(self.outbox@ =~= old(self).outbox@ + (if ended {
                seq![Effect::EndHistoryInteraction] + (match old(self).gesture_log.deferred {
                    Some(line) => seq![Effect::Log(line)],
                    None => Seq::empty(),
                })
            } else {
                Seq::empty()
            }));
        }
    }

    /// The line is written, or while a gesture runs, is what the gesture will
    /// have to say.
    pub open spec fn line_logged(&self, line: String, after: &App<P>) -> bool {
        &&& after.gesture_log == (GestureLog {
            deferred: if self.gesture_log.active {
                Some(line)
            } else {
                self.gesture_log.deferred
            },
            ..self.gesture_log
        })
        &&& after.outbox@ == (if self.gesture_log.active {
            self.outbox@
        } else {
            self.outbox@.push(Effect::Log(line))
        })
        &&& *after == (App { gesture_log: after.gesture_log, outbox: after.outbox, ..*self })
    }

    /// Writes a line to the console, or while a gesture runs, keeps it as what
    /// the gesture will have to say. Only the value it settles on is worth a
    /// line.
    pub fn log_when_gesture_ends(&mut self, line: String)
        ensures
            old(self).line_logged(line, final(self)),
    {
        if self.gesture_log.active {
            self.gesture_log.deferred = Some(line);
        } else {
            self.outbox.push(Effect::Log(line));
        }
    }

    /// A command of this kind is reported or not, and during a gesture it is kept
    /// in mind that it was.
    pub open spec fn report_decided(&self, kind: u64, yes: bool, after: &App<P>) -> bool {
        &&& yes == (!self.gesture_log.active || !self.gesture_log.reported@.contains(kind))
        &&& after.gesture_log.reported@ == (if self.gesture_log.active && yes {
            self.gesture_log.reported@.push(kind)
        } else {
            self.gesture_log.reported@
        })
        &&& *after == (App {
            gesture_log: GestureLog { reported: after.gesture_log.reported, ..self.gesture_log },
            ..*self
        })
    }

    /// Whether a command of this kind is worth a console report. A gesture
    /// reports each kind once.
    pub fn should_report_to_console(&mut self, kind: u64) -> (yes: bool)
        ensures
            old(self).report_decided(kind, yes, final(self)),
    {
        if !self.gesture_log.active {
            return true;
        }
        if holds_id(&self.gesture_log.reported, kind) {
            return false;
        }
        self.gesture_log.reported.push(kind);
        true
    }

    /// Counts the changes to the active project's content; zero without one.
    pub fn active_project_content_epoch(&self) -> (epoch: u64)
        ensures
            epoch == (match self.workspace.active() {
                Some(project) => project.content_epoch,
                None => 0,
            }),
    {
        match self.workspace.active_project() {
            Some(project) => project.content_epoch,
            None => 0,
        }
    }

    /// One more change to the active project's content.
    pub open spec fn content_touched(&self, after: &App<P>) -> bool {
        &&& after.workspace.active_index == self.workspace.active_index
        &&& after.workspace.next_runtime_id == self.workspace.next_runtime_id
        &&& after.workspace.projects@ == (match self.workspace.active() {
            Some(project) => self.workspace.projects@.update(
                self.workspace.active_index->0 as int,
                OpenProject {
                    unsaved: true,
                    content_epoch: project.content_epoch.wrapping_add(1),
                    ..project
                },
            ),
            None => self.workspace.projects@,
        })
        &&& *after == (App { workspace: after.workspace, ..*self })
    }

    /// Counts a change to the active project's content.
    pub fn touch_active_project_content(&mut self)
        ensures
            old(self).content_touched(final(self)),
    {
        if let Some(i) = self.workspace.active_index {
            if i < self.workspace.projects.len() {
                let epoch: u64 = self.workspace.projects[i].content_epoch.wrapping_add(1);
                self.workspace.projects[i].content_epoch = epoch;
                self.workspace.projects[i].unsaved = true;
            }
        }
        proof {
            if let Some(project) = old(self).workspace.active() {
                assert(self.workspace.projects@ =~= old(self).workspace.projects@.update(
                    old(self).workspace.active_index->0 as int,
                    OpenProject {
                        unsaved: true,
                        content_epoch: project.content_epoch.wrapping_add(1),
                        ..project
                    },
                ));
            }
        }
    }

    /// The open project with this runtime id has unsaved work: in its document,
    /// in an item, or in which items there are.
    pub open spec fn content_dirty(&self, runtime_id: u32) -> bool {
        &&& self.workspace.active() is Some
        &&& self.workspace.active()->0.runtime_id == runtime_id
        &&& self.workspace.active()->0.unsaved || self.items.item_dirty()
            || !self.items.membership_saved()
    }

    /// Whether the open project with this runtime id has unsaved work. Asking
    /// about the project as a whole is what keeps the title, the close prompt
    /// and the save command from overlooking an item.
    pub fn project_content_is_dirty(&self, runtime_id: u32) -> (yes: bool)
        ensures
            yes == self.content_dirty(runtime_id),
    {
        match self.workspace.active_project() {
            Some(project) => project.runtime_id == runtime_id && (project.unsaved
                || self.items.has_unsaved_items()),
            None => false,
        }
    }

    /// `token` is what a save started now holds: the active project's folders,
    /// none without a project, and all items.
    pub open spec fn saved_by(&self, token: &SaveToken) -> bool {
        &&& token.triangulations@ == epochs(self.items.triangulations@)
        &&& token.block_models@ == epochs(self.items.block_models@)
        &&& token.drill_holes@ == epochs(self.items.drill_holes@)
        &&& token.point_clouds@ == epochs(self.items.point_clouds@)
        &&& token.rasters@ == epochs(self.items.rasters@)
        &&& match self.workspace.active() {
            Some(project) => token.folders.same(&project.folders),
            None => forall|section: SectionKind| #[trigger]
                token.folders.section_names(section) == Seq::<Seq<char>>::empty(),
        }
    }

    /// What a save started now holds.
    pub fn project_asset_save_token(&self) -> (token: SaveToken)
        ensures
            self.saved_by(&token),
    {
        match self.workspace.active_project() {
            Some(project) => self.items.save_token(&project.folders),
            None => {
                let folders: Folders = Folders::new();
                self.items.save_token(&folders)
            },
        }
    }

    /// Everything counts as saved.
    pub open spec fn all_marked_saved(&self, after: &App<P>) -> bool {
        &&& saved_items(self.items.triangulations@, after.items.triangulations@)
        &&& saved_items(self.items.block_models@, after.items.block_models@)
        &&& saved_items(self.items.drill_holes@, after.items.drill_holes@)
        &&& saved_items(self.items.point_clouds@, after.items.point_clouds@)
        &&& saved_items(self.items.rasters@, after.items.rasters@)
        &&& after.items.same_but_saves(&self.items)
        &&& after.saved_by(&after.items.baseline)
        &&& after.workspace.active_index == self.workspace.active_index
        &&& after.workspace.next_runtime_id == self.workspace.next_runtime_id
        &&& match self.workspace.active() {
            Some(project) => {
                let i = self.workspace.active_index->0 as int;
                &&& after.workspace.projects@.len() == self.workspace.projects@.len()
                &&& project.as_saved(after.workspace.projects@[i])
                &&& after.workspace.projects@ == self.workspace.projects@.update(
                    i,
                    after.workspace.projects@[i],
                )
            },
            None => after.workspace.projects@ == self.workspace.projects@,
        }
        &&& *after == (App { workspace: after.workspace, items: after.items, ..*self })
    }

    /// Counts the open project and all its items as saved.
    pub fn mark_all_project_content_saved(&mut self)
        ensures
            old(self).all_marked_saved(final(self)),
    {
        let mut active: bool = false;
        if let Some(i) = self.workspace.active_index {
            if i < self.workspace.projects.len() {
                active = true;
                self.workspace.projects[i].mark_saved();
                self.items.mark_all_saved(&self.workspace.projects[i].folders);
            }
        }
        if !active {
            let folders: Folders = Folders::new();
            self.items.mark_all_saved(&folders);
        }
        proof {
            if let Some(project) = old(self).workspace.active() {
                let i = old(self).workspace.active_index->0 as int;
                assert(self.workspace.projects@ =~= old(self).workspace.projects@.update(
                    i,
                    self.workspace.projects@[i],
                ));
            }
        }
    }
}

/// After the sweep, the editor refers to nothing that the project does not hold.
pub proof fn nothing_missing_is_referenced<P>(before: &App<P>, after: &App<P>, entity: SceneEntityId)
    requires
        before.references_dropped(after),
        after.editor.selected_handles@.contains(entity) || after.editor.hidden_handles@.contains(
            entity,
        ) || after.editor.explicitly_frozen@.contains(entity)
            || after.editor.frozen_handles@.contains(entity)
            || after.editor.translucent_handles@.contains(entity),
    ensures
        entity_exists(entity, &after.workspace, &after.items),
{
}

/// After the sweep, what is active or selected in drill holes is held, and so
/// are the active layer and the active triangulation.
pub proof fn nothing_missing_is_active<P>(before: &App<P>, after: &App<P>)
    requires
        before.references_dropped(after),
    ensures
        after.editor.active_layer is Some ==> {
            &&& after.workspace.active() is Some
            &&& after.workspace.active()->0.document.layer_is_loaded(after.editor.active_layer->0)
        },
        after.items.active_triangulation is Some ==> holds(
            after.items.triangulations@,
            after.items.active_triangulation->0,
        ),
        after.editor.active_drill_hole is Some ==> holds(
            after.items.drill_holes@,
            after.editor.active_drill_hole->0,
        ),
        after.editor.tie_anchor is Some ==> holds(
            after.items.drill_holes@,
            after.editor.tie_anchor->0.dataset,
        ),
        after.editor.initiation_dialog is Some ==> holds(
            after.items.drill_holes@,
            after.editor.initiation_dialog->0.dataset,
        ),
        forall|i: int|
            0 <= i < after.editor.selected_drill_holes@.len() ==> holds(
                after.items.drill_holes@,
                (#[trigger] after.editor.selected_drill_holes@[i]).dataset,
            ),
        forall|i: int|
            0 <= i < after.editor.selected_tie_ins@.len() ==> holds(
                after.items.drill_holes@,
                (#[trigger] after.editor.selected_tie_ins@[i]).dataset,
            ),
{
    let keep = |part: DatasetPart| holds(before.items.drill_holes@, part.dataset);
    assert forall|i: int| 0 <= i < after.editor.selected_drill_holes@.len() implies holds(
        after.items.drill_holes@,
        (#[trigger] after.editor.selected_drill_holes@[i]).dataset,
    ) by {
        before.editor.selected_drill_holes@.lemma_filter_pred(keep, i);
    }
    assert forall|i: int| 0 <= i < after.editor.selected_tie_ins@.len() implies holds(
        after.items.drill_holes@,
        (#[trigger] after.editor.selected_tie_ins@[i]).dataset,
    ) by {
        before.editor.selected_tie_ins@.lemma_filter_pred(keep, i);
    }
}

/// The sweep takes nothing that the project holds: a handle stays in each set
/// it was in.
pub proof fn held_references_stay<P>(before: &App<P>, after: &App<P>, entity: SceneEntityId)
    requires
        before.references_dropped(after),
        entity_exists(entity, &before.workspace, &before.items),
    ensures
        after.editor.selected_handles@.contains(entity)
            == before.editor.selected_handles@.contains(entity),
        after.editor.hidden_handles@.contains(entity) == before.editor.hidden_handles@.contains(
            entity,
        ),
        after.editor.explicitly_frozen@.contains(entity)
            == before.editor.explicitly_frozen@.contains(entity),
        after.editor.frozen_handles@.contains(entity) == before.editor.frozen_handles@.contains(
            entity,
        ),
        after.editor.translucent_handles@.contains(entity)
            == before.editor.translucent_handles@.contains(entity),
{
}

/// A second sweep finds nothing to drop.
pub proof fn a_second_sweep_changes_nothing<P>(before: &App<P>, once: &App<P>, twice: &App<P>)
    requires
        before.references_dropped(once),
        once.references_dropped(twice),
    ensures
        twice.editor.active_layer == once.editor.active_layer,
        twice.editor.selected_handles@ == once.editor.selected_handles@,
        twice.editor.hidden_handles@ == once.editor.hidden_handles@,
        twice.editor.explicitly_frozen@ == once.editor.explicitly_frozen@,
        twice.editor.frozen_handles@ == once.editor.frozen_handles@,
        twice.editor.translucent_handles@ == once.editor.translucent_handles@,
        twice.editor.active_drill_hole == once.editor.active_drill_hole,
        twice.editor.tie_anchor == once.editor.tie_anchor,
        twice.editor.selected_drill_holes@ == once.editor.selected_drill_holes@,
        twice.editor.selected_tie_ins@ == once.editor.selected_tie_ins@,
        twice.editor.initiation_dialog == once.editor.initiation_dialog,
        twice.editor.same_but_references(&once.editor),
        twice.items == once.items,
        twice.outbox@ == once.outbox@,
        *twice == (App { editor: twice.editor, outbox: twice.outbox, ..*once }),
{
    let workspace = &before.workspace;
    let datasets = before.items.drill_holes@;
    let keep = |part: DatasetPart| holds(datasets, part.dataset);
    lemma_swept_handles(before.editor.selected_handles@, workspace, &before.items, &once.items);
    lemma_swept_handles(before.editor.hidden_handles@, workspace, &before.items, &once.items);
    lemma_swept_handles(before.editor.explicitly_frozen@, workspace, &before.items, &once.items);
    lemma_swept_handles(before.editor.frozen_handles@, workspace, &before.items, &once.items);
    lemma_swept_handles(before.editor.translucent_handles@, workspace, &before.items, &once.items);
    lemma_filtered_twice(before.editor.selected_drill_holes@, keep);
    lemma_filtered_twice(before.editor.selected_tie_ins@, keep);
    assert(twice.outbox@ =~= once.outbox@);
}

proof fn lemma_swept_handles(
    handles: Set<SceneEntityId>,
    workspace: &ProjectStore,
    items: &ProjectItems,
    swept: &ProjectItems,
)
    requires
        *swept == (ProjectItems { active_triangulation: swept.active_triangulation, ..*items }),
    ensures
        existing(existing(handles, workspace, items), workspace, swept) == existing(
            handles,
            workspace,
            items,
        ),
{
    assert(existing(existing(handles, workspace, items), workspace, swept) =~= existing(
        handles,
        workspace,
        items,
    ));
}

proof fn lemma_filtered_twice<A>(list: Seq<A>, keep: spec_fn(A) -> bool)
    ensures
        list.filter(keep).filter(keep) == list.filter(keep),
    decreases list.len(),
{
    reveal(Seq::filter);
    if list.len() > 0 {
        lemma_filtered_twice(list.drop_last(), keep);
        let kept = list.drop_last().filter(keep);
        if keep(list.last()) {
            assert(kept.push(list.last()).drop_last() =~= kept);
        }
    }
}

/// Once everything is marked as saved, no project has unsaved work.
pub proof fn saved_content_is_clean<P>(before: &App<P>, after: &App<P>, runtime_id: u32)
    requires
        before.all_marked_saved(after),
    ensures
        !after.content_dirty(runtime_id),
{
    match after.workspace.active() {
        Some(project) => {
            saving_everything_leaves_nothing_dirty(&before.items, &project.folders, &after.items);
        },
        None => {},
    }
}

/// A change to the open project's content is unsaved work, even in a project
/// that was saved a moment before.
pub proof fn touched_content_is_unsaved_work<P>(
    before: &App<P>,
    saved: &App<P>,
    after: &App<P>,
)
    requires
        before.all_marked_saved(saved),
        saved.content_touched(after),
        before.workspace.active() is Some,
    ensures
        after.content_dirty(before.workspace.active()->0.runtime_id),
{
}

/// No item is overlooked: one that changed since it was saved, of whatever kind,
/// is unsaved work of the open project.
pub proof fn no_changed_item_is_overlooked<P>(app: &App<P>, i: int)
    requires
        app.workspace.active() is Some,
        ({
            ||| 0 <= i < app.items.triangulations@.len()
                && app.items.triangulations@[i].state.dirty()
            ||| 0 <= i < app.items.block_models@.len() && app.items.block_models@[i].state.dirty()
            ||| 0 <= i < app.items.drill_holes@.len() && app.items.drill_holes@[i].state.dirty()
            ||| 0 <= i < app.items.point_clouds@.len() && app.items.point_clouds@[i].state.dirty()
            ||| 0 <= i < app.items.rasters@.len() && app.items.rasters@[i].state.dirty()
        }),
    ensures
        app.content_dirty(app.workspace.active()->0.runtime_id),
{
}

/// An item that was added since the last save is unsaved work of the open
/// project, though it is itself as it was read.
pub proof fn no_added_item_is_overlooked<P>(app: &App<P>, item: ItemRef)
    requires
        app.workspace.active() is Some,
        app.items.style(item) is Some,
        match item {
            ItemRef::Triangulation(id) => !saved_holds(app.items.baseline.triangulations@, id),
            ItemRef::BlockModel(id) => !saved_holds(app.items.baseline.block_models@, id),
            ItemRef::DrillHole(id) => !saved_holds(app.items.baseline.drill_holes@, id),
            ItemRef::PointCloud(id) => !saved_holds(app.items.baseline.point_clouds@, id),
            ItemRef::Raster(id) => !saved_holds(app.items.baseline.rasters@, id),
        },
    ensures
        app.content_dirty(app.workspace.active()->0.runtime_id),
{
    match item {
        ItemRef::Triangulation(id) => lemma_added(app.items.triangulations@, id),
        ItemRef::BlockModel(id) => lemma_added(app.items.block_models@, id),
        ItemRef::DrillHole(id) => lemma_added(app.items.drill_holes@, id),
        ItemRef::PointCloud(id) => lemma_added(app.items.point_clouds@, id),
        ItemRef::Raster(id) => lemma_added(app.items.rasters@, id),
    }
}

/// An item that was taken away since the last save is unsaved work of the open
/// project.
pub proof fn no_removed_item_is_overlooked<P>(app: &App<P>, item: ItemRef)
    requires
        app.workspace.active() is Some,
        app.items.style(item) is None,
        match item {
            ItemRef::Triangulation(id) => saved_holds(app.items.baseline.triangulations@, id)
                && distinct_ids(app.items.triangulations@),
            ItemRef::BlockModel(id) => saved_holds(app.items.baseline.block_models@, id)
                && distinct_ids(app.items.block_models@),
            ItemRef::DrillHole(id) => saved_holds(app.items.baseline.drill_holes@, id)
                && distinct_ids(app.items.drill_holes@),
            ItemRef::PointCloud(id) => saved_holds(app.items.baseline.point_clouds@, id)
                && distinct_ids(app.items.point_clouds@),
            ItemRef::Raster(id) => saved_holds(app.items.baseline.rasters@, id) && distinct_ids(
                app.items.rasters@,
            ),
        },
    ensures
        app.content_dirty(app.workspace.active()->0.runtime_id),
{
    let saved = &app.items.baseline;
    match item {
        ItemRef::Triangulation(id) => lemma_removed(
            app.items.triangulations@,
            saved.triangulations@,
            id,
        ),
        ItemRef::BlockModel(id) => lemma_removed(app.items.block_models@, saved.block_models@, id),
        ItemRef::DrillHole(id) => lemma_removed(app.items.drill_holes@, saved.drill_holes@, id),
        ItemRef::PointCloud(id) => lemma_removed(app.items.point_clouds@, saved.point_clouds@, id),
        ItemRef::Raster(id) => lemma_removed(app.items.rasters@, saved.rasters@, id),
    }
}

/// Taking an item away right after a save makes the open project dirty.
pub proof fn removing_an_item_is_unsaved_work<P>(
    before: &App<P>,
    saved: &App<P>,
    after: &App<P>,
    item: ItemRef,
)
    requires
        before.all_marked_saved(saved),
        saved.items.style(item) is Some,
        after.items.style(item) is None,
        after.items.baseline == saved.items.baseline,
        after.workspace.active() is Some,
        match item {
            ItemRef::Triangulation(_) => distinct_ids(after.items.triangulations@),
            ItemRef::BlockModel(_) => distinct_ids(after.items.block_models@),
            ItemRef::DrillHole(_) => distinct_ids(after.items.drill_holes@),
            ItemRef::PointCloud(_) => distinct_ids(after.items.point_clouds@),
            ItemRef::Raster(_) => distinct_ids(after.items.rasters@),
        },
    ensures
        after.content_dirty(after.workspace.active()->0.runtime_id),
{
    match item {
        ItemRef::Triangulation(id) => lemma_saved(saved.items.triangulations@, id),
        ItemRef::BlockModel(id) => lemma_saved(saved.items.block_models@, id),
        ItemRef::DrillHole(id) => lemma_saved(saved.items.drill_holes@, id),
        ItemRef::PointCloud(id) => lemma_saved(saved.items.point_clouds@, id),
        ItemRef::Raster(id) => lemma_saved(saved.items.rasters@, id),
    }
    no_removed_item_is_overlooked(after, item);
}

proof fn lemma_saved<D>(items: Seq<OpenItem<D>>, id: u64)
    requires
        first_item(items, id) is Some,
    ensures
        saved_holds(epochs(items), id),
{
    lemma_added(items, id);
    let i = choose|i: int| 0 <= i < ids(items).len() && #[trigger] ids(items)[i] == id;
    assert(epochs(items)[i].0 == id);
}

proof fn lemma_absent<D>(items: Seq<OpenItem<D>>, id: u64)
    requires
        first_item(items, id) is None,
    ensures
        forall|i: int| 0 <= i < items.len() ==> (#[trigger] items[i]).id != id,
    decreases items.len(),
{
    if items.len() > 0 {
        let rest = items.drop_first();
        lemma_absent(rest, id);
        assert forall|i: int| 0 <= i < items.len() implies (#[trigger] items[i]).id != id by {
            if i > 0 {
                assert(rest[i - 1] == items[i]);
            }
        }
    }
}

/// Items that all were saved, and are as many as were saved, lack none of them.
proof fn lemma_removed<D>(items: Seq<OpenItem<D>>, saved: Seq<(u64, u64)>, id: u64)
    requires
        distinct_ids(items),
        first_item(items, id) is None,
        saved_holds(saved, id),
    ensures
        !same_membership(ids(items), saved),
{
    if same_membership(ids(items), saved) {
        let current = ids(items);
        let names = saved.map_values(|entry: (u64, u64)| entry.0);
        lemma_absent(items, id);
        assert(current.no_duplicates()) by {
            assert forall|i: int, j: int|
                0 <= i < current.len() && 0 <= j < current.len() && i != j implies current[i]
                != current[j] by {
                if i < j {
                    assert(items[i].id != items[j].id);
                } else {
                    assert(items[j].id != items[i].id);
                }
            }
        }
        current.unique_seq_to_set();
        names.lemma_cardinality_of_set();
        let all = current.to_set().insert(id);
        assert(!current.to_set().contains(id)) by {
            if current.contains(id) {
                let i = choose|i: int| 0 <= i < current.len() && current[i] == id;
                assert(items[i].id == id);
            }
        }
        assert forall|x: u64| all.contains(x) implies names.to_set().contains(x) by {
            assert(saved_holds(saved, x)) by {
                if x != id {
                    let i = choose|i: int| 0 <= i < current.len() && current[i] == x;
                    assert(saved_holds(saved, current[i]));
                }
            }
            let k = choose|k: int| 0 <= k < saved.len() && (#[trigger] saved[k]).0 == x;
            assert(names[k] == x);
        }
        vstd::set_lib::lemma_len_subset(all, names.to_set());
    }
}

proof fn lemma_added<D>(items: Seq<OpenItem<D>>, id: u64)
    requires
        first_item(items, id) is Some,
    ensures
        exists|i: int| 0 <= i < ids(items).len() && #[trigger] ids(items)[i] == id,
    decreases items.len(),
{
    if items[0].id == id {
        assert(ids(items)[0] == id);
    } else {
        let rest = items.drop_first();
        lemma_added(rest, id);
        let i = choose|i: int| 0 <= i < ids(rest).len() && #[trigger] ids(rest)[i] == id;
        assert(rest[i] == items[i + 1]);
        assert(ids(items)[i + 1] == id);
    }
}

/// A gesture writes one line: the last of those it had to say.
pub proof fn a_gesture_logs_what_it_settled_on<P>(
    begun: &App<P>,
    first: String,
    once: &App<P>,
    second: String,
    twice: &App<P>,
    ended: &App<P>,
)
    requires
        begun.gesture_log.active,
        begun.line_logged(first, once),
        once.line_logged(second, twice),
        twice.gesture_turned(false, ended),
    ensures
        ended.outbox@ == begun.outbox@ + seq![Effect::EndHistoryInteraction, Effect::Log(second)],
        ended.gesture_log.deferred is None,
{
    assert(seq![Effect::EndHistoryInteraction] + seq![Effect::Log(second)] =~= seq![
        Effect::EndHistoryInteraction,
        Effect::Log(second),
    ]);
}

/// A gesture reports each kind of command once.
pub proof fn a_gesture_reports_each_kind_once<P>(
    before: &App<P>,
    kind: u64,
    yes: bool,
    once: &App<P>,
    again: bool,
    twice: &App<P>,
)
    requires
        before.gesture_log.active,
        before.report_decided(kind, yes, once),
        once.report_decided(kind, again, twice),
    ensures
        !again,
        twice.gesture_log.reported@ == once.gesture_log.reported@,
{
    if yes {
        assert(once.gesture_log.reported@.last() == kind);
    }
}

/// The next gesture reports anew what the last one reported.
pub proof fn the_next_gesture_reports_anew<P>(
    before: &App<P>,
    ended: &App<P>,
    begun: &App<P>,
    kind: u64,
    yes: bool,
    after: &App<P>,
)
    requires
        before.gesture_log.active,
        before.gesture_turned(false, ended),
        ended.gesture_turned(true, begun),
        begun.report_decided(kind, yes, after),
    ensures
        yes,
{
}

} // verus!
