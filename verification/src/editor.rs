//! The editor's state: what is selected, hidden and frozen, and the settings in
//! force.
use crate::config::{CoordinateSystem, Preferences};
use crate::hashing::{word, write_word};
use crate::items::ProjectItems;
use crate::language::LanguageChoice;
use crate::model::{find_item, holds, OpenItem, SceneEntityId};
use crate::project::{Document, ObjectRow, ProjectStore};
use crate::sets::{lemma_fresh, lemma_take_set, UniqueList};
use std::collections::hash_map::DefaultHasher;
use std::hash::Hasher;
use vstd::prelude::*;
use vstd::std_specs::hash::DefaultHasherAdditionalSpecFns;

verus! {

/// A part of a drill hole dataset: a hole, or a tie between two.
#[derive(Debug, Clone, Copy, PartialEq, Eq, Structural)]
pub struct DatasetPart {
    pub dataset: u64,
    pub part: u64,
}

/// Panels and modes that are on or off.
#[derive(Debug, Clone, Copy, PartialEq, Eq, Structural)]
pub struct EditorFlags {
    pub show_import: bool,
    pub show_export: bool,
    pub show_about: bool,
    pub fly_mode_enabled: bool,
    pub text_editing_enabled: bool,
    /// A move is previewed and not yet committed.
    pub pending_move_delta: bool,
    pub slice_preview_detached: bool,
    /// The pointer shows that work is going on.
    pub background_busy: bool,
    pub rotate_preview_active: bool,
    pub replace_project_confirm_open: bool,
    pub lossy_save_confirm_open: bool,
}

/// The editor's state.
pub struct EditorState {
    pub selected_handles: UniqueList<SceneEntityId>,
    pub hidden_handles: UniqueList<SceneEntityId>,
    /// Frozen by name.
    pub explicitly_frozen: UniqueList<SceneEntityId>,
    /// Frozen by name or by a lock on their layer.
    pub frozen_handles: UniqueList<SceneEntityId>,
    pub translucent_handles: UniqueList<SceneEntityId>,
    pub locked_layers: UniqueList<u64>,
    pub active_layer: Option<u64>,
    pub active_drill_hole: Option<u64>,
    pub tie_anchor: Option<DatasetPart>,
    pub selected_drill_holes: Vec<DatasetPart>,
    pub selected_tie_ins: Vec<DatasetPart>,
    /// The hole that the initiation dialog is open for.
    pub initiation_dialog: Option<DatasetPart>,
    pub active_tool: u64,
    pub gizmo_drag_axis_index: Option<usize>,
    pub gizmo_drag_plane_index: Option<usize>,
    pub rotate_gizmo_drag_ring: Option<u8>,
    pub pending_close_project: Option<u32>,
    pub flags: EditorFlags,
    pub preferences: Preferences,
    pub language: LanguageChoice,
    pub workspace_order: Vec<u8>,
    pub active_workspace: Option<u8>,
    pub coordinate_systems: Vec<CoordinateSystem>,
    pub local_system: Option<String>,
    pub delay_products: Vec<u64>,
    pub next_delay_product_id: u64,
    pub active_delay_product: Option<u64>,
}

/// The entity is part of the project: an object on a loaded layer, or an item.
pub open spec fn entity_exists(
    entity: SceneEntityId,
    workspace: &ProjectStore,
    items: &ProjectItems,
) -> bool {
    match entity {
        SceneEntityId::Object(id) => workspace.active() is Some
            && workspace.active()->0.document.object_is_loaded(id),
        _ => items.holds_entity(entity),
    }
}

/// Whether the entity is part of the project.
pub fn has_entity(entity: SceneEntityId, workspace: &ProjectStore, items: &ProjectItems) -> (yes:
    bool)
    ensures
        yes == entity_exists(entity, workspace, items),
{
    match entity {
        SceneEntityId::Object(id) => match workspace.active_project() {
            Some(project) => project.document.has_loaded_object(id),
            None => false,
        },
        _ => items.has_entity(entity),
    }
}

/// What is left of `handles` without entities that are not part of the project.
pub open spec fn existing(
    handles: Set<SceneEntityId>,
    workspace: &ProjectStore,
    items: &ProjectItems,
) -> Set<SceneEntityId> {
    handles.filter(|entity: SceneEntityId| entity_exists(entity, workspace, items))
}

/// `handles` without entities that are not part of the project.
pub fn keep_existing(
    handles: &UniqueList<SceneEntityId>,
    workspace: &ProjectStore,
    items: &ProjectItems,
) -> (kept: UniqueList<SceneEntityId>)
    ensures
        kept@ == existing(handles@, workspace, items),
{
    let count: usize = handles.len();
    let mut kept: UniqueList<SceneEntityId> = UniqueList::new();
    let mut i: usize = 0;
    proof {
        assert(kept@ =~= existing(handles.listed().take(0).to_set(), workspace, items));
    }
    while i < count
        invariant
            i <= count == handles.listed().len(),
            handles.listed().no_duplicates(),
            kept@ == existing(handles.listed().take(i as int).to_set(), workspace, items),
        decreases count - i,
    {
        let entity: SceneEntityId = handles.get(i);
        proof {
            lemma_take_set(handles.listed(), i as int);
            lemma_fresh(handles.listed(), i as int);
        }
        if has_entity(entity, workspace, items) {
            kept.add_new(entity);
        }
        proof {
            assert(kept@ =~= existing(
                handles.listed().take(i + 1).to_set(),
                workspace,
                items,
            ));
        }
        i += 1;
    }
    proof {
        assert(handles.listed().take(i as int) =~= handles.listed());
    }
    kept
}

/// The handles that are no objects, and those objects that `frozen` holds.
pub open spec fn without_objects(handles: Set<SceneEntityId>, frozen: Set<SceneEntityId>) -> Set<
    SceneEntityId,
> {
    handles.filter(|entity: SceneEntityId| !(entity is Object) || frozen.contains(entity))
}

/// The handles that are no objects, and those objects that `frozen` holds.
pub fn drop_objects(
    handles: &UniqueList<SceneEntityId>,
    frozen: &UniqueList<SceneEntityId>,
) -> (kept: UniqueList<SceneEntityId>)
    ensures
        kept@ == without_objects(handles@, frozen@),
{
    let count: usize = handles.len();
    let mut kept: UniqueList<SceneEntityId> = UniqueList::new();
    let mut i: usize = 0;
    proof {
        assert(kept@ =~= without_objects(handles.listed().take(0).to_set(), frozen@));
    }
    while i < count
        invariant
            i <= count == handles.listed().len(),
            handles.listed().no_duplicates(),
            kept@ == without_objects(handles.listed().take(i as int).to_set(), frozen@),
        decreases count - i,
    {
        let entity: SceneEntityId = handles.get(i);
        proof {
            lemma_take_set(handles.listed(), i as int);
            lemma_fresh(handles.listed(), i as int);
        }
        let keep: bool = match entity {
            SceneEntityId::Object(_) => frozen.contains(entity),
            _ => true,
        };
        if keep {
            kept.add_new(entity);
        }
        proof {
            assert(kept@ =~= without_objects(handles.listed().take(i + 1).to_set(), frozen@));
        }
        i += 1;
    }
    proof {
        assert(handles.listed().take(i as int) =~= handles.listed());
    }
    kept
}

/// The handles of the objects with these ids.
pub open spec fn object_handles(ids: Seq<u64>) -> Set<SceneEntityId> {
    Set::new(|entity: SceneEntityId| entity is Object && ids.contains(entity->Object_0))
}

/// The parts whose dataset the project holds, in order.
pub open spec fn parts_of_held<D>(parts: Seq<DatasetPart>, datasets: Seq<OpenItem<D>>) -> Seq<
    DatasetPart,
> {
    parts.filter(|part: DatasetPart| holds(datasets, part.dataset))
}

/// The parts whose dataset the project holds, in order.
pub fn keep_parts<D>(parts: &Vec<DatasetPart>, datasets: &Vec<OpenItem<D>>) -> (kept: Vec<
    DatasetPart,
>)
    ensures
        kept@ == parts_of_held(parts@, datasets@),
{
    let ghost keep = |part: DatasetPart| holds(datasets@, part.dataset);
    let mut kept: Vec<DatasetPart> = Vec::new();
    let mut i: usize = 0;
    proof {
        reveal(Seq::filter);
    }
    while i < parts.len()
        invariant
            i <= parts@.len(),
            keep == (|part: DatasetPart| holds(datasets@, part.dataset)),
            kept@ == parts@.take(i as int).filter(keep),
        decreases parts.len() - i,
    {
        proof {
            reveal(Seq::filter);
            assert(parts@.take(i + 1).drop_last() =~= parts@.take(i as int));
        }
        if find_item(datasets, parts[i].dataset).is_some() {
            kept.push(parts[i]);
        }
        i += 1;
    }
    proof {
        assert(parts@.take(i as int) =~= parts@);
    }
    kept
}

/// The layer, if the active project has it and it is loaded.
pub open spec fn kept_layer(layer: Option<u64>, workspace: &ProjectStore) -> Option<u64> {
    match layer {
        Some(id) if workspace.active() is Some && workspace.active()->0.document.layer_is_loaded(
            id,
        ) => Some(id),
        _ => None,
    }
}

/// The layer, if the active project has it and it is loaded.
pub fn keep_layer(layer: Option<u64>, workspace: &ProjectStore) -> (kept: Option<u64>)
    ensures
        kept == kept_layer(layer, workspace),
{
    match layer {
        Some(id) => match workspace.active_project() {
            Some(project) => if project.document.has_loaded_layer(id) {
                Some(id)
            } else {
                None
            },
            None => None,
        },
        None => None,
    }
}

/// The id, if an item has it.
pub open spec fn kept_id<D>(id: Option<u64>, items: Seq<OpenItem<D>>) -> Option<u64> {
    match id {
        Some(i) if holds(items, i) => Some(i),
        _ => None,
    }
}

/// The id, if an item has it.
pub fn keep_id<D>(id: Option<u64>, items: &Vec<OpenItem<D>>) -> (kept: Option<u64>)
    ensures
        kept == kept_id(id, items@),
{
    match id {
        Some(i) => if find_item(items, i).is_some() {
            Some(i)
        } else {
            None
        },
        None => None,
    }
}

/// The part, if the project holds its dataset.
pub open spec fn kept_part<D>(part: Option<DatasetPart>, datasets: Seq<OpenItem<D>>) -> Option<
    DatasetPart,
> {
    match part {
        Some(p) if holds(datasets, p.dataset) => Some(p),
        _ => None,
    }
}

/// The part, if the project holds its dataset.
pub fn keep_part<D>(part: Option<DatasetPart>, datasets: &Vec<OpenItem<D>>) -> (kept: Option<
    DatasetPart,
>)
    ensures
        kept == kept_part(part, datasets@),
{
    match part {
        Some(p) => if find_item(datasets, p.dataset).is_some() {
            Some(p)
        } else {
            None
        },
        None => None,
    }
}

/// The hash of one layer's id.
pub open spec fn layer_hash(layer: u64) -> u64 {
    DefaultHasher::spec_finish(seq![word(layer)])
}

/// A fingerprint of a set of layers: their number and their hashes together.
pub open spec fn layers_key(layers: Seq<u64>) -> u64
    decreases layers.len(),
{
    if layers.len() == 0 {
        0
    } else {
        layers_key(layers.drop_last()) ^ layer_hash(layers.last())
    }
}

/// The fingerprint of the locked layers.
pub open spec fn locked_key(layers: Seq<u64>) -> u64 {
    (layers.len() as u64) ^ layers_key(layers)
}

/// The fingerprint of the locked layers.
pub fn fingerprint_layers(layers: &UniqueList<u64>) -> (key: u64)
    ensures
        key == locked_key(layers.listed()),
{
    let count: usize = layers.len();
    let mut key: u64 = 0;
    let mut i: usize = 0;
    while i < count
        invariant
            i <= count == layers.listed().len(),
            key == layers_key(layers.listed().take(i as int)),
        decreases count - i,
    {
        let mut hasher: DefaultHasher = DefaultHasher::new();
        write_word(&mut hasher, layers.get(i));
        proof {
            assert(layers.listed().take(i + 1).drop_last() =~= layers.listed().take(i as int));
            assert(hasher@ =~= seq![word(layers.listed()[i as int])]);
        }
        key = key ^ hasher.finish();
        i += 1;
    }
    proof {
        assert(layers.listed().take(i as int) =~= layers.listed());
    }
    (count as u64) ^ key
}

/// The handles of the objects that stand on one of the layers.
pub open spec fn objects_on(objects: Seq<ObjectRow>, layers: Set<u64>) -> Set<SceneEntityId> {
    Set::new(
        |entity: SceneEntityId|
            entity is Object && exists|i: int|
                0 <= i < objects.len() && (#[trigger] objects[i]).id == entity->Object_0
                    && layers.contains(objects[i].layer),
    )
}

impl EditorState {
    /// Nothing selected, hidden, frozen or open.
    pub open spec fn is_blank(&self) -> bool {
        &&& self.selected_handles@ == Set::<SceneEntityId>::empty()
        &&& self.hidden_handles@ == Set::<SceneEntityId>::empty()
        &&& self.explicitly_frozen@ == Set::<SceneEntityId>::empty()
        &&& self.frozen_handles@ == Set::<SceneEntityId>::empty()
        &&& self.translucent_handles@ == Set::<SceneEntityId>::empty()
        &&& self.locked_layers@ == Set::<u64>::empty()
        &&& self.active_layer is None
        &&& self.active_drill_hole is None
        &&& self.tie_anchor is None
        &&& self.selected_drill_holes@ == Seq::<DatasetPart>::empty()
        &&& self.selected_tie_ins@ == Seq::<DatasetPart>::empty()
        &&& self.initiation_dialog is None
        &&& self.active_tool == 0
        &&& self.gizmo_drag_axis_index is None
        &&& self.gizmo_drag_plane_index is None
        &&& self.rotate_gizmo_drag_ring is None
        &&& self.pending_close_project is None
        &&& self.flags == (EditorFlags {
            show_import: false,
            show_export: false,
            show_about: false,
            fly_mode_enabled: false,
            text_editing_enabled: false,
            pending_move_delta: false,
            slice_preview_detached: false,
            background_busy: false,
            rotate_preview_active: false,
            replace_project_confirm_open: false,
            lossy_save_confirm_open: false,
        })
        &&& self.workspace_order@ == Seq::<u8>::empty()
        &&& self.active_workspace is None
        &&& self.coordinate_systems@ == Seq::<CoordinateSystem>::empty()
        &&& self.local_system is None
        &&& self.delay_products@ == Seq::<u64>::empty()
        &&& self.next_delay_product_id == 0
        &&& self.active_delay_product is None
    }

    /// An editor with nothing in it.
    pub fn new(preferences: Preferences, language: LanguageChoice) -> (editor: EditorState)
        ensures
            editor.is_blank(),
            editor.preferences == preferences,
            editor.language == language,
    {
        EditorState {
            selected_handles: UniqueList::new(),
            hidden_handles: UniqueList::new(),
            explicitly_frozen: UniqueList::new(),
            frozen_handles: UniqueList::new(),
            translucent_handles: UniqueList::new(),
            locked_layers: UniqueList::new(),
            active_layer: None,
            active_drill_hole: None,
            tie_anchor: None,
            selected_drill_holes: Vec::new(),
            selected_tie_ins: Vec::new(),
            initiation_dialog: None,
            active_tool: 0,
            gizmo_drag_axis_index: None,
            gizmo_drag_plane_index: None,
            rotate_gizmo_drag_ring: None,
            pending_close_project: None,
            flags: EditorFlags {
                show_import: false,
                show_export: false,
                show_about: false,
                fly_mode_enabled: false,
                text_editing_enabled: false,
                pending_move_delta: false,
                slice_preview_detached: false,
                background_busy: false,
                rotate_preview_active: false,
                replace_project_confirm_open: false,
                lossy_save_confirm_open: false,
            },
            preferences,
            language,
            workspace_order: Vec::new(),
            active_workspace: None,
            coordinate_systems: Vec::new(),
            local_system: None,
            delay_products: Vec::new(),
            next_delay_product_id: 0,
            active_delay_product: None,
        }
    }

    /// The editor after what belongs to a project was dropped: the selection,
    /// the open references into its data, the previews, and the tool in hand.
    pub open spec fn transients_cleared(&self, after: &EditorState) -> bool {
        &&& after.selected_handles@ == Set::<SceneEntityId>::empty()
        &&& after.selected_drill_holes@ == Seq::<DatasetPart>::empty()
        &&& after.selected_tie_ins@ == Seq::<DatasetPart>::empty()
        &&& *after == (EditorState {
            selected_handles: after.selected_handles,
            selected_drill_holes: after.selected_drill_holes,
            selected_tie_ins: after.selected_tie_ins,
            active_layer: None,
            active_drill_hole: None,
            tie_anchor: None,
            initiation_dialog: None,
            active_tool: 0,
            gizmo_drag_axis_index: None,
            gizmo_drag_plane_index: None,
            rotate_gizmo_drag_ring: None,
            flags: EditorFlags {
                text_editing_enabled: false,
                pending_move_delta: false,
                rotate_preview_active: false,
                ..self.flags
            },
            ..*self
        })
    }

    /// Drops what belongs to a project.
    pub fn clear_project_transients(&mut self)
        ensures
            old(self).transients_cleared(final(self)),
    {
        self.selected_handles = UniqueList::new();
        self.selected_drill_holes = Vec::new();
        self.selected_tie_ins = Vec::new();
        self.active_layer = None;
        self.active_drill_hole = None;
        self.tie_anchor = None;
        self.initiation_dialog = None;
        self.active_tool = 0;
        self.gizmo_drag_axis_index = None;
        self.gizmo_drag_plane_index = None;
        self.rotate_gizmo_drag_ring = None;
        self.flags.text_editing_enabled = false;
        self.flags.pending_move_delta = false;
        self.flags.rotate_preview_active = false;
    }

    /// Nothing differs but what is selected, hidden, frozen or open.
    pub open spec fn same_but_references(&self, other: &EditorState) -> bool {
        &&& self.locked_layers == other.locked_layers
        &&& self.active_tool == other.active_tool
        &&& self.gizmo_drag_axis_index == other.gizmo_drag_axis_index
        &&& self.gizmo_drag_plane_index == other.gizmo_drag_plane_index
        &&& self.rotate_gizmo_drag_ring == other.rotate_gizmo_drag_ring
        &&& self.pending_close_project == other.pending_close_project
        &&& self.flags == other.flags
        &&& self.preferences == other.preferences
        &&& self.language == other.language
        &&& self.workspace_order == other.workspace_order
        &&& self.active_workspace == other.active_workspace
        &&& self.coordinate_systems == other.coordinate_systems
        &&& self.local_system == other.local_system
        &&& self.delay_products == other.delay_products
        &&& self.next_delay_product_id == other.next_delay_product_id
        &&& self.active_delay_product == other.active_delay_product
    }

    /// The editor without references to what the project does not hold.
    pub open spec fn references_swept(
        &self,
        workspace: &ProjectStore,
        items: &ProjectItems,
        after: &EditorState,
    ) -> bool {
        &&& after.active_layer == kept_layer(self.active_layer, workspace)
        &&& after.selected_handles@ == existing(self.selected_handles@, workspace, items)
        &&& after.hidden_handles@ == existing(self.hidden_handles@, workspace, items)
        &&& after.explicitly_frozen@ == existing(self.explicitly_frozen@, workspace, items)
        &&& after.frozen_handles@ == existing(self.frozen_handles@, workspace, items)
        &&& after.translucent_handles@ == existing(self.translucent_handles@, workspace, items)
        &&& after.active_drill_hole == kept_id(self.active_drill_hole, items.drill_holes@)
        &&& after.tie_anchor == kept_part(self.tie_anchor, items.drill_holes@)
        &&& after.selected_drill_holes@ == parts_of_held(
            self.selected_drill_holes@,
            items.drill_holes@,
        )
        &&& after.selected_tie_ins@ == parts_of_held(self.selected_tie_ins@, items.drill_holes@)
        &&& after.initiation_dialog == kept_part(self.initiation_dialog, items.drill_holes@)
        &&& after.same_but_references(self)
    }

    /// Drops references to what the project does not hold.
    pub fn sweep_references(&mut self, workspace: &ProjectStore, items: &ProjectItems)
        ensures
            old(self).references_swept(workspace, items, final(self)),
    {
        self.active_layer = keep_layer(self.active_layer, workspace);
        self.selected_handles = keep_existing(&self.selected_handles, workspace, items);
        self.hidden_handles = keep_existing(&self.hidden_handles, workspace, items);
        self.explicitly_frozen = keep_existing(&self.explicitly_frozen, workspace, items);
        self.frozen_handles = keep_existing(&self.frozen_handles, workspace, items);
        self.translucent_handles = keep_existing(&self.translucent_handles, workspace, items);
        self.active_drill_hole = keep_id(self.active_drill_hole, &items.drill_holes);
        self.tie_anchor = keep_part(self.tie_anchor, &items.drill_holes);
        self.selected_drill_holes = keep_parts(&self.selected_drill_holes, &items.drill_holes);
        self.selected_tie_ins = keep_parts(&self.selected_tie_ins, &items.drill_holes);
        self.initiation_dialog = keep_part(self.initiation_dialog, &items.drill_holes);
    }

    /// The objects that the active project hides are the hidden ones.
    pub open spec fn hidden_mirrors(handles: Set<SceneEntityId>, active: Option<Document>) -> Set<
        SceneEntityId,
    > {
        let rest = handles.filter(|entity: SceneEntityId| !(entity is Object));
        match active {
            Some(document) => rest.union(object_handles(document.hidden_objects@)),
            None => rest,
        }
    }

    /// Mirrors the objects that the active project hides into the hidden
    /// handles, so that tools that look at the document leave out the same
    /// objects as the scene does.
    pub fn mirror_hidden(&mut self, active: Option<&Document>)
        ensures
            final(self).hidden_handles@ == Self::hidden_mirrors(
                old(self).hidden_handles@,
                match active {
                    Some(d) => Some(*d),
                    None => None,
                },
            ),
            *final(self) == (EditorState { hidden_handles: final(self).hidden_handles, ..*old(self)
            }),
    {
        let nothing: UniqueList<SceneEntityId> = UniqueList::new();
        let mut hidden: UniqueList<SceneEntityId> = drop_objects(&self.hidden_handles, &nothing);
        let ghost rest = hidden@;
        proof {
            assert(rest =~= old(self).hidden_handles@.filter(
                |entity: SceneEntityId| !(entity is Object),
            ));
        }
        match active {
            Some(document) => {
                let mut i: usize = 0;
                proof {
                    assert(hidden@ =~= rest.union(
                        object_handles(document.hidden_objects@.take(0)),
                    ));
                }
                while i < document.hidden_objects.len()
                    invariant
                        i <= document.hidden_objects@.len(),
                        hidden@ == rest.union(
                            object_handles(document.hidden_objects@.take(i as int)),
                        ),
                    decreases document.hidden_objects.len() - i,
                {
                    let id: u64 = document.hidden_objects[i];
                    proof {
                        lemma_take_set(document.hidden_objects@, i as int);
                    }
                    let _new: bool = hidden.insert(SceneEntityId::Object(id));
                    proof {
                        assert(hidden@ =~= rest.union(
                            object_handles(document.hidden_objects@.take(i + 1)),
                        ));
                    }
                    i += 1;
                }
                proof {
                    assert(document.hidden_objects@.take(i as int) =~= document.hidden_objects@);
                }
            },
            None => {},
        }
        self.hidden_handles = hidden;
    }

    /// Freezes the objects on locked layers, and those frozen by name; takes
    /// the former out of the selection. All other objects are released.
    pub fn freeze_locked(&mut self, active: Option<&Document>)
        ensures
            ({
                let locked = match active {
                    Some(document) => objects_on(document.objects@, old(self).locked_layers@),
                    None => Set::<SceneEntityId>::empty(),
                };
                &&& final(self).frozen_handles@ == without_objects(
                    old(self).frozen_handles@,
                    old(self).explicitly_frozen@,
                ).union(locked)
                &&& final(self).selected_handles@ == old(self).selected_handles@.difference(locked)
            }),
            *final(self) == (EditorState {
                frozen_handles: final(self).frozen_handles,
                selected_handles: final(self).selected_handles,
                ..*old(self)
            }),
    {
        let kept: UniqueList<SceneEntityId> = drop_objects(
            &self.frozen_handles,
            &self.explicitly_frozen,
        );
        let ghost rest = kept@;
        let ghost layers = self.locked_layers@;
        self.frozen_handles = kept;
        match active {
            Some(document) => {
                let mut i: usize = 0;
                proof {
                    assert(self.frozen_handles@ =~= rest.union(
                        objects_on(document.objects@.take(0), layers),
                    ));
                    assert(self.selected_handles@ =~= old(self).selected_handles@.difference(
                        objects_on(document.objects@.take(0), layers),
                    ));
                }
                while i < document.objects.len()
                    invariant
                        i <= document.objects@.len(),
                        layers == old(self).locked_layers@,
                        self.frozen_handles@ == rest.union(
                            objects_on(document.objects@.take(i as int), layers),
                        ),
                        self.selected_handles@ == old(self).selected_handles@.difference(
                            objects_on(document.objects@.take(i as int), layers),
                        ),
                        *self == (EditorState {
                            frozen_handles: self.frozen_handles,
                            selected_handles: self.selected_handles,
                            ..*old(self)
                        }),
                    decreases document.objects.len() - i,
                {
                    let object: ObjectRow = document.objects[i];
                    let ghost before = document.objects@.take(i as int);
                    let ghost after = document.objects@.take(i + 1);
                    proof {
                        lemma_one_more_object(document.objects@, layers, i as int);
                    }
                    if self.locked_layers.contains(object.layer) {
                        let handle: SceneEntityId = SceneEntityId::Object(object.id);
                        let _new: bool = self.frozen_handles.insert(handle);
                        let _was: bool = self.selected_handles.remove(handle);
                    }
                    proof {
                        assert(self.frozen_handles@ =~= rest.union(objects_on(after, layers)));
                        assert(self.selected_handles@ =~= old(self).selected_handles@.difference(
                            objects_on(after, layers),
                        ));
                    }
                    i += 1;
                }
                proof {
                    assert(document.objects@.take(i as int) =~= document.objects@);
                }
            },
            None => {
                proof {
                    assert(self.frozen_handles@ =~= rest.union(Set::<SceneEntityId>::empty()));
                    assert(self.selected_handles@ =~= old(self).selected_handles@.difference(
                        Set::<SceneEntityId>::empty(),
                    ));
                }
            },
        }
    }
}

proof fn lemma_one_more_object(objects: Seq<ObjectRow>, layers: Set<u64>, i: int)
    requires
        0 <= i < objects.len(),
    ensures
        objects_on(objects.take(i + 1), layers) == (if layers.contains(objects[i].layer) {
            objects_on(objects.take(i), layers).insert(SceneEntityId::Object(objects[i].id))
        } else {
            objects_on(objects.take(i), layers)
        }),
{
    let a = objects.take(i);
    let b = objects.take(i + 1);
    let more = if layers.contains(objects[i].layer) {
        objects_on(a, layers).insert(SceneEntityId::Object(objects[i].id))
    } else {
        objects_on(a, layers)
    };
    assert forall|e: SceneEntityId| objects_on(b, layers).contains(e) <==> more.contains(e) by {
        if objects_on(b, layers).contains(e) {
            let k = choose|k: int|
                0 <= k < b.len() && (#[trigger] b[k]).id == e->Object_0 && layers.contains(
                    b[k].layer,
                );
            if k < i {
                assert(a[k] == b[k]);
            }
        }
        if objects_on(a, layers).contains(e) {
            let k = choose|k: int|
                0 <= k < a.len() && (#[trigger] a[k]).id == e->Object_0 && layers.contains(
                    a[k].layer,
                );
            assert(b[k] == a[k]);
        }
        if layers.contains(objects[i].layer) && e == SceneEntityId::Object(objects[i].id) {
            assert(b[i] == objects[i]);
        }
    }
    assert(objects_on(b, layers) =~= more);
}

/// Objects frozen by name stay frozen, whatever layers are locked.
pub proof fn named_objects_stay_frozen(
    frozen: Set<SceneEntityId>,
    by_name: Set<SceneEntityId>,
    locked: Set<SceneEntityId>,
    entity: SceneEntityId,
)
    requires
        frozen.contains(entity),
        by_name.contains(entity),
    ensures
        without_objects(frozen, by_name).union(locked).contains(entity),
{
}

/// Unlocking a layer releases its objects, unless they are frozen by name.
pub proof fn unlocking_releases_objects(
    frozen: Set<SceneEntityId>,
    by_name: Set<SceneEntityId>,
    objects: Seq<ObjectRow>,
    layers: Set<u64>,
    id: u64,
)
    requires
        !by_name.contains(SceneEntityId::Object(id)),
        forall|i: int|
            0 <= i < objects.len() && (#[trigger] objects[i]).id == id ==> !layers.contains(
                objects[i].layer,
            ),
    ensures
        !without_objects(frozen, by_name).union(objects_on(objects, layers)).contains(
            SceneEntityId::Object(id),
        ),
{
}

} // verus!
