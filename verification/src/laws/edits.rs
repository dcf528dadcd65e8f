//! Edits: what follows from one, what is unsaved, and what a gesture reports.
use crate::app::App;
use crate::edits::{Command, EditStep, StepEffects};
use crate::editor::{existing, DatasetPart};
use crate::effects::Effect;
use crate::items::{ProjectItems, SaveToken};
use crate::laws::project::{lemma_layer, lemma_object};
use crate::model::{epochs, holds, ItemRef, SceneEntityId};
use crate::project::{
    first_layer, first_object, Document, Layer, ObjectRow, ProjectStore,
};
use vstd::prelude::*;

verus! {

/// Of the handles, those of items are left whose own list has an item with their id.
pub open spec fn left_of_items(
    before: Set<SceneEntityId>,
    after: Set<SceneEntityId>,
    items: &ProjectItems,
) -> bool {
    &&& forall|id: u64| #[trigger]
        after.contains(SceneEntityId::Triangulation(id)) <==> before.contains(SceneEntityId::Triangulation(id))
            && exists|k: int| 0 <= k < items.triangulations@.len() && (#[trigger] items.triangulations@[k]).id == id
    &&& forall|id: u64| #[trigger]
        after.contains(SceneEntityId::BlockModel(id)) <==> before.contains(SceneEntityId::BlockModel(id))
            && exists|k: int| 0 <= k < items.block_models@.len() && (#[trigger] items.block_models@[k]).id == id
    &&& forall|id: u64| #[trigger]
        after.contains(SceneEntityId::DrillHole(id)) <==> before.contains(SceneEntityId::DrillHole(id))
            && exists|k: int| 0 <= k < items.drill_holes@.len() && (#[trigger] items.drill_holes@[k]).id == id
    &&& forall|id: u64| #[trigger]
        after.contains(SceneEntityId::PointCloud(id)) <==> before.contains(SceneEntityId::PointCloud(id))
            && exists|k: int| 0 <= k < items.point_clouds@.len() && (#[trigger] items.point_clouds@[k]).id == id
    &&& forall|id: u64| #[trigger]
        after.contains(SceneEntityId::Raster(id)) <==> before.contains(SceneEntityId::Raster(id))
            && exists|k: int| 0 <= k < items.rasters@.len() && (#[trigger] items.rasters@[k]).id == id
}

/// Of the handles, those of objects are left that stand on a loaded layer of the
/// active project.
pub open spec fn left_of_objects(
    before: Set<SceneEntityId>,
    after: Set<SceneEntityId>,
    workspace: &ProjectStore,
) -> bool {
    forall|id: u64| #[trigger]
        after.contains(SceneEntityId::Object(id)) <==> before.contains(SceneEntityId::Object(id))
            && object_can_be_seen(workspace, id)
}

/// The object stands in the active project, on a layer that is loaded there.
pub open spec fn object_can_be_seen(workspace: &ProjectStore, id: u64) -> bool {
    workspace.active() is Some && stands_on_loaded(workspace.active()->0.document, id)
}

/// The object at `i` is the first with the id, and its layer is loaded.
pub open spec fn stands_on_loaded(document: Document, id: u64) -> bool {
    exists|i: int|
        0 <= i < document.objects@.len() && (#[trigger] document.objects@[i]).id == id && (forall|
            j: int,
        |
            0 <= j < i ==> (#[trigger] document.objects@[j]).id != id) && layer_loaded(
            document.layers@,
            document.objects@[i].layer,
        )
}

/// The first layer with the id is loaded.
pub open spec fn layer_loaded(layers: Seq<Layer>, id: u64) -> bool {
    exists|l: int|
        0 <= l < layers.len() && (#[trigger] layers[l]).id == id && layers[l].loaded && forall|
            j: int,
        |
            0 <= j < l ==> (#[trigger] layers[j]).id != id
}

proof fn lemma_layer_at(layers: Seq<Layer>, id: u64, l: int)
    requires
        0 <= l < layers.len(),
        layers[l].id == id,
        forall|j: int| 0 <= j < l ==> (#[trigger] layers[j]).id != id,
    ensures
        first_layer(layers, id) == Some(layers[l]),
    decreases l,
{
    if l > 0 {
        let rest = layers.drop_first();
        assert(layers[0].id != id);
        assert forall|j: int| 0 <= j < l - 1 implies (#[trigger] rest[j]).id != id by {
            assert(rest[j] == layers[j + 1]);
        }
        assert(rest[l - 1] == layers[l]);
        lemma_layer_at(rest, id, l - 1);
    }
}

proof fn lemma_object_at(objects: Seq<ObjectRow>, id: u64, i: int)
    requires
        0 <= i < objects.len(),
        objects[i].id == id,
        forall|j: int| 0 <= j < i ==> (#[trigger] objects[j]).id != id,
    ensures
        first_object(objects, id) == Some(objects[i]),
    decreases i,
{
    if i > 0 {
        let rest = objects.drop_first();
        assert(objects[0].id != id);
        assert forall|j: int| 0 <= j < i - 1 implies (#[trigger] rest[j]).id != id by {
            assert(rest[j] == objects[j + 1]);
        }
        assert(rest[i - 1] == objects[i]);
        lemma_object_at(rest, id, i - 1);
    }
}

proof fn lemma_loaded_layer(layers: Seq<Layer>, id: u64)
    requires
        layer_loaded(layers, id),
    ensures
        first_layer(layers, id) is Some && first_layer(layers, id)->0.loaded,
{
    let l = choose|l: int|
        0 <= l < layers.len() && (#[trigger] layers[l]).id == id && layers[l].loaded && forall|
            j: int,
        |
            0 <= j < l ==> (#[trigger] layers[j]).id != id;
    lemma_layer_at(layers, id, l);
}

proof fn lemma_seen(document: Document, id: u64)
    ensures
        document.object_is_loaded(id) <==> stands_on_loaded(document, id),
{
    if document.object_is_loaded(id) {
        lemma_stands(document, id);
    }
    if stands_on_loaded(document, id) {
        let objects = document.objects@;
        let i = choose|i: int|
            0 <= i < objects.len() && (#[trigger] objects[i]).id == id && (forall|j: int|
                0 <= j < i ==> (#[trigger] objects[j]).id != id) && layer_loaded(
                document.layers@,
                objects[i].layer,
            );
        lemma_object_at(objects, id, i);
        lemma_loaded_layer(document.layers@, objects[i].layer);
    }
}

proof fn lemma_stands(document: Document, id: u64)
    requires
        document.object_is_loaded(id),
    ensures
        stands_on_loaded(document, id),
{
    lemma_object(document.objects@, id);
    let i = choose|i: int|
        0 <= i < document.objects@.len() && #[trigger] document.objects@[i] == first_object(
            document.objects@,
            id,
        )->0 && document.objects@[i].id == id && forall|j: int|
            0 <= j < i ==> (#[trigger] document.objects@[j]).id != id;
    lemma_layer(document.layers@, document.objects@[i].layer);
}

proof fn lemma_left(before: Set<SceneEntityId>, workspace: &ProjectStore, items: &ProjectItems)
    ensures
        left_of_items(before, existing(before, workspace, items), items),
        left_of_objects(before, existing(before, workspace, items), workspace),
{
    let after = existing(before, workspace, items);
    assert forall|id: u64| #[trigger]
        after.contains(SceneEntityId::Object(id)) <==> before.contains(SceneEntityId::Object(id))
            && object_can_be_seen(workspace, id) by {
        if workspace.active() is Some {
            lemma_seen(workspace.active()->0.document, id);
        }
    }
}

/// The sweep leaves exactly what the project holds: handles of items that their own
/// list has, and of objects that can be seen.
pub proof fn the_sweep_leaves_what_is_held<P>(app: &mut App<P>)
    requires
        call_ensures(App::<P>::drop_editor_references_to_missing_items, (app,), ()),
    ensures
        left_of_items(
            old(app).editor.selected_handles@,
            final(app).editor.selected_handles@,
            &old(app).items,
        ),
        left_of_objects(
            old(app).editor.selected_handles@,
            final(app).editor.selected_handles@,
            &old(app).workspace,
        ),
        left_of_items(
            old(app).editor.hidden_handles@,
            final(app).editor.hidden_handles@,
            &old(app).items,
        ),
        left_of_objects(
            old(app).editor.hidden_handles@,
            final(app).editor.hidden_handles@,
            &old(app).workspace,
        ),
        left_of_items(
            old(app).editor.explicitly_frozen@,
            final(app).editor.explicitly_frozen@,
            &old(app).items,
        ),
        left_of_objects(
            old(app).editor.explicitly_frozen@,
            final(app).editor.explicitly_frozen@,
            &old(app).workspace,
        ),
        left_of_items(
            old(app).editor.frozen_handles@,
            final(app).editor.frozen_handles@,
            &old(app).items,
        ),
        left_of_objects(
            old(app).editor.frozen_handles@,
            final(app).editor.frozen_handles@,
            &old(app).workspace,
        ),
        left_of_items(
            old(app).editor.translucent_handles@,
            final(app).editor.translucent_handles@,
            &old(app).items,
        ),
        left_of_objects(
            old(app).editor.translucent_handles@,
            final(app).editor.translucent_handles@,
            &old(app).workspace,
        ),
{
    lemma_left(old(app).editor.selected_handles@, &old(app).workspace, &old(app).items);
    lemma_left(old(app).editor.hidden_handles@, &old(app).workspace, &old(app).items);
    lemma_left(old(app).editor.explicitly_frozen@, &old(app).workspace, &old(app).items);
    lemma_left(old(app).editor.frozen_handles@, &old(app).workspace, &old(app).items);
    lemma_left(old(app).editor.translucent_handles@, &old(app).workspace, &old(app).items);
}

/// The sweep keeps what is active or anchored exactly while the project holds it,
/// keeps the selected parts of held datasets in their order, and ends the tie chain
/// if its anchor is gone.
pub proof fn the_sweep_keeps_what_is_active<P>(app: &mut App<P>, part: DatasetPart, k: int)
    requires
        call_ensures(App::<P>::drop_editor_references_to_missing_items, (app,), ()),
    ensures
        final(app).items.active_triangulation is Some ==> final(app).items.active_triangulation
            == old(app).items.active_triangulation,
        old(app).items.active_triangulation is Some ==> (
        final(app).items.active_triangulation is Some <==> exists|i: int|
            0 <= i < old(app).items.triangulations@.len() && (
            #[trigger] old(app).items.triangulations@[i]).id == old(app).items.active_triangulation->0),
        final(app).editor.active_drill_hole is Some ==> final(app).editor.active_drill_hole == old(app).editor.active_drill_hole,
        old(app).editor.active_drill_hole is Some ==> (
        final(app).editor.active_drill_hole is Some <==> exists|i: int|
            0 <= i < old(app).items.drill_holes@.len() && (
            #[trigger] old(app).items.drill_holes@[i]).id == old(app).editor.active_drill_hole->0),
        final(app).editor.tie_anchor is Some ==> final(app).editor.tie_anchor == old(app).editor.tie_anchor,
        old(app).editor.tie_anchor is Some ==> (final(app).editor.tie_anchor is Some <==> exists|
            i: int,
        |
            0 <= i < old(app).items.drill_holes@.len() && (
            #[trigger] old(app).items.drill_holes@[i]).id == old(app).editor.tie_anchor->0.dataset),
        final(app).editor.initiation_dialog is Some ==> final(app).editor.initiation_dialog == old(app).editor.initiation_dialog,
        old(app).editor.initiation_dialog is Some ==> (
        final(app).editor.initiation_dialog is Some <==> exists|i: int|
            0 <= i < old(app).items.drill_holes@.len() && (
            #[trigger] old(app).items.drill_holes@[i]).id == old(app).editor.initiation_dialog->0.dataset),
        final(app).editor.active_layer is Some ==> final(app).editor.active_layer == old(app).editor.active_layer,
        old(app).editor.tie_anchor is Some && final(app).editor.tie_anchor is None ==> final(app).outbox@ == old(app).outbox@.push(Effect::EndTieChain),
        old(app).editor.tie_anchor == final(app).editor.tie_anchor ==> final(app).outbox@ == old(app).outbox@,
        final(app).editor.selected_drill_holes@.contains(part) <==> old(app).editor.selected_drill_holes@.contains(part) && exists|i: int|
            0 <= i < old(app).items.drill_holes@.len() && (
            #[trigger] old(app).items.drill_holes@[i]).id == part.dataset,
        final(app).editor.selected_tie_ins@.contains(part) <==> old(app).editor.selected_tie_ins@.contains(part) && exists|i: int|
            0 <= i < old(app).items.drill_holes@.len() && (
            #[trigger] old(app).items.drill_holes@[i]).id == part.dataset,
        final(app).workspace == old(app).workspace,
        final(app).items.triangulations == old(app).items.triangulations,
        final(app).items.block_models == old(app).items.block_models,
        final(app).items.drill_holes == old(app).items.drill_holes,
        final(app).items.point_clouds == old(app).items.point_clouds,
        final(app).items.rasters == old(app).items.rasters,
        final(app).items.baseline == old(app).items.baseline,
        final(app).editor.locked_layers == old(app).editor.locked_layers,
        final(app).editor.preferences == old(app).editor.preferences,
        final(app).editor.flags == old(app).editor.flags,
        final(app).pacing == old(app).pacing,
{
    let keep = |p: DatasetPart| holds(old(app).items.drill_holes@, p.dataset);
    lemma_kept(old(app).editor.selected_drill_holes@, keep, part);
    lemma_kept(old(app).editor.selected_tie_ins@, keep, part);
    assert(old(app).outbox@ + Seq::<Effect>::empty() =~= old(app).outbox@);
    assert(old(app).outbox@ + seq![Effect::EndTieChain] =~= old(app).outbox@.push(
        Effect::EndTieChain,
    ));
}

proof fn lemma_kept<A>(list: Seq<A>, keep: spec_fn(A) -> bool, value: A)
    ensures
        list.filter(keep).contains(value) <==> list.contains(value) && keep(value),
{
    if list.filter(keep).contains(value) {
        let i = choose|i: int| 0 <= i < list.filter(keep).len() && list.filter(keep)[i] == value;
        list.lemma_filter_pred(keep, i);
        list.lemma_filter_contains_rev(keep, value);
    }
    if list.contains(value) && keep(value) {
        let i = choose|i: int| 0 <= i < list.len() && list[i] == value;
        list.lemma_filter_contains(keep, i);
    }
}

/// An active layer stays active exactly while the active project has it loaded.
pub proof fn the_layer_to_draw_on_is_loaded<P>(app: &App<P>, l: int, layer: Option<u64>)
    requires
        call_ensures(App::<P>::active_layer, (app,), layer),
    ensures
        layer is Some ==> layer == app.editor.active_layer && app.workspace.active() is Some
            && exists|i: int|
            0 <= i < app.workspace.active()->0.document.layers@.len() && (
            #[trigger] app.workspace.active()->0.document.layers@[i]).id == layer->0
                && app.workspace.active()->0.document.layers@[i].loaded,
        app.workspace.active() is Some && app.editor.active_layer is Some && 0 <= l
            < app.workspace.active()->0.document.layers@.len()
            && app.workspace.active()->0.document.layers@[l].id == app.editor.active_layer->0
            && app.workspace.active()->0.document.layers@[l].loaded && (forall|j: int|
            0 <= j < l ==> (#[trigger] app.workspace.active()->0.document.layers@[j]).id
                != app.editor.active_layer->0) ==> layer == app.editor.active_layer,
{
    if app.workspace.active() is Some && app.editor.active_layer is Some {
        lemma_layer(app.workspace.active()->0.document.layers@, app.editor.active_layer->0);
    }
}

/// There is something to edit with a project, and outside of the flying view only.
pub proof fn a_project_can_be_edited<P>(app: &App<P>, yes: bool)
    requires
        call_ensures(App::<P>::editing_ready, (app,), yes),
    ensures
        app.workspace.active() is None ==> !yes,
        app.editor.flags.fly_mode_enabled ==> !yes,
        app.workspace.active() is Some && !app.editor.flags.fly_mode_enabled ==> yes,
{
}

/// After an edit the editor refers to nothing that is gone, whether the document
/// changed or not; what stays selected, hidden or frozen of items was so before.
pub proof fn an_edit_leaves_no_loose_references<P>(app: &mut App<P>, effects: &StepEffects, id: u64)
    requires
        call_ensures(App::<P>::apply_step_effects, (app, effects), ()),
    ensures
        left_of_items(old(app).editor.selected_handles@, final(app).editor.selected_handles@, &old(app).items),
        left_of_items(old(app).editor.hidden_handles@, final(app).editor.hidden_handles@, &old(app).items),
        left_of_items(old(app).editor.frozen_handles@, final(app).editor.frozen_handles@, &old(app).items),
        left_of_items(old(app).editor.explicitly_frozen@, final(app).editor.explicitly_frozen@, &old(app).items),
        left_of_items(old(app).editor.translucent_handles@, final(app).editor.translucent_handles@, &old(app).items),
        left_of_objects(old(app).editor.explicitly_frozen@, final(app).editor.explicitly_frozen@, &old(app).workspace),
        left_of_objects(old(app).editor.translucent_handles@, final(app).editor.translucent_handles@, &old(app).workspace),
        !effects.document_changed ==> left_of_objects(
            old(app).editor.hidden_handles@,
            final(app).editor.hidden_handles@,
            &old(app).workspace,
        ),
        !effects.document_changed ==> left_of_objects(
            old(app).editor.selected_handles@,
            final(app).editor.selected_handles@,
            &old(app).workspace,
        ),
        effects.document_changed ==> (final(app).editor.hidden_handles@.contains(
            SceneEntityId::Object(id),
        ) <==> old(app).workspace.active() is Some && old(app).workspace.active()->0.document.hidden_objects@.contains(id)),
        final(app).items.triangulations == old(app).items.triangulations,
        final(app).items.block_models == old(app).items.block_models,
        final(app).items.drill_holes == old(app).items.drill_holes,
        final(app).items.point_clouds == old(app).items.point_clouds,
        final(app).items.rasters == old(app).items.rasters,
        final(app).items.baseline == old(app).items.baseline,
        final(app).workspace == old(app).workspace,
        final(app).pacing.redraw_requested,
{
    lemma_left(old(app).editor.selected_handles@, &old(app).workspace, &old(app).items);
    lemma_left(old(app).editor.hidden_handles@, &old(app).workspace, &old(app).items);
    lemma_left(old(app).editor.frozen_handles@, &old(app).workspace, &old(app).items);
    lemma_left(old(app).editor.explicitly_frozen@, &old(app).workspace, &old(app).items);
    lemma_left(old(app).editor.translucent_handles@, &old(app).workspace, &old(app).items);
}

/// After an edit, everything that it left to do is asked for, after what was asked
/// for before: first each unloaded item is released, in order, and what is unloaded
/// is evicted.
pub proof fn an_edit_releases_what_it_unloaded<P>(app: &mut App<P>, effects: &StepEffects, i: int)
    requires
        call_ensures(App::<P>::apply_step_effects, (app, effects), ()),
    ensures
        old(app).outbox@.is_prefix_of(final(app).outbox@),
        final(app).outbox@.len() >= old(app).outbox@.len() + effects.unloaded_items@.len() + 2,
        0 <= i < effects.unloaded_items@.len() ==> final(app).outbox@[old(app).outbox@.len() + i]
            == Effect::ReleaseRuntime(effects.unloaded_items@[i]),
        final(app).outbox@[(old(app).outbox@.len() + effects.unloaded_items@.len()) as int]
            == Effect::EvictUnloadedItems,
        final(app).outbox@[(old(app).outbox@.len() + effects.unloaded_items@.len() + 1) as int]
            == Effect::EvictUnloadedLayers,
{
    let n = old(app).outbox@.len() as int;
    let m = effects.unloaded_items@.len() as int;
    let all = old(app).step_effects(effects);
    let released = crate::edits::releases(effects.unloaded_items@);
    assert(final(app).outbox@ == old(app).outbox@ + all);
    assert(released.len() == m);
    assert(all.len() >= m + 2);
    assert(all[m] == Effect::EvictUnloadedItems);
    assert(all[m + 1] == Effect::EvictUnloadedLayers);
    assert(old(app).outbox@ =~= final(app).outbox@.subrange(0, n));
    if 0 <= i < m {
        assert(all[i] == released[i]);
    }
}

/// After an edit, the values of each block model that needs it are decoded again,
/// last of all and in order; the session is written if items came or went, and the
/// scene is put together again only if the document changed.
pub proof fn an_edit_announces_what_it_changed<P>(app: &mut App<P>, effects: &StepEffects, i: int)
    requires
        call_ensures(App::<P>::apply_step_effects, (app, effects), ()),
    ensures
        ({
            let asked = final(app).outbox@;
            let n = asked.len() as int;
            let m = effects.block_model_decodes@.len() as int;
            &&& n >= m
            &&& 0 <= i < m ==> asked[n - m + i] == Effect::DecodeBlockModelValues(
                effects.block_model_decodes@[i],
            )
            &&& effects.membership_changed ==> n > m && asked[n - m - 1] == Effect::PersistSession
            &&& !effects.membership_changed && !effects.items_changed && effects.document_changed
                && old(app).surface is Some ==> n > m && asked[n - m - 1]
                == Effect::InvalidateGpuGeometry
            &&& !effects.membership_changed && effects.items_changed && old(app).surface is Some
                ==> n > m + 1 && asked[n - m - 1] == Effect::InvalidateGpuOverlay && asked[n - m
                - 2] == Effect::InvalidateGpuBounds
        }),
{
    let all = old(app).step_effects(effects);
    let told = old(app).announcements(effects);
    let decoded = crate::edits::decodings(effects.block_model_decodes@);
    let asked = final(app).outbox@;
    let n = asked.len() as int;
    let m = effects.block_model_decodes@.len() as int;
    assert(asked == old(app).outbox@ + all);
    assert(decoded.len() == m);
    let early = crate::edits::releases(effects.unloaded_items@) + seq![
        Effect::EvictUnloadedItems,
        Effect::EvictUnloadedLayers,
    ] + old(app).sweep_effects() + (if effects.document_changed {
        old(app).geometry_effects()
    } else {
        Seq::empty()
    });
    assert(all == early + told);
    assert(told.skip(told.len() - m) =~= decoded);
    assert(asked.skip(n - m) =~= decoded);
    if 0 <= i < m {
        assert(asked[n - m + i] == asked.skip(n - m)[i]);
    }
    if effects.membership_changed {
        assert(told[told.len() - m - 1] == Effect::PersistSession);
        assert(asked[n - m - 1] == told[told.len() - m - 1]);
    } else if effects.items_changed && old(app).surface is Some {
        assert(told[told.len() - m - 1] == Effect::InvalidateGpuOverlay);
        assert(told[told.len() - m - 2] == Effect::InvalidateGpuBounds);
        assert(asked[n - m - 1] == told[told.len() - m - 1]);
        assert(asked[n - m - 2] == told[told.len() - m - 2]);
    } else if !effects.items_changed && effects.document_changed && old(app).surface is Some {
        assert(told =~= decoded);
        assert(early.last() == Effect::InvalidateGpuGeometry);
        assert(asked[n - m - 1] == early.last());
    }
}

/// Giving an item another presentation is an edit that names the item, what it has
/// and what it is to have; an item that has it already, or is not there, is not
/// edited.
pub proof fn restyling_names_both_styles<P>(
    app: &App<P>,
    item: ItemRef,
    after: u64,
    had: Option<u64>,
    command: Option<Command>,
)
    requires
        call_ensures(App::<P>::item_style, (app, item), had),
        call_ensures(App::<P>::set_item_style, (app, item, after), command),
    ensures
        had is None ==> command is None,
        had == Some(after) ==> command is None,
        had is Some && had->0 != after ==> command == Some(
            Command::SetItemStyle { item, before: had->0, after },
        ),
{
}

/// An item that is there can be taken out, and only such a one.
pub proof fn items_that_are_there_can_be_taken_out<P>(
    app: &App<P>,
    item: ItemRef,
    had: Option<u64>,
    command: Option<Command>,
)
    requires
        call_ensures(App::<P>::item_style, (app, item), had),
        call_ensures(App::<P>::delete_project_item, (app, item), command),
    ensures
        had is Some ==> command == Some(Command::DeleteItem { item }),
        had is None ==> command is None,
{
}

/// An edit is applied only when everything it needs is in memory: layers that wait
/// on disk are read back first, then items; without a project there is none. While
/// the pointer holds a widget, edits extend one step.
pub proof fn edits_wait_for_what_they_need<P>(
    app: &App<P>,
    layers: &Vec<u64>,
    needed: &Vec<ItemRef>,
    i: int,
    waits: bool,
    step: EditStep,
)
    requires
        call_ensures(App::<P>::execute_edit, (app, layers, needed), step),
        0 <= i < needed@.len() ==> call_ensures(
            ProjectItems::is_deferred,
            (&app.items, needed@[i]),
            waits,
        ),
    ensures
        app.workspace.active() is Some && 0 <= i < layers@.len()
            && app.workspace.active()->0.document.deferred_layers@.contains(layers@[i]) ==> step
            == EditStep::RestoreLayers,
        step is Apply ==> app.workspace.active() is Some && step == (EditStep::Apply {
            continuing: app.gesture_log.active,
        }),
        step is Apply && 0 <= i < needed@.len() ==> !waits,
        step is Apply && 0 <= i < layers@.len()
            ==> !app.workspace.active()->0.document.deferred_layers@.contains(layers@[i]),
        layers@.len() == 0 && 0 <= i < needed@.len() && waits ==> step == EditStep::RestoreItems,
        layers@.len() == 0 && needed@.len() == 0 ==> (step is NoProject
            <==> app.workspace.active() is None),
        step is NoProject ==> app.workspace.active() is None,
        step is RestoreItems ==> needed@.len() > 0,
        step is RestoreLayers ==> layers@.len() > 0 && app.workspace.active() is Some,
        app.workspace.active() is Some && layers@.len() == 0 && needed@.len() == 0 ==> step is Apply,
{
}

/// An edit that a background job made is handed on for its project, once; without a
/// project nothing now.
pub proof fn background_edits_are_handed_on<P>(
    app: &mut App<P>,
    runtime_id: u32,
    command: Command,
    found: bool,
)
    requires
        call_ensures(App::<P>::execute_edit_for, (app, runtime_id, command), found),
    ensures
        found <==> old(app).workspace.active() is Some,
        found ==> final(app).outbox@.len() == old(app).outbox@.len() + 1 && final(app).outbox@.last()
            == (Effect::ExecuteEditFor { runtime_id, command }),
        !found ==> final(app).outbox@ == old(app).outbox@,
        old(app).outbox@.is_prefix_of(final(app).outbox@),
        final(app).workspace == old(app).workspace,
        final(app).items == old(app).items,
        final(app).editor == old(app).editor,
{
    assert(old(app).outbox@ =~= final(app).outbox@.subrange(0, old(app).outbox@.len() as int));
}

/// An edit that is applied already is recorded at the epoch that the content stands
/// at.
pub proof fn applied_edits_are_recorded_once<P>(
    app: &mut App<P>,
    command: Command,
)
    requires
        call_ensures(App::<P>::record_applied_edit, (app, command), ()),
    ensures
        final(app).outbox@.len() == old(app).outbox@.len() + 1,
        final(app).outbox@.drop_last() == old(app).outbox@,
        old(app).workspace.active() is Some ==> final(app).outbox@.last() == (Effect::RecordEdit {
            epoch: old(app).workspace.active()->0.content_epoch,
            command,
        }),
        old(app).workspace.active() is None ==> final(app).outbox@.last() == (Effect::RecordEdit {
            epoch: 0,
            command,
        }),
        final(app).workspace == old(app).workspace,
        final(app).items == old(app).items,
{
    assert(final(app).outbox@.drop_last() =~= old(app).outbox@);
}

/// Letting go of a widget makes the gesture's edits one step and then writes the
/// line it settled on; nothing is written while it is held, or when nothing was
/// held.
pub proof fn letting_go_settles_the_gesture<P>(app: &mut App<P>, active: bool)
    requires
        call_ensures(App::<P>::set_ui_pointer_gesture_active, (app, active), ()),
    ensures
        final(app).gesture_log.active == active,
        active || !old(app).gesture_log.active ==> final(app).outbox@ == old(app).outbox@
            && final(app).gesture_log.reported@ == old(app).gesture_log.reported@
            && final(app).gesture_log.deferred == old(app).gesture_log.deferred,
        old(app).gesture_log.active && !active ==> {
            let n = old(app).outbox@.len() as int;
            &&& final(app).gesture_log.reported@.len() == 0
            &&& final(app).gesture_log.deferred is None
            &&& final(app).outbox@.len() > n
            &&& final(app).outbox@.take(n) == old(app).outbox@
            &&& final(app).outbox@[n] == Effect::EndHistoryInteraction
            &&& old(app).gesture_log.deferred is None ==> final(app).outbox@.len() == n + 1
            &&& old(app).gesture_log.deferred is Some ==> final(app).outbox@.len() == n + 2
                && final(app).outbox@[n + 1] == Effect::Log(old(app).gesture_log.deferred->0)
        },
        final(app).workspace == old(app).workspace,
        final(app).items == old(app).items,
        final(app).editor == old(app).editor,
{
    let n = old(app).outbox@.len() as int;
    assert(old(app).outbox@ + Seq::<Effect>::empty() =~= old(app).outbox@);
    assert(final(app).outbox@.take(n) =~= old(app).outbox@);
}

/// A line is written at once, but while a widget is held it is kept instead, in
/// place of the one kept before.
pub proof fn lines_wait_for_the_gesture<P>(app: &mut App<P>, line: String)
    requires
        call_ensures(App::<P>::log_when_gesture_ends, (app, line), ()),
    ensures
        old(app).gesture_log.active ==> final(app).outbox@ == old(app).outbox@ && final(app).gesture_log.deferred == Some(line),
        !old(app).gesture_log.active ==> final(app).outbox@.len() == old(app).outbox@.len() + 1
            && final(app).outbox@.last() == Effect::Log(line) && final(app).outbox@.drop_last() == old(app).outbox@ && final(app).gesture_log.deferred == old(app).gesture_log.deferred,
        final(app).gesture_log.active == old(app).gesture_log.active,
        final(app).gesture_log.reported == old(app).gesture_log.reported,
        final(app).workspace == old(app).workspace,
        final(app).items == old(app).items,
{
    if !old(app).gesture_log.active {
        assert(final(app).outbox@.drop_last() =~= old(app).outbox@);
    }
}

/// Outside of gestures every command is reported; during one, a kind is reported
/// exactly if it was not yet.
pub proof fn reports_are_made_once_a_gesture<P>(app: &mut App<P>, kind: u64, other: u64, yes: bool)
    requires
        call_ensures(App::<P>::should_report_to_console, (app, kind), yes),
    ensures
        !old(app).gesture_log.active ==> yes && final(app).gesture_log.reported@ == old(app).gesture_log.reported@,
        old(app).gesture_log.active ==> yes == !old(app).gesture_log.reported@.contains(kind),
        old(app).gesture_log.active ==> final(app).gesture_log.reported@.contains(kind),
        other != kind ==> final(app).gesture_log.reported@.contains(other) == old(app).gesture_log.reported@.contains(other),
        final(app).outbox == old(app).outbox,
        final(app).gesture_log.active == old(app).gesture_log.active,
        final(app).gesture_log.deferred == old(app).gesture_log.deferred,
        final(app).workspace == old(app).workspace,
{
    let was = old(app).gesture_log.reported@;
    let now = final(app).gesture_log.reported@;
    if old(app).gesture_log.active && yes {
        assert(now.last() == kind);
        if was.contains(other) {
            let i = choose|i: int| 0 <= i < was.len() && was[i] == other;
            assert(now[i] == other);
        }
        if other != kind && now.contains(other) {
            let i = choose|i: int| 0 <= i < now.len() && now[i] == other;
            assert(was[i] == other);
        }
    }
}

/// A change to the content makes the open project unsaved and counts once; nothing
/// else in it changes, and no other project does.
pub proof fn a_change_counts_once<P>(app: &mut App<P>, p: int)
    requires
        call_ensures(App::<P>::touch_active_project_content, (app,), ()),
    ensures
        final(app).workspace.projects@.len() == old(app).workspace.projects@.len(),
        0 <= p < old(app).workspace.projects@.len() && old(app).workspace.active_index != Some(
            p as usize,
        ) ==> final(app).workspace.projects@[p] == old(app).workspace.projects@[p],
        old(app).workspace.active() is Some ==> {
            let was = old(app).workspace.active()->0;
            let now = final(app).workspace.active()->0;
            &&& now.unsaved
            &&& now.content_epoch != was.content_epoch
            &&& was.content_epoch < u64::MAX ==> now.content_epoch == was.content_epoch + 1
            &&& now.document == was.document
            &&& now.name == was.name
            &&& now.runtime_id == was.runtime_id
            &&& now.dirty_layers == was.dirty_layers
            &&& now.savepoint_revision == was.savepoint_revision
        },
        old(app).workspace.active() is None ==> final(app).workspace.projects@ == old(app).workspace.projects@,
        final(app).workspace.active_index == old(app).workspace.active_index,
        final(app).items == old(app).items,
        final(app).editor == old(app).editor,
        final(app).outbox == old(app).outbox,
{
}

/// The epoch of the content is that of the open project.
pub proof fn the_content_epoch_is_the_projects<P>(app: &App<P>, epoch: u64)
    requires
        call_ensures(App::<P>::active_project_content_epoch, (app,), epoch),
    ensures
        app.workspace.active() is Some ==> epoch == app.workspace.active()->0.content_epoch,
        app.workspace.active() is None ==> epoch == 0,
{
}

/// A project has unsaved work exactly if it is the open one and its document, or its
/// items, have.
pub proof fn unsaved_work_is_the_open_projects<P>(
    app: &App<P>,
    runtime_id: u32,
    items: bool,
    yes: bool,
)
    requires
        call_ensures(App::<P>::project_content_is_dirty, (app, runtime_id), yes),
        call_ensures(ProjectItems::has_unsaved_items, (&app.items,), items),
    ensures
        app.workspace.active() is None ==> !yes,
        app.workspace.active() is Some && app.workspace.active()->0.runtime_id != runtime_id
            ==> !yes,
        app.workspace.active() is Some && app.workspace.active()->0.runtime_id == runtime_id ==> (
        yes <==> app.workspace.active()->0.unsaved || items),
{
}

/// Once everything counts as saved, the open project stands at its savepoint, no
/// layer of it is dirty, its designs did not change, and its items are as they were
/// but for what counts as saved. Other projects are untouched.
pub proof fn nothing_is_left_unsaved<P>(app: &mut App<P>, i: int, p: int)
    requires
        call_ensures(App::<P>::mark_all_project_content_saved, (app,), ()),
    ensures
        old(app).workspace.active() is Some ==> {
            let was = old(app).workspace.active()->0;
            let now = final(app).workspace.active()->0;
            &&& final(app).workspace.active() is Some
            &&& now.dirty_layers@.len() == 0
            &&& now.savepoint_revision == now.document.revision
            &&& !now.unsaved
            &&& !now.designs_changed(&final(app).items.baseline.folders)
            &&& now.document == was.document
            &&& now.name == was.name
            &&& now.runtime_id == was.runtime_id
            &&& now.id == was.id
            &&& now.path == was.path
            &&& now.folders == was.folders
            &&& now.content_epoch == was.content_epoch
            &&& now.persistence == was.persistence
        },
        final(app).workspace.projects@.len() == old(app).workspace.projects@.len(),
        final(app).workspace.active_index == old(app).workspace.active_index,
        0 <= p < old(app).workspace.projects@.len() && old(app).workspace.active_index != Some(
            p as usize,
        ) ==> final(app).workspace.projects@[p] == old(app).workspace.projects@[p],
        final(app).items.triangulations@.len() == old(app).items.triangulations@.len(),
        0 <= i < old(app).items.triangulations@.len() ==> {
            let was = old(app).items.triangulations@[i];
            let now = final(app).items.triangulations@[i];
            &&& now.state.saved_epoch == was.state.epoch
            &&& now.state.epoch == was.state.epoch
            &&& now.id == was.id
            &&& now.name == was.name
            &&& now.detail == was.detail
            &&& now.state.loaded == was.state.loaded
            &&& final(app).items.baseline.triangulations@[i] == (was.id, was.state.epoch)
        },
        final(app).items.block_models@.len() == old(app).items.block_models@.len(),
        0 <= i < old(app).items.block_models@.len() ==> {
            let was = old(app).items.block_models@[i];
            let now = final(app).items.block_models@[i];
            &&& now.state.saved_epoch == was.state.epoch
            &&& now.state.epoch == was.state.epoch
            &&& now.id == was.id
            &&& now.name == was.name
            &&& now.detail == was.detail
            &&& now.state.loaded == was.state.loaded
            &&& final(app).items.baseline.block_models@[i] == (was.id, was.state.epoch)
        },
        final(app).items.drill_holes@.len() == old(app).items.drill_holes@.len(),
        0 <= i < old(app).items.drill_holes@.len() ==> {
            let was = old(app).items.drill_holes@[i];
            let now = final(app).items.drill_holes@[i];
            &&& now.state.saved_epoch == was.state.epoch
            &&& now.state.epoch == was.state.epoch
            &&& now.id == was.id
            &&& now.name == was.name
            &&& now.detail == was.detail
            &&& now.state.loaded == was.state.loaded
            &&& final(app).items.baseline.drill_holes@[i] == (was.id, was.state.epoch)
        },
        final(app).items.point_clouds@.len() == old(app).items.point_clouds@.len(),
        0 <= i < old(app).items.point_clouds@.len() ==> {
            let was = old(app).items.point_clouds@[i];
            let now = final(app).items.point_clouds@[i];
            &&& now.state.saved_epoch == was.state.epoch
            &&& now.state.epoch == was.state.epoch
            &&& now.id == was.id
            &&& now.name == was.name
            &&& now.detail == was.detail
            &&& now.state.loaded == was.state.loaded
            &&& final(app).items.baseline.point_clouds@[i] == (was.id, was.state.epoch)
        },
        final(app).items.rasters@.len() == old(app).items.rasters@.len(),
        0 <= i < old(app).items.rasters@.len() ==> {
            let was = old(app).items.rasters@[i];
            let now = final(app).items.rasters@[i];
            &&& now.state.saved_epoch == was.state.epoch
            &&& now.state.epoch == was.state.epoch
            &&& now.id == was.id
            &&& now.name == was.name
            &&& now.detail == was.detail
            &&& now.state.loaded == was.state.loaded
            &&& final(app).items.baseline.rasters@[i] == (was.id, was.state.epoch)
        },
        final(app).editor == old(app).editor,
        final(app).outbox == old(app).outbox,
{
    if 0 <= i {
        if i < old(app).items.triangulations@.len() {
            assert(epochs(final(app).items.triangulations@)[i].0 == final(app).items.triangulations@[i].id);
            assert(final(app).items.baseline.triangulations@[i] == epochs(final(app).items.triangulations@)[i]);
        }
        if i < old(app).items.block_models@.len() {
            assert(epochs(final(app).items.block_models@)[i].0 == final(app).items.block_models@[i].id);
            assert(final(app).items.baseline.block_models@[i] == epochs(final(app).items.block_models@)[i]);
        }
        if i < old(app).items.drill_holes@.len() {
            assert(epochs(final(app).items.drill_holes@)[i].0 == final(app).items.drill_holes@[i].id);
            assert(final(app).items.baseline.drill_holes@[i] == epochs(final(app).items.drill_holes@)[i]);
        }
        if i < old(app).items.point_clouds@.len() {
            assert(epochs(final(app).items.point_clouds@)[i].0 == final(app).items.point_clouds@[i].id);
            assert(final(app).items.baseline.point_clouds@[i] == epochs(final(app).items.point_clouds@)[i]);
        }
        if i < old(app).items.rasters@.len() {
            assert(epochs(final(app).items.rasters@)[i].0 == final(app).items.rasters@[i].id);
            assert(final(app).items.baseline.rasters@[i] == epochs(final(app).items.rasters@)[i]);
        }
    }
    if old(app).workspace.active() is Some {
        let now = final(app).workspace.active()->0;
        assert(final(app).items.baseline.folders.section_names(crate::model::SectionKind::Designs)
            == now.folders.section_names(crate::model::SectionKind::Designs));
    }
}

/// A save that starts now holds every item at the epoch it stands at, and the open
/// project's folders.
pub proof fn a_save_starts_with_what_is_there<P>(app: &App<P>, i: int, token: SaveToken)
    requires
        call_ensures(App::<P>::project_asset_save_token, (app,), token),
    ensures
        token.triangulations@.len() == app.items.triangulations@.len(),
        0 <= i < app.items.triangulations@.len() ==> token.triangulations@[i].0 == app.items.triangulations@[i].id
            && token.triangulations@[i].1 == app.items.triangulations@[i].state.epoch,
        token.block_models@.len() == app.items.block_models@.len(),
        0 <= i < app.items.block_models@.len() ==> token.block_models@[i].0 == app.items.block_models@[i].id
            && token.block_models@[i].1 == app.items.block_models@[i].state.epoch,
        token.drill_holes@.len() == app.items.drill_holes@.len(),
        0 <= i < app.items.drill_holes@.len() ==> token.drill_holes@[i].0 == app.items.drill_holes@[i].id
            && token.drill_holes@[i].1 == app.items.drill_holes@[i].state.epoch,
        token.point_clouds@.len() == app.items.point_clouds@.len(),
        0 <= i < app.items.point_clouds@.len() ==> token.point_clouds@[i].0 == app.items.point_clouds@[i].id
            && token.point_clouds@[i].1 == app.items.point_clouds@[i].state.epoch,
        token.rasters@.len() == app.items.rasters@.len(),
        0 <= i < app.items.rasters@.len() ==> token.rasters@[i].0 == app.items.rasters@[i].id
            && token.rasters@[i].1 == app.items.rasters@[i].state.epoch,
        app.workspace.active() is Some ==> token.folders.same(
            &app.workspace.active()->0.folders,
        ),
{
}

} // verus!
