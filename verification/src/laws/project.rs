//! Projects, documents and folders.
use crate::model::SectionKind;
use crate::project::{
    first_layer, first_object, Document, Folders, Layer, ObjectRow, OpenProject,
    ProjectStore,
};
use vstd::prelude::*;

verus! {

/// The active project is the one that the index points at; an index beyond the
/// list, or none, points at no project.
pub proof fn the_index_tells_the_active_project(store: &ProjectStore, project: Option<&OpenProject>)
    requires
        call_ensures(ProjectStore::active_project, (store,), project),
    ensures
        project is Some <==> store.active_index is Some && store.active_index->0
            < store.projects@.len(),
        project is Some ==> *project->0 == store.projects@[store.active_index->0 as int],
        store.active() is Some <==> project is Some,
        project is Some ==> store.active()->0 == *project->0,
{
}

/// A project that is added stands last, is the active one, and is known by a
/// runtime id that no project was given since ids began again.
pub proof fn an_added_project_is_the_active_one(
    store: &mut ProjectStore,
    project: OpenProject,
    index: usize,
)
    requires
        call_ensures(ProjectStore::add_and_activate, (store, project), index),
    ensures
        final(store).projects@.len() == old(store).projects@.len() + 1,
        final(store).projects@.drop_last() == old(store).projects@,
        final(store).active_index == Some(index),
        index == old(store).projects@.len(),
        final(store).active() is Some,
        final(store).active()->0.runtime_id == old(store).next_runtime_id,
        final(store).active()->0.name == project.name,
        final(store).active()->0.id == project.id,
        final(store).active()->0.path == project.path,
        final(store).active()->0.document == project.document,
        final(store).active()->0.folders == project.folders,
        final(store).active()->0.unsaved == project.unsaved,
        final(store).active()->0.persistence == project.persistence,
        old(store).next_runtime_id < u32::MAX ==> final(store).next_runtime_id == old(
            store,
        ).next_runtime_id + 1,
{
    assert(final(store).projects@.drop_last() =~= old(store).projects@);
}

/// The layer that is found is one of the document with that id, and none before
/// it has the id; where none is found, none has it.
pub proof fn layers_are_found_by_id(document: &Document, id: u64, layer: Option<&Layer>)
    requires
        call_ensures(Document::layer, (document, id), layer),
    ensures
        layer is Some ==> exists|i: int|
            0 <= i < document.layers@.len() && #[trigger] document.layers@[i] == *layer->0
                && document.layers@[i].id == id && forall|j: int|
                0 <= j < i ==> (#[trigger] document.layers@[j]).id != id,
        layer is None ==> forall|j: int|
            0 <= j < document.layers@.len() ==> (#[trigger] document.layers@[j]).id != id,
{
    lemma_layer(document.layers@, id);
}

/// Where the first layer with an id stands.
pub proof fn lemma_layer(layers: Seq<Layer>, id: u64)
    ensures
        first_layer(layers, id) is Some ==> exists|i: int|
            0 <= i < layers.len() && #[trigger] layers[i] == first_layer(layers, id)->0
                && layers[i].id == id && forall|j: int| 0 <= j < i ==> (#[trigger] layers[j]).id
                != id,
        first_layer(layers, id) is None ==> forall|j: int|
            0 <= j < layers.len() ==> (#[trigger] layers[j]).id != id,
    decreases layers.len(),
{
    if layers.len() > 0 {
        let rest = layers.drop_first();
        if layers[0].id == id {
            assert(layers[0] == first_layer(layers, id)->0);
        } else {
            lemma_layer(rest, id);
            if first_layer(layers, id) is Some {
                let i = choose|i: int|
                    0 <= i < rest.len() && #[trigger] rest[i] == first_layer(rest, id)->0
                        && rest[i].id == id && forall|j: int| 0 <= j < i ==> (
                    #[trigger] rest[j]).id != id;
                assert(layers[i + 1] == first_layer(layers, id)->0);
                assert forall|j: int| 0 <= j < i + 1 implies (#[trigger] layers[j]).id != id by {
                    if j > 0 {
                        assert(rest[j - 1] == layers[j]);
                    }
                }
            } else {
                assert forall|j: int| 0 <= j < layers.len() implies (#[trigger] layers[j]).id
                    != id by {
                    if j > 0 {
                        assert(rest[j - 1] == layers[j]);
                    }
                }
            }
        }
    }
}

/// The object that is found is one of the document with that id, and none before
/// it has the id; where none is found, none has it.
pub proof fn objects_are_found_by_id(document: &Document, id: u64, object: Option<ObjectRow>)
    requires
        call_ensures(Document::get_object, (document, id), object),
    ensures
        object is Some ==> exists|i: int|
            0 <= i < document.objects@.len() && #[trigger] document.objects@[i] == object->0
                && document.objects@[i].id == id && forall|j: int|
                0 <= j < i ==> (#[trigger] document.objects@[j]).id != id,
        object is None ==> forall|j: int|
            0 <= j < document.objects@.len() ==> (#[trigger] document.objects@[j]).id != id,
{
    lemma_object(document.objects@, id);
}

/// Where the first object with an id stands.
pub proof fn lemma_object(objects: Seq<ObjectRow>, id: u64)
    ensures
        first_object(objects, id) is Some ==> exists|i: int|
            0 <= i < objects.len() && #[trigger] objects[i] == first_object(objects, id)->0
                && objects[i].id == id && forall|j: int| 0 <= j < i ==> (#[trigger] objects[j]).id
                != id,
        first_object(objects, id) is None ==> forall|j: int|
            0 <= j < objects.len() ==> (#[trigger] objects[j]).id != id,
    decreases objects.len(),
{
    if objects.len() > 0 {
        let rest = objects.drop_first();
        if objects[0].id == id {
            assert(objects[0] == first_object(objects, id)->0);
        } else {
            lemma_object(rest, id);
            if first_object(objects, id) is Some {
                let i = choose|i: int|
                    0 <= i < rest.len() && #[trigger] rest[i] == first_object(rest, id)->0
                        && rest[i].id == id && forall|j: int| 0 <= j < i ==> (
                    #[trigger] rest[j]).id != id;
                assert(objects[i + 1] == first_object(objects, id)->0);
                assert forall|j: int| 0 <= j < i + 1 implies (#[trigger] objects[j]).id != id by {
                    if j > 0 {
                        assert(rest[j - 1] == objects[j]);
                    }
                }
            } else {
                assert forall|j: int| 0 <= j < objects.len() implies (#[trigger] objects[j]).id
                    != id by {
                    if j > 0 {
                        assert(rest[j - 1] == objects[j]);
                    }
                }
            }
        }
    }
}

/// A layer counts as loaded if the document has it and it is loaded; an object,
/// if the document has it on such a layer. Neither without the layer, or while
/// that is unloaded.
pub proof fn loaded_means_on_a_loaded_layer(
    document: &Document,
    layer: int,
    object: int,
    layer_loaded: bool,
    object_loaded: bool,
)
    requires
        0 <= layer < document.layers@.len(),
        forall|j: int|
            0 <= j < layer ==> (#[trigger] document.layers@[j]).id != document.layers@[layer].id,
        0 <= object < document.objects@.len(),
        forall|j: int|
            0 <= j < object ==> (#[trigger] document.objects@[j]).id
                != document.objects@[object].id,
        call_ensures(
            Document::has_loaded_layer,
            (document, document.layers@[layer].id),
            layer_loaded,
        ),
        call_ensures(
            Document::has_loaded_object,
            (document, document.objects@[object].id),
            object_loaded,
        ),
    ensures
        layer_loaded == document.layers@[layer].loaded,
        document.objects@[object].layer == document.layers@[layer].id ==> object_loaded
            == document.layers@[layer].loaded,
        (forall|l: int|
            0 <= l < document.layers@.len() ==> (#[trigger] document.layers@[l]).id
                != document.objects@[object].layer) ==> !object_loaded,
{
    let id = document.objects@[object].id;
    lemma_layer(document.layers@, document.layers@[layer].id);
    lemma_object(document.objects@, id);
    lemma_layer(document.layers@, document.objects@[object].layer);
    let i = choose|i: int|
        0 <= i < document.objects@.len() && #[trigger] document.objects@[i] == first_object(
            document.objects@,
            id,
        )->0 && document.objects@[i].id == id && forall|j: int|
            0 <= j < i ==> (#[trigger] document.objects@[j]).id != id;
    assert(i == object);
    let l = choose|l: int|
        0 <= l < document.layers@.len() && #[trigger] document.layers@[l] == first_layer(
            document.layers@,
            document.layers@[layer].id,
        )->0 && document.layers@[l].id == document.layers@[layer].id && forall|j: int|
            0 <= j < l ==> (#[trigger] document.layers@[j]).id != document.layers@[layer].id;
    assert(l == layer);
}

/// What the document does not have is not loaded.
pub proof fn what_is_not_there_is_not_loaded(
    document: &Document,
    id: u64,
    layer_loaded: bool,
    object_loaded: bool,
)
    requires
        call_ensures(Document::has_loaded_layer, (document, id), layer_loaded),
        call_ensures(Document::has_loaded_object, (document, id), object_loaded),
    ensures
        (forall|l: int| 0 <= l < document.layers@.len() ==> (#[trigger] document.layers@[l]).id != id)
            ==> !layer_loaded,
        (forall|i: int|
            0 <= i < document.objects@.len() ==> (#[trigger] document.objects@[i]).id != id)
            ==> !object_loaded,
{
    lemma_layer(document.layers@, id);
    lemma_object(document.objects@, id);
}

/// A document can be drawn if some object of it stands on a loaded layer, and only
/// then.
pub proof fn objects_on_loaded_layers_can_be_drawn(document: &Document, i: int, l: int, yes: bool)
    requires
        call_ensures(Document::holds_renderables, (document,), yes),
    ensures
        0 <= i < document.objects@.len() && 0 <= l < document.layers@.len()
            && document.layers@[l].id == document.objects@[i].layer && document.layers@[l].loaded
            && (forall|j: int|
            0 <= j < l ==> (#[trigger] document.layers@[j]).id != document.layers@[l].id) ==> yes,
        (forall|k: int| 0 <= k < document.layers@.len() ==> !(#[trigger] document.layers@[k]).loaded)
            ==> !yes,
        document.objects@.len() == 0 ==> !yes,
{
    if 0 <= i < document.objects@.len() && 0 <= l < document.layers@.len() {
        lemma_layer(document.layers@, document.layers@[l].id);
    }
    if yes {
        let k = choose|k: int|
            0 <= k < document.objects@.len() && document.layer_is_loaded(
                (#[trigger] document.objects@[k]).layer,
            );
        lemma_layer(document.layers@, document.objects@[k].layer);
    }
}

/// Each section has its own list of folders.
pub proof fn sections_have_their_own_folders(folders: &Folders, i: int)
    ensures
        folders.section_names(SectionKind::Designs).len() == folders.designs@.len(),
        folders.section_names(SectionKind::Triangulations).len() == folders.triangulations@.len(),
        folders.section_names(SectionKind::BlockModels).len() == folders.block_models@.len(),
        folders.section_names(SectionKind::DrillHoles).len() == folders.drill_holes@.len(),
        folders.section_names(SectionKind::PointClouds).len() == folders.point_clouds@.len(),
        folders.section_names(SectionKind::Rasters).len() == folders.rasters@.len(),
        0 <= i < folders.designs@.len() ==> folders.section_names(SectionKind::Designs)[i]
            == folders.designs@[i]@,
        0 <= i < folders.triangulations@.len() ==> folders.section_names(
            SectionKind::Triangulations,
        )[i] == folders.triangulations@[i]@,
        0 <= i < folders.block_models@.len() ==> folders.section_names(SectionKind::BlockModels)[i]
            == folders.block_models@[i]@,
        0 <= i < folders.drill_holes@.len() ==> folders.section_names(SectionKind::DrillHoles)[i]
            == folders.drill_holes@[i]@,
        0 <= i < folders.point_clouds@.len() ==> folders.section_names(SectionKind::PointClouds)[i]
            == folders.point_clouds@[i]@,
        0 <= i < folders.rasters@.len() ==> folders.section_names(SectionKind::Rasters)[i]
            == folders.rasters@[i]@,
{
}

/// Folders that are the same hold the same names in every section.
pub proof fn same_folders_hold_the_same_names(a: &Folders, b: &Folders)
    requires
        a.same(b),
    ensures
        a.designs@.len() == b.designs@.len(),
        a.triangulations@.len() == b.triangulations@.len(),
        a.block_models@.len() == b.block_models@.len(),
        a.drill_holes@.len() == b.drill_holes@.len(),
        a.point_clouds@.len() == b.point_clouds@.len(),
        a.rasters@.len() == b.rasters@.len(),
        forall|i: int|
            0 <= i < a.designs@.len() ==> (#[trigger] a.designs@[i])@ == b.designs@[i]@,
        forall|i: int|
            0 <= i < a.triangulations@.len() ==> (#[trigger] a.triangulations@[i])@
                == b.triangulations@[i]@,
        forall|i: int|
            0 <= i < a.block_models@.len() ==> (#[trigger] a.block_models@[i])@
                == b.block_models@[i]@,
        forall|i: int|
            0 <= i < a.drill_holes@.len() ==> (#[trigger] a.drill_holes@[i])@
                == b.drill_holes@[i]@,
        forall|i: int|
            0 <= i < a.point_clouds@.len() ==> (#[trigger] a.point_clouds@[i])@
                == b.point_clouds@[i]@,
        forall|i: int|
            0 <= i < a.rasters@.len() ==> (#[trigger] a.rasters@[i])@ == b.rasters@[i]@,
{
    assert(a.section_names(SectionKind::Designs) == b.section_names(SectionKind::Designs));
    assert(a.section_names(SectionKind::Triangulations) == b.section_names(
        SectionKind::Triangulations,
    ));
    assert(a.section_names(SectionKind::BlockModels) == b.section_names(SectionKind::BlockModels));
    assert(a.section_names(SectionKind::DrillHoles) == b.section_names(SectionKind::DrillHoles));
    assert(a.section_names(SectionKind::PointClouds) == b.section_names(SectionKind::PointClouds));
    assert(a.section_names(SectionKind::Rasters) == b.section_names(SectionKind::Rasters));
    sections_have_their_own_folders(a, 0);
    sections_have_their_own_folders(b, 0);
    assert forall|i: int| 0 <= i < a.designs@.len() implies (#[trigger] a.designs@[i])@
        == b.designs@[i]@ by {
        assert(a.section_names(SectionKind::Designs)[i] == b.section_names(SectionKind::Designs)[i]);
    }
    assert forall|i: int| 0 <= i < a.triangulations@.len() implies (#[trigger] a.triangulations@[i])@
        == b.triangulations@[i]@ by {
        assert(a.section_names(SectionKind::Triangulations)[i] == b.section_names(
            SectionKind::Triangulations,
        )[i]);
    }
    assert forall|i: int| 0 <= i < a.block_models@.len() implies (#[trigger] a.block_models@[i])@
        == b.block_models@[i]@ by {
        assert(a.section_names(SectionKind::BlockModels)[i] == b.section_names(
            SectionKind::BlockModels,
        )[i]);
    }
    assert forall|i: int| 0 <= i < a.drill_holes@.len() implies (#[trigger] a.drill_holes@[i])@
        == b.drill_holes@[i]@ by {
        assert(a.section_names(SectionKind::DrillHoles)[i] == b.section_names(
            SectionKind::DrillHoles,
        )[i]);
    }
    assert forall|i: int| 0 <= i < a.point_clouds@.len() implies (#[trigger] a.point_clouds@[i])@
        == b.point_clouds@[i]@ by {
        assert(a.section_names(SectionKind::PointClouds)[i] == b.section_names(
            SectionKind::PointClouds,
        )[i]);
    }
    assert forall|i: int| 0 <= i < a.rasters@.len() implies (#[trigger] a.rasters@[i])@
        == b.rasters@[i]@ by {
        assert(a.section_names(SectionKind::Rasters)[i] == b.section_names(SectionKind::Rasters)[i]);
    }
}

/// A project that counts as saved has no unsaved work, no layer that changed since,
/// and a savepoint at its document as it stands; nothing else about it changed.
pub proof fn a_saved_project_is_at_its_savepoint(project: &mut OpenProject)
    requires
        call_ensures(OpenProject::mark_saved, (project,), ()),
    ensures
        !final(project).unsaved,
        final(project).dirty_layers@.len() == 0,
        final(project).savepoint_revision == final(project).document.revision,
        final(project).document == old(project).document,
        final(project).name == old(project).name,
        final(project).id == old(project).id,
        final(project).runtime_id == old(project).runtime_id,
        final(project).path == old(project).path,
        final(project).persistence == old(project).persistence,
        final(project).folders == old(project).folders,
        final(project).content_epoch == old(project).content_epoch,
        final(project).lossy_save_warnings == old(project).lossy_save_warnings,
        final(project).lossy_save_confirmed == old(project).lossy_save_confirmed,
        final(project).name_rank == old(project).name_rank,
        final(project).path_rank == old(project).path_rank,
{
}

/// A project is found by what it holds: the first whose document has the object, or
/// the layer.
pub proof fn projects_are_found_by_what_they_hold(
    store: &ProjectStore,
    id: u64,
    by_object: Option<usize>,
    by_layer: Option<usize>,
    p: int,
    i: int,
)
    requires
        call_ensures(ProjectStore::project_index_for_object, (store, id), by_object),
        call_ensures(ProjectStore::project_index_for_layer, (store, id), by_layer),
    ensures
        0 <= p < store.projects@.len() && 0 <= i < store.projects@[p].document.objects@.len()
            && store.projects@[p].document.objects@[i].id == id ==> by_object is Some
            && by_object->0 <= p,
        0 <= p < store.projects@.len() && 0 <= i < store.projects@[p].document.layers@.len()
            && store.projects@[p].document.layers@[i].id == id ==> by_layer is Some && by_layer->0
            <= p,
        by_object is Some ==> by_object->0 < store.projects@.len() && exists|k: int|
            0 <= k < store.projects@[by_object->0 as int].document.objects@.len() && (
            #[trigger] store.projects@[by_object->0 as int].document.objects@[k]).id == id,
        by_layer is Some ==> by_layer->0 < store.projects@.len() && exists|k: int|
            0 <= k < store.projects@[by_layer->0 as int].document.layers@.len() && (
            #[trigger] store.projects@[by_layer->0 as int].document.layers@[k]).id == id,
{
    if 0 <= p < store.projects@.len() {
        lemma_object(store.projects@[p].document.objects@, id);
        lemma_layer(store.projects@[p].document.layers@, id);
    }
    if by_object is Some {
        lemma_object(store.projects@[by_object->0 as int].document.objects@, id);
    }
    if by_layer is Some {
        lemma_layer(store.projects@[by_layer->0 as int].document.layers@, id);
    }
}

} // verus!
