//! Items: finding them, what is unsaved of them, and what a save counts as saved.
use crate::items::{distinct_ids, ProjectItems, SaveToken};
use crate::model::{
    epochs, first_item, ids, ItemRef, OpenItem, SceneEntityId,
};
use crate::project::Folders;
use vstd::prelude::*;

verus! {

/// Where the first item with an id stands.
pub proof fn lemma_item<D>(items: Seq<OpenItem<D>>, id: u64)
    ensures
        first_item(items, id) is Some ==> exists|i: int|
            0 <= i < items.len() && #[trigger] items[i] == first_item(items, id)->0 && items[i].id
                == id && forall|j: int| 0 <= j < i ==> (#[trigger] items[j]).id != id,
        first_item(items, id) is None ==> forall|j: int|
            0 <= j < items.len() ==> (#[trigger] items[j]).id != id,
    decreases items.len(),
{
    if items.len() > 0 {
        let rest = items.drop_first();
        if items[0].id == id {
            assert(items[0] == first_item(items, id)->0);
        } else {
            lemma_item(rest, id);
            if first_item(items, id) is Some {
                let i = choose|i: int|
                    0 <= i < rest.len() && #[trigger] rest[i] == first_item(rest, id)->0
                        && rest[i].id == id && forall|j: int| 0 <= j < i ==> (
                    #[trigger] rest[j]).id != id;
                assert(items[i + 1] == first_item(items, id)->0);
                assert forall|j: int| 0 <= j < i + 1 implies (#[trigger] items[j]).id != id by {
                    if j > 0 {
                        assert(rest[j - 1] == items[j]);
                    }
                }
            } else {
                assert forall|j: int| 0 <= j < items.len() implies (#[trigger] items[j]).id
                    != id by {
                    if j > 0 {
                        assert(rest[j - 1] == items[j]);
                    }
                }
            }
        }
    }
}

/// The item at a place, where no earlier one shares its id, is the one that its id
/// finds.
pub proof fn lemma_found<D>(items: Seq<OpenItem<D>>, k: int)
    requires
        0 <= k < items.len(),
        forall|j: int| 0 <= j < k ==> (#[trigger] items[j]).id != items[k].id,
    ensures
        first_item(items, items[k].id) == Some(items[k]),
{
    let id = items[k].id;
    lemma_item(items, id);
    if first_item(items, id) is Some {
        let i = choose|i: int|
            0 <= i < items.len() && #[trigger] items[i] == first_item(items, id)->0 && items[i].id
                == id && forall|j: int| 0 <= j < i ==> (#[trigger] items[j]).id != id;
        assert(i == k);
    }
}

/// The presentation of an item is that of the item with its id, in the list of its
/// own kind; an id that the list does not hold has none.
pub proof fn items_are_styled_by_their_own_list(
    items: &ProjectItems,
    item: ItemRef,
    k: int,
    style: Option<u64>,
)
    requires
        call_ensures(ProjectItems::item_style, (items, item), style),
    ensures
        match item {
            ItemRef::Triangulation(id) => {
                &&& 0 <= k < items.triangulations@.len() && items.triangulations@[k].id == id && (forall|j: int|
                    0 <= j < k ==> (#[trigger] items.triangulations@[j]).id != id) ==> style == Some(items.triangulations@[k].state.style)
                &&& (forall|j: int|
                    0 <= j < items.triangulations@.len() ==> (#[trigger] items.triangulations@[j]).id != id) ==> style is None
            },
            ItemRef::BlockModel(id) => {
                &&& 0 <= k < items.block_models@.len() && items.block_models@[k].id == id && (forall|j: int|
                    0 <= j < k ==> (#[trigger] items.block_models@[j]).id != id) ==> style == Some(items.block_models@[k].state.style)
                &&& (forall|j: int|
                    0 <= j < items.block_models@.len() ==> (#[trigger] items.block_models@[j]).id != id) ==> style is None
            },
            ItemRef::DrillHole(id) => {
                &&& 0 <= k < items.drill_holes@.len() && items.drill_holes@[k].id == id && (forall|j: int|
                    0 <= j < k ==> (#[trigger] items.drill_holes@[j]).id != id) ==> style == Some(items.drill_holes@[k].state.style)
                &&& (forall|j: int|
                    0 <= j < items.drill_holes@.len() ==> (#[trigger] items.drill_holes@[j]).id != id) ==> style is None
            },
            ItemRef::PointCloud(id) => {
                &&& 0 <= k < items.point_clouds@.len() && items.point_clouds@[k].id == id && (forall|j: int|
                    0 <= j < k ==> (#[trigger] items.point_clouds@[j]).id != id) ==> style == Some(items.point_clouds@[k].state.style)
                &&& (forall|j: int|
                    0 <= j < items.point_clouds@.len() ==> (#[trigger] items.point_clouds@[j]).id != id) ==> style is None
            },
            ItemRef::Raster(id) => {
                &&& 0 <= k < items.rasters@.len() && items.rasters@[k].id == id && (forall|j: int|
                    0 <= j < k ==> (#[trigger] items.rasters@[j]).id != id) ==> style == Some(items.rasters@[k].state.style)
                &&& (forall|j: int|
                    0 <= j < items.rasters@.len() ==> (#[trigger] items.rasters@[j]).id != id) ==> style is None
            },
        },
{
    match item {
        ItemRef::Triangulation(id) => {
            lemma_item(items.triangulations@, id);
            if 0 <= k < items.triangulations@.len() && items.triangulations@[k].id == id && (forall|j: int|
                0 <= j < k ==> (#[trigger] items.triangulations@[j]).id != id) {
                lemma_found(items.triangulations@, k);
            }
        },
        ItemRef::BlockModel(id) => {
            lemma_item(items.block_models@, id);
            if 0 <= k < items.block_models@.len() && items.block_models@[k].id == id && (forall|j: int|
                0 <= j < k ==> (#[trigger] items.block_models@[j]).id != id) {
                lemma_found(items.block_models@, k);
            }
        },
        ItemRef::DrillHole(id) => {
            lemma_item(items.drill_holes@, id);
            if 0 <= k < items.drill_holes@.len() && items.drill_holes@[k].id == id && (forall|j: int|
                0 <= j < k ==> (#[trigger] items.drill_holes@[j]).id != id) {
                lemma_found(items.drill_holes@, k);
            }
        },
        ItemRef::PointCloud(id) => {
            lemma_item(items.point_clouds@, id);
            if 0 <= k < items.point_clouds@.len() && items.point_clouds@[k].id == id && (forall|j: int|
                0 <= j < k ==> (#[trigger] items.point_clouds@[j]).id != id) {
                lemma_found(items.point_clouds@, k);
            }
        },
        ItemRef::Raster(id) => {
            lemma_item(items.rasters@, id);
            if 0 <= k < items.rasters@.len() && items.rasters@[k].id == id && (forall|j: int|
                0 <= j < k ==> (#[trigger] items.rasters@[j]).id != id) {
                lemma_found(items.rasters@, k);
            }
        },
    }
}

/// An item waits on disk if the item with its id, in the list of its own kind, does;
/// an id that the list does not hold does not.
pub proof fn items_wait_by_their_own_list(
    items: &ProjectItems,
    item: ItemRef,
    k: int,
    yes: bool,
)
    requires
        call_ensures(ProjectItems::is_deferred, (items, item), yes),
    ensures
        match item {
            ItemRef::Triangulation(id) => {
                &&& 0 <= k < items.triangulations@.len() && items.triangulations@[k].id == id && (forall|j: int|
                    0 <= j < k ==> (#[trigger] items.triangulations@[j]).id != id) ==> yes == items.triangulations@[k].state.deferred
                &&& (forall|j: int|
                    0 <= j < items.triangulations@.len() ==> (#[trigger] items.triangulations@[j]).id != id) ==> !yes
            },
            ItemRef::BlockModel(id) => {
                &&& 0 <= k < items.block_models@.len() && items.block_models@[k].id == id && (forall|j: int|
                    0 <= j < k ==> (#[trigger] items.block_models@[j]).id != id) ==> yes == items.block_models@[k].state.deferred
                &&& (forall|j: int|
                    0 <= j < items.block_models@.len() ==> (#[trigger] items.block_models@[j]).id != id) ==> !yes
            },
            ItemRef::DrillHole(id) => {
                &&& 0 <= k < items.drill_holes@.len() && items.drill_holes@[k].id == id && (forall|j: int|
                    0 <= j < k ==> (#[trigger] items.drill_holes@[j]).id != id) ==> yes == items.drill_holes@[k].state.deferred
                &&& (forall|j: int|
                    0 <= j < items.drill_holes@.len() ==> (#[trigger] items.drill_holes@[j]).id != id) ==> !yes
            },
            ItemRef::PointCloud(id) => {
                &&& 0 <= k < items.point_clouds@.len() && items.point_clouds@[k].id == id && (forall|j: int|
                    0 <= j < k ==> (#[trigger] items.point_clouds@[j]).id != id) ==> yes == items.point_clouds@[k].state.deferred
                &&& (forall|j: int|
                    0 <= j < items.point_clouds@.len() ==> (#[trigger] items.point_clouds@[j]).id != id) ==> !yes
            },
            ItemRef::Raster(id) => {
                &&& 0 <= k < items.rasters@.len() && items.rasters@[k].id == id && (forall|j: int|
                    0 <= j < k ==> (#[trigger] items.rasters@[j]).id != id) ==> yes == items.rasters@[k].state.deferred
                &&& (forall|j: int|
                    0 <= j < items.rasters@.len() ==> (#[trigger] items.rasters@[j]).id != id) ==> !yes
            },
        },
{
    match item {
        ItemRef::Triangulation(id) => {
            lemma_item(items.triangulations@, id);
            if 0 <= k < items.triangulations@.len() && items.triangulations@[k].id == id && (forall|j: int|
                0 <= j < k ==> (#[trigger] items.triangulations@[j]).id != id) {
                lemma_found(items.triangulations@, k);
            }
        },
        ItemRef::BlockModel(id) => {
            lemma_item(items.block_models@, id);
            if 0 <= k < items.block_models@.len() && items.block_models@[k].id == id && (forall|j: int|
                0 <= j < k ==> (#[trigger] items.block_models@[j]).id != id) {
                lemma_found(items.block_models@, k);
            }
        },
        ItemRef::DrillHole(id) => {
            lemma_item(items.drill_holes@, id);
            if 0 <= k < items.drill_holes@.len() && items.drill_holes@[k].id == id && (forall|j: int|
                0 <= j < k ==> (#[trigger] items.drill_holes@[j]).id != id) {
                lemma_found(items.drill_holes@, k);
            }
        },
        ItemRef::PointCloud(id) => {
            lemma_item(items.point_clouds@, id);
            if 0 <= k < items.point_clouds@.len() && items.point_clouds@[k].id == id && (forall|j: int|
                0 <= j < k ==> (#[trigger] items.point_clouds@[j]).id != id) {
                lemma_found(items.point_clouds@, k);
            }
        },
        ItemRef::Raster(id) => {
            lemma_item(items.rasters@, id);
            if 0 <= k < items.rasters@.len() && items.rasters@[k].id == id && (forall|j: int|
                0 <= j < k ==> (#[trigger] items.rasters@[j]).id != id) {
                lemma_found(items.rasters@, k);
            }
        },
    }
}

/// The project holds what an entity stands for if the list of its own kind has an
/// item with its id, and only then; an object is never an item.
pub proof fn entities_are_held_by_their_own_list(
    items: &ProjectItems,
    entity: SceneEntityId,
    yes: bool,
)
    requires
        call_ensures(ProjectItems::has_entity, (items, entity), yes),
    ensures
        match entity {
            SceneEntityId::Object(_) => !yes,
            SceneEntityId::Triangulation(id) => yes <==> exists|k: int|
                0 <= k < items.triangulations@.len() && (#[trigger] items.triangulations@[k]).id == id,
            SceneEntityId::BlockModel(id) => yes <==> exists|k: int|
                0 <= k < items.block_models@.len() && (#[trigger] items.block_models@[k]).id == id,
            SceneEntityId::DrillHole(id) => yes <==> exists|k: int|
                0 <= k < items.drill_holes@.len() && (#[trigger] items.drill_holes@[k]).id == id,
            SceneEntityId::PointCloud(id) => yes <==> exists|k: int|
                0 <= k < items.point_clouds@.len() && (#[trigger] items.point_clouds@[k]).id == id,
            SceneEntityId::Raster(id) => yes <==> exists|k: int|
                0 <= k < items.rasters@.len() && (#[trigger] items.rasters@[k]).id == id,
        },
{
}

/// There are unsaved items if an item of any kind changed since it was saved, if
/// one was not there when its kind was saved, or if their number is another.
pub proof fn unsaved_items_are_noticed(items: &ProjectItems, i: int, yes: bool)
    requires
        call_ensures(ProjectItems::has_unsaved_items, (items,), yes),
    ensures
        0 <= i < items.triangulations@.len() && items.triangulations@[i].state.epoch
            != items.triangulations@[i].state.saved_epoch ==> yes,
        items.triangulations@.len() != items.baseline.triangulations@.len() ==> yes,
        0 <= i < items.triangulations@.len() && (forall|k: int|
            0 <= k < items.baseline.triangulations@.len() ==> (#[trigger] items.baseline.triangulations@[k]).0
                != items.triangulations@[i].id) ==> yes,
        0 <= i < items.block_models@.len() && items.block_models@[i].state.epoch
            != items.block_models@[i].state.saved_epoch ==> yes,
        items.block_models@.len() != items.baseline.block_models@.len() ==> yes,
        0 <= i < items.block_models@.len() && (forall|k: int|
            0 <= k < items.baseline.block_models@.len() ==> (#[trigger] items.baseline.block_models@[k]).0
                != items.block_models@[i].id) ==> yes,
        0 <= i < items.drill_holes@.len() && items.drill_holes@[i].state.epoch
            != items.drill_holes@[i].state.saved_epoch ==> yes,
        items.drill_holes@.len() != items.baseline.drill_holes@.len() ==> yes,
        0 <= i < items.drill_holes@.len() && (forall|k: int|
            0 <= k < items.baseline.drill_holes@.len() ==> (#[trigger] items.baseline.drill_holes@[k]).0
                != items.drill_holes@[i].id) ==> yes,
        0 <= i < items.point_clouds@.len() && items.point_clouds@[i].state.epoch
            != items.point_clouds@[i].state.saved_epoch ==> yes,
        items.point_clouds@.len() != items.baseline.point_clouds@.len() ==> yes,
        0 <= i < items.point_clouds@.len() && (forall|k: int|
            0 <= k < items.baseline.point_clouds@.len() ==> (#[trigger] items.baseline.point_clouds@[k]).0
                != items.point_clouds@[i].id) ==> yes,
        0 <= i < items.rasters@.len() && items.rasters@[i].state.epoch
            != items.rasters@[i].state.saved_epoch ==> yes,
        items.rasters@.len() != items.baseline.rasters@.len() ==> yes,
        0 <= i < items.rasters@.len() && (forall|k: int|
            0 <= k < items.baseline.rasters@.len() ==> (#[trigger] items.baseline.rasters@[k]).0
                != items.rasters@[i].id) ==> yes,
{
    if 0 <= i {
        if i < items.triangulations@.len() {
            assert(ids(items.triangulations@)[i] == items.triangulations@[i].id);
        }
        if i < items.block_models@.len() {
            assert(ids(items.block_models@)[i] == items.block_models@[i].id);
        }
        if i < items.drill_holes@.len() {
            assert(ids(items.drill_holes@)[i] == items.drill_holes@[i].id);
        }
        if i < items.point_clouds@.len() {
            assert(ids(items.point_clouds@)[i] == items.point_clouds@[i].id);
        }
        if i < items.rasters@.len() {
            assert(ids(items.rasters@)[i] == items.rasters@[i].id);
        }
    }
}

/// Where every item stands at the epoch that was saved, and was saved, and none is
/// gone, there is nothing unsaved.
pub proof fn saved_items_are_not_unsaved(items: &ProjectItems, yes: bool)
    requires
        call_ensures(ProjectItems::has_unsaved_items, (items,), yes),
        items.triangulations@.len() == items.baseline.triangulations@.len(),
        forall|i: int|
            0 <= i < items.triangulations@.len() ==> (#[trigger] items.triangulations@[i]).state.epoch
                == items.triangulations@[i].state.saved_epoch && items.baseline.triangulations@[i].0
                == items.triangulations@[i].id,
        items.block_models@.len() == items.baseline.block_models@.len(),
        forall|i: int|
            0 <= i < items.block_models@.len() ==> (#[trigger] items.block_models@[i]).state.epoch
                == items.block_models@[i].state.saved_epoch && items.baseline.block_models@[i].0
                == items.block_models@[i].id,
        items.drill_holes@.len() == items.baseline.drill_holes@.len(),
        forall|i: int|
            0 <= i < items.drill_holes@.len() ==> (#[trigger] items.drill_holes@[i]).state.epoch
                == items.drill_holes@[i].state.saved_epoch && items.baseline.drill_holes@[i].0
                == items.drill_holes@[i].id,
        items.point_clouds@.len() == items.baseline.point_clouds@.len(),
        forall|i: int|
            0 <= i < items.point_clouds@.len() ==> (#[trigger] items.point_clouds@[i]).state.epoch
                == items.point_clouds@[i].state.saved_epoch && items.baseline.point_clouds@[i].0
                == items.point_clouds@[i].id,
        items.rasters@.len() == items.baseline.rasters@.len(),
        forall|i: int|
            0 <= i < items.rasters@.len() ==> (#[trigger] items.rasters@[i]).state.epoch
                == items.rasters@[i].state.saved_epoch && items.baseline.rasters@[i].0
                == items.rasters@[i].id,
    ensures
        !yes,
{
    assert forall|i: int| 0 <= i < ids(items.triangulations@).len() implies crate::model::saved_holds(
        items.baseline.triangulations@,
        #[trigger] ids(items.triangulations@)[i],
    ) by {
        assert(items.baseline.triangulations@[i].0 == items.triangulations@[i].id);
    }
    assert forall|i: int| 0 <= i < ids(items.block_models@).len() implies crate::model::saved_holds(
        items.baseline.block_models@,
        #[trigger] ids(items.block_models@)[i],
    ) by {
        assert(items.baseline.block_models@[i].0 == items.block_models@[i].id);
    }
    assert forall|i: int| 0 <= i < ids(items.drill_holes@).len() implies crate::model::saved_holds(
        items.baseline.drill_holes@,
        #[trigger] ids(items.drill_holes@)[i],
    ) by {
        assert(items.baseline.drill_holes@[i].0 == items.drill_holes@[i].id);
    }
    assert forall|i: int| 0 <= i < ids(items.point_clouds@).len() implies crate::model::saved_holds(
        items.baseline.point_clouds@,
        #[trigger] ids(items.point_clouds@)[i],
    ) by {
        assert(items.baseline.point_clouds@[i].0 == items.point_clouds@[i].id);
    }
    assert forall|i: int| 0 <= i < ids(items.rasters@).len() implies crate::model::saved_holds(
        items.baseline.rasters@,
        #[trigger] ids(items.rasters@)[i],
    ) by {
        assert(items.baseline.rasters@[i].0 == items.rasters@[i].id);
    }
}

/// Items of some kind are loaded, or none now.
pub proof fn loaded_items_are_noticed(items: &ProjectItems, i: int, yes: bool)
    requires
        call_ensures(ProjectItems::has_loaded_items, (items,), yes),
    ensures
        0 <= i < items.triangulations@.len() && items.triangulations@[i].state.loaded ==> yes,
        0 <= i < items.block_models@.len() && items.block_models@[i].state.loaded ==> yes,
        0 <= i < items.drill_holes@.len() && items.drill_holes@[i].state.loaded ==> yes,
        0 <= i < items.point_clouds@.len() && items.point_clouds@[i].state.loaded ==> yes,
        0 <= i < items.rasters@.len() && items.rasters@[i].state.loaded ==> yes,
        yes ==> {
            ||| exists|k: int| 0 <= k < items.triangulations@.len() && (#[trigger] items.triangulations@[k]).state.loaded
            ||| exists|k: int| 0 <= k < items.block_models@.len() && (#[trigger] items.block_models@[k]).state.loaded
            ||| exists|k: int| 0 <= k < items.drill_holes@.len() && (#[trigger] items.drill_holes@[k]).state.loaded
            ||| exists|k: int| 0 <= k < items.point_clouds@.len() && (#[trigger] items.point_clouds@[k]).state.loaded
            ||| exists|k: int| 0 <= k < items.rasters@.len() && (#[trigger] items.rasters@[k]).state.loaded
        },
{
}

/// A save holds every item of every kind, in order, each at the epoch it stands at,
/// and the folders.
pub proof fn a_save_holds_every_item(
    items: &ProjectItems,
    folders: &Folders,
    i: int,
    token: SaveToken,
)
    requires
        call_ensures(ProjectItems::save_token, (items, folders), token),
    ensures
        token.triangulations@.len() == items.triangulations@.len(),
        0 <= i < items.triangulations@.len() ==> token.triangulations@[i].0 == items.triangulations@[i].id
            && token.triangulations@[i].1 == items.triangulations@[i].state.epoch,
        token.block_models@.len() == items.block_models@.len(),
        0 <= i < items.block_models@.len() ==> token.block_models@[i].0 == items.block_models@[i].id
            && token.block_models@[i].1 == items.block_models@[i].state.epoch,
        token.drill_holes@.len() == items.drill_holes@.len(),
        0 <= i < items.drill_holes@.len() ==> token.drill_holes@[i].0 == items.drill_holes@[i].id
            && token.drill_holes@[i].1 == items.drill_holes@[i].state.epoch,
        token.point_clouds@.len() == items.point_clouds@.len(),
        0 <= i < items.point_clouds@.len() ==> token.point_clouds@[i].0 == items.point_clouds@[i].id
            && token.point_clouds@[i].1 == items.point_clouds@[i].state.epoch,
        token.rasters@.len() == items.rasters@.len(),
        0 <= i < items.rasters@.len() ==> token.rasters@[i].0 == items.rasters@[i].id
            && token.rasters@[i].1 == items.rasters@[i].state.epoch,
        token.folders.same(folders),
{
}

/// Once everything counts as saved, every item of every kind stands at the epoch
/// that was saved, is otherwise as it was, and is in the baseline.
pub proof fn everything_counts_as_saved(items: &mut ProjectItems, folders: &Folders, i: int)
    requires
        call_ensures(ProjectItems::mark_all_saved, (items, folders), ()),
    ensures
        final(items).triangulations@.len() == old(items).triangulations@.len(),
        final(items).baseline.triangulations@.len() == old(items).triangulations@.len(),
        0 <= i < old(items).triangulations@.len() ==> {
            let was = old(items).triangulations@[i];
            let now = final(items).triangulations@[i];
            &&& now.state.saved_epoch == was.state.epoch
            &&& now.state.epoch == was.state.epoch
            &&& now.id == was.id
            &&& now.name == was.name
            &&& now.detail == was.detail
            &&& now.state.loaded == was.state.loaded
            &&& now.state.deferred == was.state.deferred
            &&& now.state.style == was.state.style
            &&& now.state.folder == was.state.folder
            &&& now.state.section == was.state.section
            &&& final(items).baseline.triangulations@[i] == (was.id, was.state.epoch)
        },
        final(items).block_models@.len() == old(items).block_models@.len(),
        final(items).baseline.block_models@.len() == old(items).block_models@.len(),
        0 <= i < old(items).block_models@.len() ==> {
            let was = old(items).block_models@[i];
            let now = final(items).block_models@[i];
            &&& now.state.saved_epoch == was.state.epoch
            &&& now.state.epoch == was.state.epoch
            &&& now.id == was.id
            &&& now.name == was.name
            &&& now.detail == was.detail
            &&& now.state.loaded == was.state.loaded
            &&& now.state.deferred == was.state.deferred
            &&& now.state.style == was.state.style
            &&& now.state.folder == was.state.folder
            &&& now.state.section == was.state.section
            &&& final(items).baseline.block_models@[i] == (was.id, was.state.epoch)
        },
        final(items).drill_holes@.len() == old(items).drill_holes@.len(),
        final(items).baseline.drill_holes@.len() == old(items).drill_holes@.len(),
        0 <= i < old(items).drill_holes@.len() ==> {
            let was = old(items).drill_holes@[i];
            let now = final(items).drill_holes@[i];
            &&& now.state.saved_epoch == was.state.epoch
            &&& now.state.epoch == was.state.epoch
            &&& now.id == was.id
            &&& now.name == was.name
            &&& now.detail == was.detail
            &&& now.state.loaded == was.state.loaded
            &&& now.state.deferred == was.state.deferred
            &&& now.state.style == was.state.style
            &&& now.state.folder == was.state.folder
            &&& now.state.section == was.state.section
            &&& final(items).baseline.drill_holes@[i] == (was.id, was.state.epoch)
        },
        final(items).point_clouds@.len() == old(items).point_clouds@.len(),
        final(items).baseline.point_clouds@.len() == old(items).point_clouds@.len(),
        0 <= i < old(items).point_clouds@.len() ==> {
            let was = old(items).point_clouds@[i];
            let now = final(items).point_clouds@[i];
            &&& now.state.saved_epoch == was.state.epoch
            &&& now.state.epoch == was.state.epoch
            &&& now.id == was.id
            &&& now.name == was.name
            &&& now.detail == was.detail
            &&& now.state.loaded == was.state.loaded
            &&& now.state.deferred == was.state.deferred
            &&& now.state.style == was.state.style
            &&& now.state.folder == was.state.folder
            &&& now.state.section == was.state.section
            &&& final(items).baseline.point_clouds@[i] == (was.id, was.state.epoch)
        },
        final(items).rasters@.len() == old(items).rasters@.len(),
        final(items).baseline.rasters@.len() == old(items).rasters@.len(),
        0 <= i < old(items).rasters@.len() ==> {
            let was = old(items).rasters@[i];
            let now = final(items).rasters@[i];
            &&& now.state.saved_epoch == was.state.epoch
            &&& now.state.epoch == was.state.epoch
            &&& now.id == was.id
            &&& now.name == was.name
            &&& now.detail == was.detail
            &&& now.state.loaded == was.state.loaded
            &&& now.state.deferred == was.state.deferred
            &&& now.state.style == was.state.style
            &&& now.state.folder == was.state.folder
            &&& now.state.section == was.state.section
            &&& final(items).baseline.rasters@[i] == (was.id, was.state.epoch)
        },
        final(items).baseline.folders.same(folders),
        final(items).active_triangulation == old(items).active_triangulation,
        final(items).next_triangulation_id == old(items).next_triangulation_id,
        final(items).next_block_model_id == old(items).next_block_model_id,
        final(items).next_drill_hole_id == old(items).next_drill_hole_id,
        final(items).next_point_cloud_id == old(items).next_point_cloud_id,
        final(items).next_raster_id == old(items).next_raster_id,
{
    if 0 <= i {
        if i < old(items).triangulations@.len() {
            assert(epochs(final(items).triangulations@)[i].0 == final(items).triangulations@[i].id);
            assert(final(items).baseline.triangulations@[i] == epochs(final(items).triangulations@)[i]);
        }
        if i < old(items).block_models@.len() {
            assert(epochs(final(items).block_models@)[i].0 == final(items).block_models@[i].id);
            assert(final(items).baseline.block_models@[i] == epochs(final(items).block_models@)[i]);
        }
        if i < old(items).drill_holes@.len() {
            assert(epochs(final(items).drill_holes@)[i].0 == final(items).drill_holes@[i].id);
            assert(final(items).baseline.drill_holes@[i] == epochs(final(items).drill_holes@)[i]);
        }
        if i < old(items).point_clouds@.len() {
            assert(epochs(final(items).point_clouds@)[i].0 == final(items).point_clouds@[i].id);
            assert(final(items).baseline.point_clouds@[i] == epochs(final(items).point_clouds@)[i]);
        }
        if i < old(items).rasters@.len() {
            assert(epochs(final(items).rasters@)[i].0 == final(items).rasters@[i].id);
            assert(final(items).baseline.rasters@[i] == epochs(final(items).rasters@)[i]);
        }
    }
}

/// Once a save is done, an item that it held counts as saved at the epoch that the
/// save held, not at the one it has come to since; an item that it did not hold is
/// as it was. Nothing else about an item changes, and the save is the baseline.
pub proof fn a_save_counts_as_what_it_held(
    items: &mut ProjectItems,
    token: &SaveToken,
    i: int,
    k: int,
)
    requires
        call_ensures(ProjectItems::mark_project_asset_snapshot_saved, (items, token), ()),
    ensures
        final(items).triangulations@.len() == old(items).triangulations@.len(),
        0 <= i < old(items).triangulations@.len() ==> {
            let was = old(items).triangulations@[i];
            let now = final(items).triangulations@[i];
            &&& now.id == was.id
            &&& now.name == was.name
            &&& now.detail == was.detail
            &&& now.state.epoch == was.state.epoch
            &&& now.state.loaded == was.state.loaded
            &&& now.state.deferred == was.state.deferred
            &&& now.state.style == was.state.style
            &&& (forall|n: int| 0 <= n < token.triangulations@.len() ==> (#[trigger] token.triangulations@[n]).0 != was.id)
                ==> now.state.saved_epoch == was.state.saved_epoch
            &&& distinct_ids(old(items).triangulations@) && 0 <= k < token.triangulations@.len()
                && token.triangulations@[k].0 == was.id && (forall|n: int|
                k < n < token.triangulations@.len() ==> (#[trigger] token.triangulations@[n]).0 != was.id)
                ==> now.state.saved_epoch == token.triangulations@[k].1
        },
        final(items).baseline.triangulations@ == token.triangulations@,
        final(items).block_models@.len() == old(items).block_models@.len(),
        0 <= i < old(items).block_models@.len() ==> {
            let was = old(items).block_models@[i];
            let now = final(items).block_models@[i];
            &&& now.id == was.id
            &&& now.name == was.name
            &&& now.detail == was.detail
            &&& now.state.epoch == was.state.epoch
            &&& now.state.loaded == was.state.loaded
            &&& now.state.deferred == was.state.deferred
            &&& now.state.style == was.state.style
            &&& (forall|n: int| 0 <= n < token.block_models@.len() ==> (#[trigger] token.block_models@[n]).0 != was.id)
                ==> now.state.saved_epoch == was.state.saved_epoch
            &&& distinct_ids(old(items).block_models@) && 0 <= k < token.block_models@.len()
                && token.block_models@[k].0 == was.id && (forall|n: int|
                k < n < token.block_models@.len() ==> (#[trigger] token.block_models@[n]).0 != was.id)
                ==> now.state.saved_epoch == token.block_models@[k].1
        },
        final(items).baseline.block_models@ == token.block_models@,
        final(items).drill_holes@.len() == old(items).drill_holes@.len(),
        0 <= i < old(items).drill_holes@.len() ==> {
            let was = old(items).drill_holes@[i];
            let now = final(items).drill_holes@[i];
            &&& now.id == was.id
            &&& now.name == was.name
            &&& now.detail == was.detail
            &&& now.state.epoch == was.state.epoch
            &&& now.state.loaded == was.state.loaded
            &&& now.state.deferred == was.state.deferred
            &&& now.state.style == was.state.style
            &&& (forall|n: int| 0 <= n < token.drill_holes@.len() ==> (#[trigger] token.drill_holes@[n]).0 != was.id)
                ==> now.state.saved_epoch == was.state.saved_epoch
            &&& distinct_ids(old(items).drill_holes@) && 0 <= k < token.drill_holes@.len()
                && token.drill_holes@[k].0 == was.id && (forall|n: int|
                k < n < token.drill_holes@.len() ==> (#[trigger] token.drill_holes@[n]).0 != was.id)
                ==> now.state.saved_epoch == token.drill_holes@[k].1
        },
        final(items).baseline.drill_holes@ == token.drill_holes@,
        final(items).point_clouds@.len() == old(items).point_clouds@.len(),
        0 <= i < old(items).point_clouds@.len() ==> {
            let was = old(items).point_clouds@[i];
            let now = final(items).point_clouds@[i];
            &&& now.id == was.id
            &&& now.name == was.name
            &&& now.detail == was.detail
            &&& now.state.epoch == was.state.epoch
            &&& now.state.loaded == was.state.loaded
            &&& now.state.deferred == was.state.deferred
            &&& now.state.style == was.state.style
            &&& (forall|n: int| 0 <= n < token.point_clouds@.len() ==> (#[trigger] token.point_clouds@[n]).0 != was.id)
                ==> now.state.saved_epoch == was.state.saved_epoch
            &&& distinct_ids(old(items).point_clouds@) && 0 <= k < token.point_clouds@.len()
                && token.point_clouds@[k].0 == was.id && (forall|n: int|
                k < n < token.point_clouds@.len() ==> (#[trigger] token.point_clouds@[n]).0 != was.id)
                ==> now.state.saved_epoch == token.point_clouds@[k].1
        },
        final(items).baseline.point_clouds@ == token.point_clouds@,
        final(items).rasters@.len() == old(items).rasters@.len(),
        0 <= i < old(items).rasters@.len() ==> {
            let was = old(items).rasters@[i];
            let now = final(items).rasters@[i];
            &&& now.id == was.id
            &&& now.name == was.name
            &&& now.detail == was.detail
            &&& now.state.epoch == was.state.epoch
            &&& now.state.loaded == was.state.loaded
            &&& now.state.deferred == was.state.deferred
            &&& now.state.style == was.state.style
            &&& (forall|n: int| 0 <= n < token.rasters@.len() ==> (#[trigger] token.rasters@[n]).0 != was.id)
                ==> now.state.saved_epoch == was.state.saved_epoch
            &&& distinct_ids(old(items).rasters@) && 0 <= k < token.rasters@.len()
                && token.rasters@[k].0 == was.id && (forall|n: int|
                k < n < token.rasters@.len() ==> (#[trigger] token.rasters@[n]).0 != was.id)
                ==> now.state.saved_epoch == token.rasters@[k].1
        },
        final(items).baseline.rasters@ == token.rasters@,
        final(items).baseline.folders.same(&token.folders),
        final(items).active_triangulation == old(items).active_triangulation,
{
    lemma_snapshot(old(items).triangulations@, token.triangulations@, final(items).triangulations@, i, k);
    lemma_snapshot(old(items).block_models@, token.block_models@, final(items).block_models@, i, k);
    lemma_snapshot(old(items).drill_holes@, token.drill_holes@, final(items).drill_holes@, i, k);
    lemma_snapshot(old(items).point_clouds@, token.point_clouds@, final(items).point_clouds@, i, k);
    lemma_snapshot(old(items).rasters@, token.rasters@, final(items).rasters@, i, k);
}

proof fn lemma_snapshot<D>(
    before: Seq<OpenItem<D>>,
    saved: Seq<(u64, u64)>,
    after: Seq<OpenItem<D>>,
    i: int,
    k: int,
)
    requires
        crate::items::snapshot_items(before, saved, after),
    ensures
        0 <= i < before.len() ==> {
            let was = before[i];
            let now = after[i];
            &&& (forall|n: int| 0 <= n < saved.len() ==> (#[trigger] saved[n]).0 != was.id)
                ==> now.state.saved_epoch == was.state.saved_epoch
            &&& distinct_ids(before) && 0 <= k < saved.len() && saved[k].0 == was.id && (forall|
                n: int,
            |
                k < n < saved.len() ==> (#[trigger] saved[n]).0 != was.id) ==> now.state.saved_epoch
                == saved[k].1
        },
{
    if 0 <= i < before.len() {
        let id = before[i].id;
        assert(after[i] == crate::model::snapshot_item(before, saved, i));
        lemma_last_saved(saved, id, k);
    }
}

proof fn lemma_last_saved(saved: Seq<(u64, u64)>, id: u64, k: int)
    ensures
        (forall|n: int| 0 <= n < saved.len() ==> (#[trigger] saved[n]).0 != id)
            ==> crate::model::last_saved(saved, id) is None,
        0 <= k < saved.len() && saved[k].0 == id && (forall|n: int|
            k < n < saved.len() ==> (#[trigger] saved[n]).0 != id) ==> crate::model::last_saved(
            saved,
            id,
        ) == Some(saved[k].1),
    decreases saved.len(),
{
    if saved.len() > 0 {
        let rest = saved.drop_last();
        lemma_last_saved(rest, id, k);
        if forall|n: int| 0 <= n < saved.len() ==> (#[trigger] saved[n]).0 != id {
            assert(saved[saved.len() - 1].0 != id);
            assert forall|n: int| 0 <= n < rest.len() implies (#[trigger] rest[n]).0 != id by {
                assert(rest[n] == saved[n]);
            }
        }
        if 0 <= k < saved.len() && saved[k].0 == id && (forall|n: int|
            k < n < saved.len() ==> (#[trigger] saved[n]).0 != id) {
            if k < rest.len() {
                assert(saved[saved.len() - 1].0 != id);
                assert(rest[k] == saved[k]);
                assert forall|n: int| k < n < rest.len() implies (#[trigger] rest[n]).0 != id by {
                    assert(rest[n] == saved[n]);
                }
            }
        }
    }
}

} // verus!
