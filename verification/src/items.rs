//! The items of the open project: which there are, which changed since the
//! project was saved, and what a save covers.
use crate::model::{
    any_dirty, any_loaded, epochs, find_item, first_item, holds, ids, item_epochs, item_ids,
    mark_saved, mark_snapshot_saved, membership_changed, same_membership, snapshot_item,
    with_saved_epoch, BlockModelDetail, DrillHoleDetail, ItemRef, OpenItem, PointCloudDetail,
    RasterDetail, SceneEntityId, TriangulationDetail,
};
use crate::project::Folders;
use vstd::prelude::*;

verus! {

/// What a save holds: the folders, and the id and epoch of each item.
pub struct SaveToken {
    pub folders: Folders,
    pub triangulations: Vec<(u64, u64)>,
    pub block_models: Vec<(u64, u64)>,
    pub drill_holes: Vec<(u64, u64)>,
    pub point_clouds: Vec<(u64, u64)>,
    pub rasters: Vec<(u64, u64)>,
}

/// A copy of ids and epochs.
pub fn copied_epochs(list: &Vec<(u64, u64)>) -> (copy: Vec<(u64, u64)>)
    ensures
        copy@ == list@,
{
    let mut copy: Vec<(u64, u64)> = Vec::new();
    let mut i: usize = 0;
    while i < list.len()
        invariant
            i <= list@.len(),
            copy@ == list@.take(i as int),
        decreases list.len() - i,
    {
        copy.push(list[i]);
        i += 1;
    }
    proof {
        assert(list@.take(i as int) =~= list@);
    }
    copy
}

impl SaveToken {
    /// Both hold the same.
    pub open spec fn same(&self, other: &SaveToken) -> bool {
        &&& self.folders.same(&other.folders)
        &&& self.triangulations@ == other.triangulations@
        &&& self.block_models@ == other.block_models@
        &&& self.drill_holes@ == other.drill_holes@
        &&& self.point_clouds@ == other.point_clouds@
        &&& self.rasters@ == other.rasters@
    }

    /// A save of nothing.
    pub open spec fn is_blank(&self) -> bool {
        &&& forall|section: crate::model::SectionKind| #[trigger]
            self.folders.section_names(section) == Seq::<Seq<char>>::empty()
        &&& self.triangulations@ == Seq::<(u64, u64)>::empty()
        &&& self.block_models@ == Seq::<(u64, u64)>::empty()
        &&& self.drill_holes@ == Seq::<(u64, u64)>::empty()
        &&& self.point_clouds@ == Seq::<(u64, u64)>::empty()
        &&& self.rasters@ == Seq::<(u64, u64)>::empty()
    }

    /// A save of nothing.
    pub fn new() -> (token: SaveToken)
        ensures
            token.is_blank(),
    {
        SaveToken {
            folders: Folders::new(),
            triangulations: Vec::new(),
            block_models: Vec::new(),
            drill_holes: Vec::new(),
            point_clouds: Vec::new(),
            rasters: Vec::new(),
        }
    }

    /// A copy.
    pub fn copied(&self) -> (copy: SaveToken)
        ensures
            copy.same(self),
    {
        SaveToken {
            folders: self.folders.copied(),
            triangulations: copied_epochs(&self.triangulations),
            block_models: copied_epochs(&self.block_models),
            drill_holes: copied_epochs(&self.drill_holes),
            point_clouds: copied_epochs(&self.point_clouds),
            rasters: copied_epochs(&self.rasters),
        }
    }
}

/// The items of the open project.
pub struct ProjectItems {
    pub triangulations: Vec<OpenItem<TriangulationDetail>>,
    pub block_models: Vec<OpenItem<BlockModelDetail>>,
    pub drill_holes: Vec<OpenItem<DrillHoleDetail>>,
    pub point_clouds: Vec<OpenItem<PointCloudDetail>>,
    pub rasters: Vec<OpenItem<RasterDetail>>,
    pub active_triangulation: Option<u64>,
    pub next_triangulation_id: u64,
    pub next_block_model_id: u64,
    pub next_drill_hole_id: u64,
    pub next_point_cloud_id: u64,
    pub next_raster_id: u64,
    /// What the last save held.
    pub baseline: SaveToken,
}

/// The items of a kind after a snapshot of them was saved.
pub open spec fn snapshot_items<D>(
    before: Seq<OpenItem<D>>,
    saved: Seq<(u64, u64)>,
    after: Seq<OpenItem<D>>,
) -> bool {
    &&& after.len() == before.len()
    &&& forall|i: int|
        0 <= i < before.len() ==> #[trigger] after[i] == snapshot_item(before, saved, i)
}

/// The items of a kind after all of them were saved.
pub open spec fn saved_items<D>(before: Seq<OpenItem<D>>, after: Seq<OpenItem<D>>) -> bool {
    &&& after.len() == before.len()
    &&& forall|i: int|
        0 <= i < before.len() ==> #[trigger] after[i] == with_saved_epoch(
            before[i],
            before[i].state.epoch,
        )
}

/// Some item of a kind changed since it was saved.
pub open spec fn some_dirty<D>(items: Seq<OpenItem<D>>) -> bool {
    exists|i: int| 0 <= i < items.len() && (#[trigger] items[i]).state.dirty()
}

/// Some item of a kind is loaded.
pub open spec fn some_loaded<D>(items: Seq<OpenItem<D>>) -> bool {
    exists|i: int| 0 <= i < items.len() && (#[trigger] items[i]).state.loaded
}

/// Whether items of a kind were added or taken away since they were saved.
pub fn kind_membership_changed<D>(items: &Vec<OpenItem<D>>, saved: &Vec<(u64, u64)>) -> (yes: bool)
    ensures
        yes == !same_membership(ids(items@), saved@),
{
    let current: Vec<u64> = item_ids(items);
    membership_changed(&current, saved)
}

/// The style of the first item with the id.
fn style_of<D>(items: &Vec<OpenItem<D>>, id: u64) -> (style: Option<u64>)
    ensures
        style == (match first_item(items@, id) {
            Some(item) => Some(item.state.style),
            None => None,
        }),
{
    match find_item(items, id) {
        Some(i) => Some(items[i].state.style),
        None => None,
    }
}

/// Whether the first item with the id waits on disk.
fn deferred_in<D>(items: &Vec<OpenItem<D>>, id: u64) -> (yes: bool)
    ensures
        yes == (first_item(items@, id) is Some && first_item(items@, id)->0.state.deferred),
{
    match find_item(items, id) {
        Some(i) => items[i].state.deferred,
        None => false,
    }
}

impl ProjectItems {
    /// No items.
    pub open spec fn is_blank(&self) -> bool {
        &&& self.triangulations@ == Seq::<OpenItem<TriangulationDetail>>::empty()
        &&& self.block_models@ == Seq::<OpenItem<BlockModelDetail>>::empty()
        &&& self.drill_holes@ == Seq::<OpenItem<DrillHoleDetail>>::empty()
        &&& self.point_clouds@ == Seq::<OpenItem<PointCloudDetail>>::empty()
        &&& self.rasters@ == Seq::<OpenItem<RasterDetail>>::empty()
        &&& self.active_triangulation is None
        &&& self.next_triangulation_id == 0
        &&& self.next_block_model_id == 0
        &&& self.next_drill_hole_id == 0
        &&& self.next_point_cloud_id == 0
        &&& self.next_raster_id == 0
        &&& self.baseline.is_blank()
    }

    /// No items, and none saved.
    pub fn new() -> (items: ProjectItems)
        ensures
            items.is_blank(),
    {
        ProjectItems {
            triangulations: Vec::new(),
            block_models: Vec::new(),
            drill_holes: Vec::new(),
            point_clouds: Vec::new(),
            rasters: Vec::new(),
            active_triangulation: None,
            next_triangulation_id: 0,
            next_block_model_id: 0,
            next_drill_hole_id: 0,
            next_point_cloud_id: 0,
            next_raster_id: 0,
            baseline: SaveToken::new(),
        }
    }

    /// The style of an item.
    pub open spec fn style(&self, item: ItemRef) -> Option<u64> {
        match item {
            ItemRef::Triangulation(id) => match first_item(self.triangulations@, id) {
                Some(entry) => Some(entry.state.style),
                None => None,
            },
            ItemRef::BlockModel(id) => match first_item(self.block_models@, id) {
                Some(entry) => Some(entry.state.style),
                None => None,
            },
            ItemRef::DrillHole(id) => match first_item(self.drill_holes@, id) {
                Some(entry) => Some(entry.state.style),
                None => None,
            },
            ItemRef::PointCloud(id) => match first_item(self.point_clouds@, id) {
                Some(entry) => Some(entry.state.style),
                None => None,
            },
            ItemRef::Raster(id) => match first_item(self.rasters@, id) {
                Some(entry) => Some(entry.state.style),
                None => None,
            },
        }
    }

    /// The presentation of one item, as the first half of a style command.
    pub fn item_style(&self, item: ItemRef) -> (style: Option<u64>)
        ensures
            style == self.style(item),
    {
        match item {
            ItemRef::Triangulation(id) => style_of(&self.triangulations, id),
            ItemRef::BlockModel(id) => style_of(&self.block_models, id),
            ItemRef::DrillHole(id) => style_of(&self.drill_holes, id),
            ItemRef::PointCloud(id) => style_of(&self.point_clouds, id),
            ItemRef::Raster(id) => style_of(&self.rasters, id),
        }
    }

    /// The item is there, and its contents wait on disk.
    pub open spec fn deferred(&self, item: ItemRef) -> bool {
        match item {
            ItemRef::Triangulation(id) => first_item(self.triangulations@, id) is Some
                && first_item(self.triangulations@, id)->0.state.deferred,
            ItemRef::BlockModel(id) => first_item(self.block_models@, id) is Some && first_item(
                self.block_models@,
                id,
            )->0.state.deferred,
            ItemRef::DrillHole(id) => first_item(self.drill_holes@, id) is Some && first_item(
                self.drill_holes@,
                id,
            )->0.state.deferred,
            ItemRef::PointCloud(id) => first_item(self.point_clouds@, id) is Some && first_item(
                self.point_clouds@,
                id,
            )->0.state.deferred,
            ItemRef::Raster(id) => first_item(self.rasters@, id) is Some && first_item(
                self.rasters@,
                id,
            )->0.state.deferred,
        }
    }

    /// Whether the item is there, and its contents wait on disk.
    pub fn is_deferred(&self, item: ItemRef) -> (yes: bool)
        ensures
            yes == self.deferred(item),
    {
        match item {
            ItemRef::Triangulation(id) => deferred_in(&self.triangulations, id),
            ItemRef::BlockModel(id) => deferred_in(&self.block_models, id),
            ItemRef::DrillHole(id) => deferred_in(&self.drill_holes, id),
            ItemRef::PointCloud(id) => deferred_in(&self.point_clouds, id),
            ItemRef::Raster(id) => deferred_in(&self.rasters, id),
        }
    }

    /// The project holds the item that stands for `entity`; objects are the
    /// document's.
    pub open spec fn holds_entity(&self, entity: SceneEntityId) -> bool {
        match entity {
            SceneEntityId::Object(_) => false,
            SceneEntityId::Triangulation(id) => holds(self.triangulations@, id),
            SceneEntityId::BlockModel(id) => holds(self.block_models@, id),
            SceneEntityId::DrillHole(id) => holds(self.drill_holes@, id),
            SceneEntityId::PointCloud(id) => holds(self.point_clouds@, id),
            SceneEntityId::Raster(id) => holds(self.rasters@, id),
        }
    }

    /// Whether the project holds the item that stands for `entity`.
    pub fn has_entity(&self, entity: SceneEntityId) -> (yes: bool)
        ensures
            yes == self.holds_entity(entity),
    {
        match entity {
            SceneEntityId::Object(_) => false,
            SceneEntityId::Triangulation(id) => find_item(&self.triangulations, id).is_some(),
            SceneEntityId::BlockModel(id) => find_item(&self.block_models, id).is_some(),
            SceneEntityId::DrillHole(id) => find_item(&self.drill_holes, id).is_some(),
            SceneEntityId::PointCloud(id) => find_item(&self.point_clouds, id).is_some(),
            SceneEntityId::Raster(id) => find_item(&self.rasters, id).is_some(),
        }
    }

    /// Some item changed since it was saved.
    pub open spec fn item_dirty(&self) -> bool {
        ||| some_dirty(self.triangulations@)
        ||| some_dirty(self.block_models@)
        ||| some_dirty(self.drill_holes@)
        ||| some_dirty(self.point_clouds@)
        ||| some_dirty(self.rasters@)
    }

    /// The project holds the items that were saved, and no others.
    pub open spec fn membership_saved(&self) -> bool {
        &&& same_membership(ids(self.triangulations@), self.baseline.triangulations@)
        &&& same_membership(ids(self.block_models@), self.baseline.block_models@)
        &&& same_membership(ids(self.drill_holes@), self.baseline.drill_holes@)
        &&& same_membership(ids(self.point_clouds@), self.baseline.point_clouds@)
        &&& same_membership(ids(self.rasters@), self.baseline.rasters@)
    }

    /// Whether an item changed, or items came or went, since the last save.
    pub fn has_unsaved_items(&self) -> (yes: bool)
        ensures
            yes == (self.item_dirty() || !self.membership_saved()),
    {
        any_dirty(&self.triangulations) || any_dirty(&self.block_models) || any_dirty(
            &self.drill_holes,
        ) || any_dirty(&self.point_clouds) || any_dirty(&self.rasters) || kind_membership_changed(
            &self.triangulations,
            &self.baseline.triangulations,
        ) || kind_membership_changed(&self.block_models, &self.baseline.block_models)
            || kind_membership_changed(&self.drill_holes, &self.baseline.drill_holes)
            || kind_membership_changed(&self.point_clouds, &self.baseline.point_clouds)
            || kind_membership_changed(&self.rasters, &self.baseline.rasters)
    }

    /// Some item is loaded.
    pub open spec fn item_loaded(&self) -> bool {
        ||| some_loaded(self.triangulations@)
        ||| some_loaded(self.block_models@)
        ||| some_loaded(self.drill_holes@)
        ||| some_loaded(self.point_clouds@)
        ||| some_loaded(self.rasters@)
    }

    /// Whether any item is loaded.
    pub fn has_loaded_items(&self) -> (yes: bool)
        ensures
            yes == self.item_loaded(),
    {
        any_loaded(&self.triangulations) || any_loaded(&self.block_models) || any_loaded(
            &self.drill_holes,
        ) || any_loaded(&self.point_clouds) || any_loaded(&self.rasters)
    }

    /// `token` holds these folders and the epochs of all items.
    pub open spec fn covered_by(&self, folders: &Folders, token: &SaveToken) -> bool {
        &&& token.folders.same(folders)
        &&& token.triangulations@ == epochs(self.triangulations@)
        &&& token.block_models@ == epochs(self.block_models@)
        &&& token.drill_holes@ == epochs(self.drill_holes@)
        &&& token.point_clouds@ == epochs(self.point_clouds@)
        &&& token.rasters@ == epochs(self.rasters@)
    }

    /// What a save started now holds.
    pub fn save_token(&self, folders: &Folders) -> (token: SaveToken)
        ensures
            self.covered_by(folders, &token),
    {
        SaveToken {
            folders: folders.copied(),
            triangulations: item_epochs(&self.triangulations),
            block_models: item_epochs(&self.block_models),
            drill_holes: item_epochs(&self.drill_holes),
            point_clouds: item_epochs(&self.point_clouds),
            rasters: item_epochs(&self.rasters),
        }
    }

    /// Nothing but the items' saved epochs and the baseline differ.
    pub open spec fn same_but_saves(&self, other: &ProjectItems) -> bool {
        &&& self.active_triangulation == other.active_triangulation
        &&& self.next_triangulation_id == other.next_triangulation_id
        &&& self.next_block_model_id == other.next_block_model_id
        &&& self.next_drill_hole_id == other.next_drill_hole_id
        &&& self.next_point_cloud_id == other.next_point_cloud_id
        &&& self.next_raster_id == other.next_raster_id
    }

    /// The items as they stand once a save that holds `token` is done.
    pub open spec fn after_save(&self, token: &SaveToken, after: &ProjectItems) -> bool {
        &&& snapshot_items(self.triangulations@, token.triangulations@, after.triangulations@)
        &&& snapshot_items(self.block_models@, token.block_models@, after.block_models@)
        &&& snapshot_items(self.drill_holes@, token.drill_holes@, after.drill_holes@)
        &&& snapshot_items(self.point_clouds@, token.point_clouds@, after.point_clouds@)
        &&& snapshot_items(self.rasters@, token.rasters@, after.rasters@)
        &&& after.baseline.same(token)
        &&& after.same_but_saves(self)
    }

    /// A save is done: what it held counts as saved. What changed while it ran
    /// stays dirty.
    pub fn mark_project_asset_snapshot_saved(&mut self, token: &SaveToken)
        ensures
            old(self).after_save(token, final(self)),
    {
        mark_snapshot_saved(&mut self.triangulations, &token.triangulations);
        mark_snapshot_saved(&mut self.block_models, &token.block_models);
        mark_snapshot_saved(&mut self.drill_holes, &token.drill_holes);
        mark_snapshot_saved(&mut self.point_clouds, &token.point_clouds);
        mark_snapshot_saved(&mut self.rasters, &token.rasters);
        self.baseline = token.copied();
    }

    /// The items as they stand once all of them count as saved.
    pub open spec fn all_saved(&self, folders: &Folders, after: &ProjectItems) -> bool {
        &&& saved_items(self.triangulations@, after.triangulations@)
        &&& saved_items(self.block_models@, after.block_models@)
        &&& saved_items(self.drill_holes@, after.drill_holes@)
        &&& saved_items(self.point_clouds@, after.point_clouds@)
        &&& saved_items(self.rasters@, after.rasters@)
        &&& after.covered_by(folders, &after.baseline)
        &&& after.same_but_saves(self)
    }

    /// Counts every item as saved.
    pub fn mark_all_saved(&mut self, folders: &Folders)
        ensures
            old(self).all_saved(folders, final(self)),
    {
        mark_saved(&mut self.triangulations);
        mark_saved(&mut self.block_models);
        mark_saved(&mut self.drill_holes);
        mark_saved(&mut self.point_clouds);
        mark_saved(&mut self.rasters);
        self.baseline = self.save_token(folders);
    }
}

/// Items are members of a save of themselves.
proof fn lemma_own_epochs<D>(items: Seq<OpenItem<D>>)
    ensures
        same_membership(ids(items), epochs(items)),
{
    assert forall|i: int| 0 <= i < ids(items).len() implies crate::model::saved_holds(
        epochs(items),
        #[trigger] ids(items)[i],
    ) by {
        assert(epochs(items)[i].0 == ids(items)[i]);
    }
}

/// Once everything counts as saved, nothing is dirty.
pub proof fn saving_everything_leaves_nothing_dirty(
    before: &ProjectItems,
    folders: &Folders,
    after: &ProjectItems,
)
    requires
        before.all_saved(folders, after),
    ensures
        !after.item_dirty(),
        after.membership_saved(),
{
    lemma_own_epochs(after.triangulations@);
    lemma_own_epochs(after.block_models@);
    lemma_own_epochs(after.drill_holes@);
    lemma_own_epochs(after.point_clouds@);
    lemma_own_epochs(after.rasters@);
}

/// No two items of a kind share an id.
pub open spec fn distinct_ids<D>(items: Seq<OpenItem<D>>) -> bool {
    forall|i: int, j: int|
        0 <= i < j < items.len() ==> (#[trigger] items[i]).id != (#[trigger] items[j]).id
}

/// The epoch that a save of items with distinct ids holds for one of them.
proof fn lemma_last_saved<D>(items: Seq<OpenItem<D>>, i: int)
    requires
        distinct_ids(items),
        0 <= i < items.len(),
    ensures
        crate::model::last_saved(epochs(items), items[i].id) == Some(items[i].state.epoch),
        crate::model::first_of_id(items, i),
    decreases items.len(),
{
    let saved = epochs(items);
    if i < items.len() - 1 {
        let rest = items.drop_last();
        assert(saved.drop_last() =~= epochs(rest));
        assert(items[i].id != items[items.len() - 1].id);
        assert(rest[i] == items[i]);
        assert forall|a: int, b: int| 0 <= a < b < rest.len() implies (#[trigger] rest[a]).id != (
        #[trigger] rest[b]).id by {
            assert(rest[a] == items[a]);
            assert(rest[b] == items[b]);
        }
        lemma_last_saved(rest, i);
        assert(saved.last().0 == items[items.len() - 1].id);
    }
    assert forall|j: int| 0 <= j < i implies (#[trigger] items[j]).id != items[i].id by {
        assert(items[j].id != items[i].id);
    }
}

/// An item is dirty after a save exactly if it changed after the save began:
/// `taken` are the items as the save found them, `before` as they stood when it
/// was done, `after` what they became.
pub proof fn saving_clears_what_it_held<D>(
    taken: Seq<OpenItem<D>>,
    before: Seq<OpenItem<D>>,
    after: Seq<OpenItem<D>>,
    i: int,
)
    requires
        distinct_ids(taken),
        ids(before) == ids(taken),
        snapshot_items(before, epochs(taken), after),
        0 <= i < before.len(),
    ensures
        after[i].state.dirty() == (before[i].state.epoch != taken[i].state.epoch),
{
    assert(before.len() == ids(before).len() == ids(taken).len() == taken.len());
    assert forall|j: int| 0 <= j < before.len() implies (#[trigger] before[j]).id == taken[j].id by {
        assert(ids(before)[j] == before[j].id);
        assert(ids(taken)[j] == taken[j].id);
    }
    lemma_last_saved(taken, i);
    assert(crate::model::first_of_id(before, i)) by {
        assert forall|j: int| 0 <= j < i implies (#[trigger] before[j]).id != before[i].id by {
            assert(taken[j].id != taken[i].id);
        }
    }
    assert(after[i] == snapshot_item(before, epochs(taken), i));
}

/// A save that nothing interfered with leaves no item dirty and the membership
/// as saved.
pub proof fn an_undisturbed_save_leaves_nothing_dirty(
    before: &ProjectItems,
    folders: &Folders,
    token: &SaveToken,
    after: &ProjectItems,
)
    requires
        before.covered_by(folders, token),
        before.after_save(token, after),
        distinct_ids(before.triangulations@),
        distinct_ids(before.block_models@),
        distinct_ids(before.drill_holes@),
        distinct_ids(before.point_clouds@),
        distinct_ids(before.rasters@),
    ensures
        !after.item_dirty(),
        after.membership_saved(),
{
    lemma_undisturbed(before.triangulations@, after.triangulations@);
    lemma_undisturbed(before.block_models@, after.block_models@);
    lemma_undisturbed(before.drill_holes@, after.drill_holes@);
    lemma_undisturbed(before.point_clouds@, after.point_clouds@);
    lemma_undisturbed(before.rasters@, after.rasters@);
}

proof fn lemma_undisturbed<D>(before: Seq<OpenItem<D>>, after: Seq<OpenItem<D>>)
    requires
        distinct_ids(before),
        snapshot_items(before, epochs(before), after),
    ensures
        !some_dirty(after),
        same_membership(ids(after), epochs(before)),
{
    assert forall|i: int| 0 <= i < after.len() implies !(#[trigger] after[i]).state.dirty() by {
        saving_clears_what_it_held(before, before, after, i);
    }
    lemma_own_epochs(before);
    assert(ids(after) =~= ids(before)) by {
        assert forall|i: int| 0 <= i < after.len() implies ids(after)[i] == ids(before)[i] by {
            assert(after[i] == snapshot_item(before, epochs(before), i));
        }
    }
}

/// Where no two items, and no two saved entries, share an id, the membership
/// counts as saved exactly if the same ids are on both sides.
pub proof fn membership_is_equality_of_ids(current: Seq<u64>, saved: Seq<(u64, u64)>)
    requires
        current.no_duplicates(),
        saved.map_values(|entry: (u64, u64)| entry.0).no_duplicates(),
    ensures
        same_membership(current, saved) <==> current.to_set() == saved.map_values(
            |entry: (u64, u64)| entry.0,
        ).to_set(),
{
    let names = saved.map_values(|entry: (u64, u64)| entry.0);
    current.unique_seq_to_set();
    names.unique_seq_to_set();
    if same_membership(current, saved) {
        assert(current.to_set().subset_of(names.to_set())) by {
            assert forall|id: u64| current.to_set().contains(id) implies names.to_set().contains(
                id,
            ) by {
                let i = choose|i: int| 0 <= i < current.len() && current[i] == id;
                assert(crate::model::saved_holds(saved, current[i]));
                let k = choose|k: int| 0 <= k < saved.len() && (#[trigger] saved[k]).0 == id;
                assert(names[k] == id);
            }
        }
        vstd::set_lib::lemma_subset_equality(current.to_set(), names.to_set());
    }
    if current.to_set() == names.to_set() {
        assert forall|i: int| 0 <= i < current.len() implies crate::model::saved_holds(
            saved,
            #[trigger] current[i],
        ) by {
            assert(current.to_set().contains(current[i]));
            assert(names.to_set().contains(current[i]));
            let k = choose|k: int| 0 <= k < names.len() && names[k] == current[i];
            assert(saved[k].0 == current[i]);
        }
    }
}

} // verus!
