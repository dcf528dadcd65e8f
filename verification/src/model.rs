//! What a project holds, as far as its bookkeeping goes: layers and objects,
//! items and their revisions, folders, and the record of what was saved.
use vstd::prelude::*;

verus! {

/// The sections of the explorer.
#[derive(Debug, Clone, Copy, PartialEq, Eq, Structural)]
pub enum SectionKind {
    Designs,
    Triangulations,
    BlockModels,
    DrillHoles,
    PointClouds,
    Rasters,
}

/// One item of the project.
#[derive(Debug, Clone, Copy, PartialEq, Eq, Structural)]
pub enum ItemRef {
    Triangulation(u64),
    BlockModel(u64),
    DrillHole(u64),
    PointCloud(u64),
    Raster(u64),
}

/// One thing that can be picked, hidden or frozen in the scene.
#[derive(Debug, Clone, Copy, PartialEq, Eq, Structural)]
pub enum SceneEntityId {
    Object(u64),
    Triangulation(u64),
    BlockModel(u64),
    DrillHole(u64),
    PointCloud(u64),
    Raster(u64),
}

/// Counts that stand in for an item's contents while they are not in memory.
#[derive(Debug, Clone, Copy, PartialEq, Eq, Structural)]
pub struct ItemSummary {
    pub primary_count: usize,
    pub secondary_count: usize,
}

/// What every kind of item has.
pub struct ItemState {
    /// Counts the changes to the item.
    pub epoch: u64,
    /// The epoch that was saved last.
    pub saved_epoch: u64,
    pub loaded: bool,
    /// The contents wait on disk.
    pub deferred: bool,
    /// Stands for the item's presentation: equal numbers, equal styles.
    pub style: u64,
    pub source_name: String,
    pub folder: Option<u64>,
    pub section: SectionKind,
    pub summary: Option<ItemSummary>,
}

impl ItemState {
    /// The item has changed since it was saved.
    pub open spec fn dirty(&self) -> bool {
        self.epoch != self.saved_epoch
    }

    /// Whether the item has changed since it was saved.
    pub fn is_dirty(&self) -> (yes: bool)
        ensures
            yes == self.dirty(),
    {
        self.epoch != self.saved_epoch
    }
}

/// An item of the open project.
pub struct OpenItem<D> {
    pub id: u64,
    pub name: String,
    /// Where the name stands in natural order among all names: equal numbers
    /// where the order does not tell two names apart.
    pub name_rank: u64,
    pub state: ItemState,
    pub detail: D,
}

/// The bits of a colour's components.
#[derive(Debug, Clone, Copy, PartialEq, Eq, Structural)]
pub struct ColorBits {
    pub r: u32,
    pub g: u32,
    pub b: u32,
    pub a: u32,
}

#[derive(Debug, Clone, Copy, PartialEq, Eq, Structural)]
pub struct TriangulationDetail {
    /// The raster draped over it.
    pub raster_texture: Option<u64>,
    pub color: ColorBits,
}

pub struct BlockModelDetail {
    pub renderable_blocks: usize,
    /// For each variable that can colour the model, whether it is a special one.
    pub special_variables: Vec<bool>,
}

#[derive(Debug, Clone, Copy, PartialEq, Eq, Structural)]
pub struct DrillHoleDetail {
    pub holes: usize,
    pub fields: usize,
}

#[derive(Debug, Clone, Copy, PartialEq, Eq, Structural)]
pub struct PointCloudDetail {
    pub points: usize,
    pub classified: bool,
}

pub struct RasterDetail {
    pub source_width: u32,
    pub source_height: u32,
    pub driver_name: String,
    pub projection: String,
}

/// The ids of the items, in the order they are kept in.
pub open spec fn ids<D>(items: Seq<OpenItem<D>>) -> Seq<u64> {
    items.map_values(|item: OpenItem<D>| item.id)
}

/// The ids and epochs of the items, in the order they are kept in.
pub open spec fn epochs<D>(items: Seq<OpenItem<D>>) -> Seq<(u64, u64)> {
    items.map_values(|item: OpenItem<D>| (item.id, item.state.epoch))
}

/// Some item has the id.
pub open spec fn holds<D>(items: Seq<OpenItem<D>>, id: u64) -> bool {
    exists|i: int| 0 <= i < items.len() && (#[trigger] items[i]).id == id
}

/// The item at `i` is the first one with its id.
pub open spec fn first_of_id<D>(items: Seq<OpenItem<D>>, i: int) -> bool {
    0 <= i < items.len() && forall|j: int| 0 <= j < i ==> (#[trigger] items[j]).id != items[i].id
}

/// The first item with the id.
pub open spec fn first_item<D>(items: Seq<OpenItem<D>>, id: u64) -> Option<OpenItem<D>>
    decreases items.len(),
{
    if items.len() == 0 {
        None
    } else if items[0].id == id {
        Some(items[0])
    } else {
        first_item(items.drop_first(), id)
    }
}

proof fn lemma_first_item<D>(items: Seq<OpenItem<D>>, id: u64, n: int)
    requires
        0 <= n <= items.len(),
        forall|j: int| 0 <= j < n ==> (#[trigger] items[j]).id != id,
        n < items.len() ==> items[n].id == id,
    ensures
        first_item(items, id) == (if n < items.len() {
            Some(items[n])
        } else {
            None
        }),
    decreases items.len(),
{
    if n > 0 {
        assert(items[0].id != id);
        let rest = items.drop_first();
        assert forall|j: int| 0 <= j < n - 1 implies (#[trigger] rest[j]).id != id by {
            assert(rest[j] == items[j + 1]);
        }
        lemma_first_item(rest, id, n - 1);
    }
}

/// The ids of the items.
pub fn item_ids<D>(items: &Vec<OpenItem<D>>) -> (result: Vec<u64>)
    ensures
        result@ == ids(items@),
{
    let mut result: Vec<u64> = Vec::new();
    let mut i: usize = 0;
    while i < items.len()
        invariant
            i <= items@.len(),
            result@ == ids(items@.take(i as int)),
        decreases items.len() - i,
    {
        result.push(items[i].id);
        proof {
            assert(ids(items@.take(i + 1)) =~= ids(items@.take(i as int)).push(items@[i as int].id));
        }
        i += 1;
    }
    proof {
        assert(items@.take(i as int) =~= items@);
    }
    result
}

/// The ids and epochs of the items.
pub fn item_epochs<D>(items: &Vec<OpenItem<D>>) -> (result: Vec<(u64, u64)>)
    ensures
        result@ == epochs(items@),
{
    let mut result: Vec<(u64, u64)> = Vec::new();
    let mut i: usize = 0;
    while i < items.len()
        invariant
            i <= items@.len(),
            result@ == epochs(items@.take(i as int)),
        decreases items.len() - i,
    {
        result.push((items[i].id, items[i].state.epoch));
        proof {
            let item = items@[i as int];
            assert(epochs(items@.take(i + 1)) =~= epochs(items@.take(i as int)).push(
                (item.id, item.state.epoch),
            ));
        }
        i += 1;
    }
    proof {
        assert(items@.take(i as int) =~= items@);
    }
    result
}

/// Where the first item with the id stands.
pub fn find_item<D>(items: &Vec<OpenItem<D>>, id: u64) -> (at: Option<usize>)
    ensures
        at is Some <==> holds(items@, id),
        at is Some ==> first_of_id(items@, at->0 as int) && items@[at->0 as int].id == id,
        first_item(items@, id) == (match at {
            Some(i) => Some(items@[i as int]),
            None => None,
        }),
{
    let mut i: usize = 0;
    while i < items.len()
        invariant
            i <= items@.len(),
            forall|j: int| 0 <= j < i ==> (#[trigger] items@[j]).id != id,
        decreases items.len() - i,
    {
        if items[i].id == id {
            proof {
                lemma_first_item(items@, id, i as int);
            }
            return Some(i);
        }
        i += 1;
    }
    proof {
        lemma_first_item(items@, id, i as int);
    }
    None
}

/// Whether any item has changed since it was saved.
pub fn any_dirty<D>(items: &Vec<OpenItem<D>>) -> (yes: bool)
    ensures
        yes == exists|i: int| 0 <= i < items@.len() && (#[trigger] items@[i]).state.dirty(),
{
    let mut i: usize = 0;
    while i < items.len()
        invariant
            i <= items@.len(),
            forall|j: int| 0 <= j < i ==> !(#[trigger] items@[j]).state.dirty(),
        decreases items.len() - i,
    {
        if items[i].state.is_dirty() {
            return true;
        }
        i += 1;
    }
    false
}

/// Whether any item is loaded.
pub fn any_loaded<D>(items: &Vec<OpenItem<D>>) -> (yes: bool)
    ensures
        yes == exists|i: int| 0 <= i < items@.len() && (#[trigger] items@[i]).state.loaded,
{
    let mut i: usize = 0;
    while i < items.len()
        invariant
            i <= items@.len(),
            forall|j: int| 0 <= j < i ==> !(#[trigger] items@[j]).state.loaded,
        decreases items.len() - i,
    {
        if items[i].state.loaded {
            return true;
        }
        i += 1;
    }
    false
}

/// Some saved entry has the id.
pub open spec fn saved_holds(saved: Seq<(u64, u64)>, id: u64) -> bool {
    exists|k: int| 0 <= k < saved.len() && (#[trigger] saved[k]).0 == id
}

/// The items are as many as were saved, and each was saved.
pub open spec fn same_membership(current: Seq<u64>, saved: Seq<(u64, u64)>) -> bool {
    &&& current.len() == saved.len()
    &&& forall|i: int| 0 <= i < current.len() ==> saved_holds(saved, #[trigger] current[i])
}

/// Whether items were added or taken away since they were saved.
pub fn membership_changed(current: &Vec<u64>, saved: &Vec<(u64, u64)>) -> (yes: bool)
    ensures
        yes == !same_membership(current@, saved@),
{
    if current.len() != saved.len() {
        return true;
    }
    let mut i: usize = 0;
    while i < current.len()
        invariant
            i <= current@.len(),
            current@.len() == saved@.len(),
            forall|j: int| 0 <= j < i ==> saved_holds(saved@, #[trigger] current@[j]),
        decreases current.len() - i,
    {
        let mut found: bool = false;
        let mut k: usize = 0;
        while k < saved.len() && !found
            invariant
                i < current@.len(),
                k <= saved@.len(),
                found ==> saved_holds(saved@, current@[i as int]),
                !found ==> forall|l: int| 0 <= l < k ==> (#[trigger] saved@[l]).0 != current@[i as int],
            decreases saved.len() - k,
        {
            if saved[k].0 == current[i] {
                found = true;
            }
            k += 1;
        }
        if !found {
            proof {
                assert(!saved_holds(saved@, current@[i as int]));
            }
            return true;
        }
        i += 1;
    }
    false
}

/// The epoch saved last for an id.
pub open spec fn last_saved(saved: Seq<(u64, u64)>, id: u64) -> Option<u64>
    decreases saved.len(),
{
    if saved.len() == 0 {
        None
    } else if saved.last().0 == id {
        Some(saved.last().1)
    } else {
        last_saved(saved.drop_last(), id)
    }
}

/// `item` as it stands once the epoch `saved` counts as saved.
pub open spec fn with_saved_epoch<D>(item: OpenItem<D>, saved: u64) -> OpenItem<D> {
    OpenItem { state: ItemState { saved_epoch: saved, ..item.state }, ..item }
}

/// The item at `i` after a snapshot was saved: where the snapshot holds its id,
/// the epoch it held counts as saved.
pub open spec fn snapshot_item<D>(
    items: Seq<OpenItem<D>>,
    saved: Seq<(u64, u64)>,
    i: int,
) -> OpenItem<D> {
    match last_saved(saved, items[i].id) {
        Some(epoch) if first_of_id(items, i) => with_saved_epoch(items[i], epoch),
        _ => items[i],
    }
}

/// Counts a snapshot of the items as saved. An item that changed after the
/// snapshot was taken stays dirty.
pub fn mark_snapshot_saved<D>(items: &mut Vec<OpenItem<D>>, saved: &Vec<(u64, u64)>)
    ensures
        final(items)@.len() == old(items)@.len(),
        forall|i: int|
            0 <= i < old(items)@.len() ==> #[trigger] final(items)@[i] == snapshot_item(
                old(items)@,
                saved@,
                i,
            ),
{
    let ghost before = items@;
    let mut k: usize = 0;
    while k < saved.len()
        invariant
            k <= saved@.len(),
            before == old(items)@,
            items@.len() == before.len(),
            forall|i: int|
                0 <= i < before.len() ==> #[trigger] items@[i] == snapshot_item(
                    before,
                    saved@.take(k as int),
                    i,
                ),
        decreases saved.len() - k,
    {
        let entry: (u64, u64) = saved[k];
        let ghost now = items@;
        proof {
            assert(saved@.take(k + 1).drop_last() =~= saved@.take(k as int));
            assert(saved@.take(k + 1).last() == entry);
            assert forall|i: int| 0 <= i < before.len() implies now[i].id == before[i].id
                && first_of_id(now, i) == first_of_id(before, i) by {
                lemma_same_ids(before, now, saved@.take(k as int), i);
            }
        }
        match find_item(items, entry.0) {
            Some(at) => {
                items[at].state.saved_epoch = entry.1;
                proof {
                    assert forall|i: int| 0 <= i < before.len() implies #[trigger] items@[i]
                        == snapshot_item(before, saved@.take(k + 1), i) by {
                        if i != at && before[i].id == entry.0 {
                            if i < at {
                                assert(now[i].id != now[at as int].id);
                            }
                            assert(!first_of_id(before, i));
                        }
                    }
                }
            },
            None => {
                proof {
                    assert forall|i: int| 0 <= i < before.len() implies #[trigger] items@[i]
                        == snapshot_item(before, saved@.take(k + 1), i) by {
                        assert(now[i].id != entry.0);
                    }
                }
            },
        }
        k += 1;
    }
    proof {
        assert(saved@.take(k as int) =~= saved@);
    }
}

proof fn lemma_same_ids<D>(
    before: Seq<OpenItem<D>>,
    now: Seq<OpenItem<D>>,
    saved: Seq<(u64, u64)>,
    i: int,
)
    requires
        now.len() == before.len(),
        forall|j: int| 0 <= j < before.len() ==> #[trigger] now[j] == snapshot_item(before, saved, j),
        0 <= i < before.len(),
    ensures
        now[i].id == before[i].id,
        first_of_id(now, i) == first_of_id(before, i),
{
    assert forall|j: int| 0 <= j < before.len() implies (#[trigger] now[j]).id == before[j].id by {
        assert(now[j] == snapshot_item(before, saved, j));
    }
    if first_of_id(before, i) {
        assert forall|j: int| 0 <= j < i implies (#[trigger] now[j]).id != now[i].id by {
            assert(before[j].id != before[i].id);
        }
    }
    if first_of_id(now, i) {
        assert forall|j: int| 0 <= j < i implies (#[trigger] before[j]).id != before[i].id by {
            assert(now[j].id != now[i].id);
        }
    }
}

/// Counts every item as saved.
pub fn mark_saved<D>(items: &mut Vec<OpenItem<D>>)
    ensures
        final(items)@.len() == old(items)@.len(),
        forall|i: int|
            0 <= i < old(items)@.len() ==> #[trigger] final(items)@[i] == with_saved_epoch(
                old(items)@[i],
                old(items)@[i].state.epoch,
            ),
{
    let ghost before = items@;
    let mut i: usize = 0;
    while i < items.len()
        invariant
            i <= items@.len() == before.len(),
            before == old(items)@,
            forall|j: int|
                0 <= j < i ==> #[trigger] items@[j] == with_saved_epoch(
                    before[j],
                    before[j].state.epoch,
                ),
            forall|j: int| i <= j < before.len() ==> #[trigger] items@[j] == before[j],
        decreases items.len() - i,
    {
        let epoch: u64 = items[i].state.epoch;
        items[i].state.saved_epoch = epoch;
        i += 1;
    }
}

} // verus!
