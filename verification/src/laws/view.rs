//! The explorer: what it shows of every item, layer and project.
use crate::app::App;
use crate::items::ProjectItems;
use crate::language::Target;
use crate::model::{
    BlockModelDetail, DrillHoleDetail, OpenItem, PointCloudDetail, RasterDetail, SectionKind,
    TriangulationDetail,
};
use crate::order::is_display_order;
use crate::project::Layer;
use crate::view::{
    draped_rasters, every_item_is_shown, shown_in_order, sort_keys, Keyed, UiBlockModelEntry,
    UiDrillHoleEntry, UiLayerEntry, UiPointCloudEntry, UiProjectView, UiRasterTextureEntry,
    UiTriangulationEntry,
};
use crate::view_key::{count_plain_variables, plain_variables};
use vstd::prelude::*;

verus! {

/// Every one of the triangulations is shown, once among as many entries as there are of them,
/// by its own id and name and as it stands.
pub proof fn the_explorer_tells_triangulations<P>(
    app: &App<P>,
    unnamed: &str,
    k: int,
    view: UiProjectView,
)
    requires
        call_ensures(App::<P>::current_view, (app, unnamed), view),
        0 <= k < app.items.triangulations@.len(),
    ensures
        view.triangulations@.len() == app.items.triangulations@.len(),
        exists|e: int|
            #![trigger view.triangulations@[e]]
            0 <= e < view.triangulations@.len() && view.triangulations@[e].id == app.items.triangulations@[k].id
                && view.triangulations@[e].name == app.items.triangulations@[k].name
                && view.triangulations@[e].source_name == app.items.triangulations@[k].state.source_name
                && view.triangulations@[e].is_loaded == app.items.triangulations@[k].state.loaded
                && view.triangulations@[e].dirty == (app.items.triangulations@[k].state.epoch
                != app.items.triangulations@[k].state.saved_epoch)
                && view.triangulations@[e].folder == app.items.triangulations@[k].state.folder
                && view.triangulations@[e].section == app.items.triangulations@[k].state.section
                && view.triangulations@[e].is_active == (app.items.active_triangulation == Some(
                app.items.triangulations@[k].id,
            )) && view.triangulations@[e].color == app.items.triangulations@[k].detail.color,
{
    let id = app.items.triangulations@[k].id;
    let active = app.items.active_triangulation;
    let entry = |item: OpenItem<TriangulationDetail>| UiTriangulationEntry::showing(item, active);
    every_item_is_shown(view.triangulations@, app.items.triangulations@, entry, k);
    let e = choose|e: int|
        0 <= e < view.triangulations@.len() && view.triangulations@[e] == entry(app.items.triangulations@[k]);
    assert(view.triangulations@[e].id == id);
}

/// The triangulations stand in natural order of their names, and no entry shows anything else.
pub proof fn the_explorer_orders_triangulations<P>(
    app: &App<P>,
    unnamed: &str,
    i: int,
    j: int,
    view: UiProjectView,
)
    requires
        call_ensures(App::<P>::current_view, (app, unnamed), view),
        0 <= i < j < view.triangulations@.len(),
    ensures
        exists|a: int, b: int|
            #![trigger app.items.triangulations@[a], app.items.triangulations@[b]]
            0 <= a < app.items.triangulations@.len() && 0 <= b < app.items.triangulations@.len() && a != b
                && view.triangulations@[i].id == app.items.triangulations@[a].id && view.triangulations@[j].id
                == app.items.triangulations@[b].id && app.items.triangulations@[a].name_rank
                <= app.items.triangulations@[b].name_rank && (app.items.triangulations@[a].name_rank
                == app.items.triangulations@[b].name_rank ==> a < b),
{
    let active = app.items.active_triangulation;
    let entry = |item: OpenItem<TriangulationDetail>| UiTriangulationEntry::showing(item, active);
    lemma_ordered(view.triangulations@, app.items.triangulations@, entry, i, j);
    let (a, b) = choose|a: int, b: int|
        #![trigger app.items.triangulations@[a], app.items.triangulations@[b]]
        0 <= a < app.items.triangulations@.len() && 0 <= b < app.items.triangulations@.len() && a != b
            && view.triangulations@[i] == entry(app.items.triangulations@[a]) && view.triangulations@[j] == entry(
            app.items.triangulations@[b],
        ) && ordered(app.items.triangulations@, a, b);
    assert(view.triangulations@[i].id == app.items.triangulations@[a].id);
}

/// Every one of the block models is shown, once among as many entries as there are of them,
/// by its own id and name and as it stands.
pub proof fn the_explorer_tells_block_models<P>(
    app: &App<P>,
    unnamed: &str,
    k: int,
    view: UiProjectView,
)
    requires
        call_ensures(App::<P>::current_view, (app, unnamed), view),
        0 <= k < app.items.block_models@.len(),
    ensures
        view.block_models@.len() == app.items.block_models@.len(),
        exists|e: int|
            #![trigger view.block_models@[e]]
            0 <= e < view.block_models@.len() && view.block_models@[e].id == app.items.block_models@[k].id
                && view.block_models@[e].name == app.items.block_models@[k].name
                && view.block_models@[e].source_name == app.items.block_models@[k].state.source_name
                && view.block_models@[e].is_loaded == app.items.block_models@[k].state.loaded
                && view.block_models@[e].dirty == (app.items.block_models@[k].state.epoch
                != app.items.block_models@[k].state.saved_epoch)
                && view.block_models@[e].folder == app.items.block_models@[k].state.folder
                && view.block_models@[e].section == app.items.block_models@[k].state.section
                && (app.items.block_models@[k].state.summary is Some ==> view.block_models@[e].block_count
                == app.items.block_models@[k].state.summary->0.primary_count)
                && (app.items.block_models@[k].state.summary is None ==> view.block_models@[e].block_count
                == app.items.block_models@[k].detail.renderable_blocks)
                && view.block_models@[e].variable_count
                == app.items.block_models@[k].detail.special_variables@.filter(ordinary()).len(),
{
    let id = app.items.block_models@[k].id;
    let entry = |item: OpenItem<BlockModelDetail>| UiBlockModelEntry::showing(item);
    every_item_is_shown(view.block_models@, app.items.block_models@, entry, k);
    let e = choose|e: int|
        0 <= e < view.block_models@.len() && view.block_models@[e] == entry(app.items.block_models@[k]);
    let special = app.items.block_models@[k].detail.special_variables;
    assert(special@.len() == special.len());
    lemma_plain_count(special@);
    assert(view.block_models@[e].id == id);
}

/// The block models stand in natural order of their names, and no entry shows anything else.
pub proof fn the_explorer_orders_block_models<P>(
    app: &App<P>,
    unnamed: &str,
    i: int,
    j: int,
    view: UiProjectView,
)
    requires
        call_ensures(App::<P>::current_view, (app, unnamed), view),
        0 <= i < j < view.block_models@.len(),
    ensures
        exists|a: int, b: int|
            #![trigger app.items.block_models@[a], app.items.block_models@[b]]
            0 <= a < app.items.block_models@.len() && 0 <= b < app.items.block_models@.len() && a != b
                && view.block_models@[i].id == app.items.block_models@[a].id && view.block_models@[j].id
                == app.items.block_models@[b].id && app.items.block_models@[a].name_rank
                <= app.items.block_models@[b].name_rank && (app.items.block_models@[a].name_rank
                == app.items.block_models@[b].name_rank ==> a < b),
{
    let entry = |item: OpenItem<BlockModelDetail>| UiBlockModelEntry::showing(item);
    lemma_ordered(view.block_models@, app.items.block_models@, entry, i, j);
    let (a, b) = choose|a: int, b: int|
        #![trigger app.items.block_models@[a], app.items.block_models@[b]]
        0 <= a < app.items.block_models@.len() && 0 <= b < app.items.block_models@.len() && a != b
            && view.block_models@[i] == entry(app.items.block_models@[a]) && view.block_models@[j] == entry(
            app.items.block_models@[b],
        ) && ordered(app.items.block_models@, a, b);
    assert(view.block_models@[i].id == app.items.block_models@[a].id);
}

/// Every one of the drill holes is shown, once among as many entries as there are of them,
/// by its own id and name and as it stands.
pub proof fn the_explorer_tells_drill_holes<P>(
    app: &App<P>,
    unnamed: &str,
    k: int,
    view: UiProjectView,
)
    requires
        call_ensures(App::<P>::current_view, (app, unnamed), view),
        0 <= k < app.items.drill_holes@.len(),
    ensures
        view.drill_holes@.len() == app.items.drill_holes@.len(),
        exists|e: int|
            #![trigger view.drill_holes@[e]]
            0 <= e < view.drill_holes@.len() && view.drill_holes@[e].id == app.items.drill_holes@[k].id
                && view.drill_holes@[e].name == app.items.drill_holes@[k].name
                && view.drill_holes@[e].source_name == app.items.drill_holes@[k].state.source_name
                && view.drill_holes@[e].is_loaded == app.items.drill_holes@[k].state.loaded
                && view.drill_holes@[e].dirty == (app.items.drill_holes@[k].state.epoch
                != app.items.drill_holes@[k].state.saved_epoch)
                && view.drill_holes@[e].folder == app.items.drill_holes@[k].state.folder
                && view.drill_holes@[e].section == app.items.drill_holes@[k].state.section
                && (app.items.drill_holes@[k].state.summary is Some ==> view.drill_holes@[e].hole_count
                == app.items.drill_holes@[k].state.summary->0.primary_count
                && view.drill_holes@[e].field_count
                == app.items.drill_holes@[k].state.summary->0.secondary_count)
                && (app.items.drill_holes@[k].state.summary is None ==> view.drill_holes@[e].hole_count
                == app.items.drill_holes@[k].detail.holes && view.drill_holes@[e].field_count
                == app.items.drill_holes@[k].detail.fields),
{
    let id = app.items.drill_holes@[k].id;
    let entry = |item: OpenItem<DrillHoleDetail>| UiDrillHoleEntry::showing(item);
    every_item_is_shown(view.drill_holes@, app.items.drill_holes@, entry, k);
    let e = choose|e: int|
        0 <= e < view.drill_holes@.len() && view.drill_holes@[e] == entry(app.items.drill_holes@[k]);
    assert(view.drill_holes@[e].id == id);
}

/// The drill holes stand in natural order of their names, and no entry shows anything else.
pub proof fn the_explorer_orders_drill_holes<P>(
    app: &App<P>,
    unnamed: &str,
    i: int,
    j: int,
    view: UiProjectView,
)
    requires
        call_ensures(App::<P>::current_view, (app, unnamed), view),
        0 <= i < j < view.drill_holes@.len(),
    ensures
        exists|a: int, b: int|
            #![trigger app.items.drill_holes@[a], app.items.drill_holes@[b]]
            0 <= a < app.items.drill_holes@.len() && 0 <= b < app.items.drill_holes@.len() && a != b
                && view.drill_holes@[i].id == app.items.drill_holes@[a].id && view.drill_holes@[j].id
                == app.items.drill_holes@[b].id && app.items.drill_holes@[a].name_rank
                <= app.items.drill_holes@[b].name_rank && (app.items.drill_holes@[a].name_rank
                == app.items.drill_holes@[b].name_rank ==> a < b),
{
    let entry = |item: OpenItem<DrillHoleDetail>| UiDrillHoleEntry::showing(item);
    lemma_ordered(view.drill_holes@, app.items.drill_holes@, entry, i, j);
    let (a, b) = choose|a: int, b: int|
        #![trigger app.items.drill_holes@[a], app.items.drill_holes@[b]]
        0 <= a < app.items.drill_holes@.len() && 0 <= b < app.items.drill_holes@.len() && a != b
            && view.drill_holes@[i] == entry(app.items.drill_holes@[a]) && view.drill_holes@[j] == entry(
            app.items.drill_holes@[b],
        ) && ordered(app.items.drill_holes@, a, b);
    assert(view.drill_holes@[i].id == app.items.drill_holes@[a].id);
}

/// Every one of the point clouds is shown, once among as many entries as there are of them,
/// by its own id and name and as it stands.
pub proof fn the_explorer_tells_point_clouds<P>(
    app: &App<P>,
    unnamed: &str,
    k: int,
    view: UiProjectView,
)
    requires
        call_ensures(App::<P>::current_view, (app, unnamed), view),
        0 <= k < app.items.point_clouds@.len(),
    ensures
        view.point_clouds@.len() == app.items.point_clouds@.len(),
        exists|e: int|
            #![trigger view.point_clouds@[e]]
            0 <= e < view.point_clouds@.len() && view.point_clouds@[e].id == app.items.point_clouds@[k].id
                && view.point_clouds@[e].name == app.items.point_clouds@[k].name
                && view.point_clouds@[e].source_name == app.items.point_clouds@[k].state.source_name
                && view.point_clouds@[e].is_loaded == app.items.point_clouds@[k].state.loaded
                && view.point_clouds@[e].dirty == (app.items.point_clouds@[k].state.epoch
                != app.items.point_clouds@[k].state.saved_epoch)
                && view.point_clouds@[e].folder == app.items.point_clouds@[k].state.folder
                && view.point_clouds@[e].section == app.items.point_clouds@[k].state.section
                && (app.items.point_clouds@[k].state.summary is Some ==> view.point_clouds@[e].point_count
                == app.items.point_clouds@[k].state.summary->0.primary_count)
                && (app.items.point_clouds@[k].state.summary is None ==> view.point_clouds@[e].point_count
                == app.items.point_clouds@[k].detail.points)
                && view.point_clouds@[e].is_classified == app.items.point_clouds@[k].detail.classified,
{
    let id = app.items.point_clouds@[k].id;
    let entry = |item: OpenItem<PointCloudDetail>| UiPointCloudEntry::showing(item);
    every_item_is_shown(view.point_clouds@, app.items.point_clouds@, entry, k);
    let e = choose|e: int|
        0 <= e < view.point_clouds@.len() && view.point_clouds@[e] == entry(app.items.point_clouds@[k]);
    assert(view.point_clouds@[e].id == id);
}

/// The point clouds stand in natural order of their names, and no entry shows anything else.
pub proof fn the_explorer_orders_point_clouds<P>(
    app: &App<P>,
    unnamed: &str,
    i: int,
    j: int,
    view: UiProjectView,
)
    requires
        call_ensures(App::<P>::current_view, (app, unnamed), view),
        0 <= i < j < view.point_clouds@.len(),
    ensures
        exists|a: int, b: int|
            #![trigger app.items.point_clouds@[a], app.items.point_clouds@[b]]
            0 <= a < app.items.point_clouds@.len() && 0 <= b < app.items.point_clouds@.len() && a != b
                && view.point_clouds@[i].id == app.items.point_clouds@[a].id && view.point_clouds@[j].id
                == app.items.point_clouds@[b].id && app.items.point_clouds@[a].name_rank
                <= app.items.point_clouds@[b].name_rank && (app.items.point_clouds@[a].name_rank
                == app.items.point_clouds@[b].name_rank ==> a < b),
{
    let entry = |item: OpenItem<PointCloudDetail>| UiPointCloudEntry::showing(item);
    lemma_ordered(view.point_clouds@, app.items.point_clouds@, entry, i, j);
    let (a, b) = choose|a: int, b: int|
        #![trigger app.items.point_clouds@[a], app.items.point_clouds@[b]]
        0 <= a < app.items.point_clouds@.len() && 0 <= b < app.items.point_clouds@.len() && a != b
            && view.point_clouds@[i] == entry(app.items.point_clouds@[a]) && view.point_clouds@[j] == entry(
            app.items.point_clouds@[b],
        ) && ordered(app.items.point_clouds@, a, b);
    assert(view.point_clouds@[i].id == app.items.point_clouds@[a].id);
}

/// Every one of the rasters is shown, once among as many entries as there are of them,
/// by its own id and name and as it stands.
pub proof fn the_explorer_tells_rasters<P>(
    app: &App<P>,
    unnamed: &str,
    k: int,
    view: UiProjectView,
)
    requires
        call_ensures(App::<P>::current_view, (app, unnamed), view),
        0 <= k < app.items.rasters@.len(),
    ensures
        view.raster_textures@.len() == app.items.rasters@.len(),
        exists|e: int|
            #![trigger view.raster_textures@[e]]
            0 <= e < view.raster_textures@.len() && view.raster_textures@[e].id == app.items.rasters@[k].id
                && view.raster_textures@[e].name == app.items.rasters@[k].name
                && view.raster_textures@[e].source_name == app.items.rasters@[k].state.source_name
                && view.raster_textures@[e].is_loaded == app.items.rasters@[k].state.loaded
                && view.raster_textures@[e].dirty == (app.items.rasters@[k].state.epoch
                != app.items.rasters@[k].state.saved_epoch)
                && view.raster_textures@[e].folder == app.items.rasters@[k].state.folder
                && view.raster_textures@[e].section == app.items.rasters@[k].state.section
                && view.raster_textures@[e].source_width == app.items.rasters@[k].detail.source_width
                && view.raster_textures@[e].source_height == app.items.rasters@[k].detail.source_height
                && view.raster_textures@[e].driver_name == app.items.rasters@[k].detail.driver_name
                && view.raster_textures@[e].projection == app.items.rasters@[k].detail.projection
                && view.raster_textures@[e].is_draped == (exists|t: int|
                0 <= t < app.items.triangulations@.len() && (
                #[trigger] app.items.triangulations@[t]).detail.raster_texture == Some(
                    app.items.rasters@[k].id,
                )),
{
    let id = app.items.rasters@[k].id;
    let draped = draped_rasters(app.items.triangulations@);
    lemma_draped(app.items.triangulations@, id);
    let entry = |item: OpenItem<RasterDetail>| UiRasterTextureEntry::showing(item, draped);
    every_item_is_shown(view.raster_textures@, app.items.rasters@, entry, k);
    let e = choose|e: int|
        0 <= e < view.raster_textures@.len() && view.raster_textures@[e] == entry(app.items.rasters@[k]);
    assert(view.raster_textures@[e].id == id);
}

/// The rasters stand in natural order of their names, and no entry shows anything else.
pub proof fn the_explorer_orders_rasters<P>(
    app: &App<P>,
    unnamed: &str,
    i: int,
    j: int,
    view: UiProjectView,
)
    requires
        call_ensures(App::<P>::current_view, (app, unnamed), view),
        0 <= i < j < view.raster_textures@.len(),
    ensures
        exists|a: int, b: int|
            #![trigger app.items.rasters@[a], app.items.rasters@[b]]
            0 <= a < app.items.rasters@.len() && 0 <= b < app.items.rasters@.len() && a != b
                && view.raster_textures@[i].id == app.items.rasters@[a].id && view.raster_textures@[j].id
                == app.items.rasters@[b].id && app.items.rasters@[a].name_rank
                <= app.items.rasters@[b].name_rank && (app.items.rasters@[a].name_rank
                == app.items.rasters@[b].name_rank ==> a < b),
{
    let draped = draped_rasters(app.items.triangulations@);
    let entry = |item: OpenItem<RasterDetail>| UiRasterTextureEntry::showing(item, draped);
    lemma_ordered(view.raster_textures@, app.items.rasters@, entry, i, j);
    let (a, b) = choose|a: int, b: int|
        #![trigger app.items.rasters@[a], app.items.rasters@[b]]
        0 <= a < app.items.rasters@.len() && 0 <= b < app.items.rasters@.len() && a != b
            && view.raster_textures@[i] == entry(app.items.rasters@[a]) && view.raster_textures@[j] == entry(
            app.items.rasters@[b],
        ) && ordered(app.items.rasters@, a, b);
    assert(view.raster_textures@[i].id == app.items.rasters@[a].id);
}

/// The value at `a` comes before that at `b`: by its key, then by its place.
spec fn ordered<S: Keyed>(list: Seq<S>, a: int, b: int) -> bool {
    let x = list[a].key();
    let y = list[b].key();
    x.0 < y.0 || x.0 == y.0 && (x.1 < y.1 || x.1 == y.1 && a < b)
}

proof fn lemma_ordered<S: Keyed, T>(
    entries: Seq<T>,
    list: Seq<S>,
    entry: spec_fn(S) -> T,
    i: int,
    j: int,
)
    requires
        shown_in_order(entries, list, entry),
        0 <= i < j < entries.len(),
    ensures
        exists|a: int, b: int|
            #![trigger list[a], list[b]]
            0 <= a < list.len() && 0 <= b < list.len() && a != b && entries[i] == entry(list[a])
                && entries[j] == entry(list[b]) && ordered(list, a, b),
{
    let order = choose|order: Seq<usize>| #[trigger]
        is_display_order(order, sort_keys(list)) && crate::view::shown_as(
            entries,
            list,
            entry,
            order,
        );
    let a = order[i] as int;
    let b = order[j] as int;
    assert(entries[i] == entry(list[a]));
    assert(entries[j] == entry(list[b]));
    assert(sort_keys(list)[a] == list[a].key());
    assert(sort_keys(list)[b] == list[b].key());
}

/// Tells the variables that are not special.
pub open spec fn ordinary() -> spec_fn(bool) -> bool {
    |special: bool| !special
}

/// The variables that count are those that are not special.
pub proof fn special_variables_do_not_count(special: &Vec<bool>, count: usize)
    requires
        call_ensures(count_plain_variables, (special,), count),
    ensures
        count == special@.filter(ordinary()).len(),
{
    lemma_plain_count(special@);
}

proof fn lemma_plain_count(special: Seq<bool>)
    ensures
        plain_variables(special) == special.filter(ordinary()).len(),
        plain_variables(special) <= special.len(),
    decreases special.len(),
{
    reveal(Seq::filter);
    if special.len() > 0 {
        lemma_plain_count(special.drop_last());
    }
}

proof fn lemma_draped(items: Seq<OpenItem<TriangulationDetail>>, id: u64)
    ensures
        draped_rasters(items).contains(id) <==> exists|t: int|
            0 <= t < items.len() && (#[trigger] items[t]).detail.raster_texture == Some(id),
    decreases items.len(),
{
    if items.len() > 0 {
        let rest = items.drop_last();
        let before = draped_rasters(rest);
        let all = draped_rasters(items);
        lemma_draped(rest, id);
        if before.contains(id) {
            let k = choose|k: int| 0 <= k < before.len() && before[k] == id;
            assert(all[k] == id);
            let t = choose|t: int|
                0 <= t < rest.len() && (#[trigger] rest[t]).detail.raster_texture == Some(id);
            assert(items[t] == rest[t]);
        }
        if items.last().detail.raster_texture == Some(id) {
            assert(all.last() == id);
            assert(items[items.len() - 1].detail.raster_texture == Some(id));
        }
        if all.contains(id) && !before.contains(id) {
            let k = choose|k: int| 0 <= k < all.len() && all[k] == id;
            if k < before.len() {
                assert(before[k] == id);
            }
            assert(items[items.len() - 1].detail.raster_texture == Some(id));
        }
        if exists|t: int|
            0 <= t < items.len() && (#[trigger] items[t]).detail.raster_texture == Some(id) {
            let t = choose|t: int|
                0 <= t < items.len() && (#[trigger] items[t]).detail.raster_texture == Some(id);
            if t < rest.len() {
                assert(rest[t] == items[t]);
            }
        }
    }
}

/// Every open project is shown: under its own name and id, as unsaved as the open
/// work is, as active exactly if it is the active one, and with its designs starred
/// exactly if its document moved from its savepoint or its list of design folders
/// changed.
pub proof fn the_explorer_tells_projects<P>(
    app: &App<P>,
    unnamed: &str,
    p: int,
    items: bool,
    view: UiProjectView,
)
    requires
        call_ensures(App::<P>::current_view, (app, unnamed), view),
        call_ensures(ProjectItems::has_unsaved_items, (&app.items,), items),
        0 <= p < app.workspace.projects@.len() <= usize::MAX,
    ensures
        view.projects@.len() == app.workspace.projects@.len(),
        exists|e: int|
            #![trigger view.projects@[e]]
            0 <= e < view.projects@.len() && view.projects@[e].runtime_id
                == app.workspace.projects@[p].runtime_id && view.projects@[e].name
                == app.workspace.projects@[p].name && view.projects@[e].path
                == app.workspace.projects@[p].path && view.projects@[e].is_active == (
            app.workspace.active_index == Some(p as usize)) && view.projects@[e].dirty == (
            app.workspace.active() is Some && (app.workspace.active()->0.unsaved || items))
                && view.projects@[e].stored_in_browser
                == (app.workspace.projects@[p].persistence is BrowserRecord)
                && view.projects@[e].lossy_save_warnings@
                == app.workspace.projects@[p].lossy_save_warnings@
                && view.projects@[e].designs_dirty == (
            app.workspace.projects@[p].document.revision
                != app.workspace.projects@[p].savepoint_revision
                || app.workspace.projects@[p].folders.section_names(SectionKind::Designs)
                != app.items.baseline.folders.section_names(SectionKind::Designs))
                && view.projects@[e].layers@.len()
                == app.workspace.projects@[p].document.layers@.len(),
{
    lemma_project_entry(app, unnamed, p, view);
}

proof fn lemma_project_entry<P>(app: &App<P>, unnamed: &str, p: int, view: UiProjectView) -> (e: int)
    requires
        app.shown_by(&view, unnamed@),
        0 <= p < app.workspace.projects@.len() <= usize::MAX,
    ensures
        view.projects@.len() == app.workspace.projects@.len(),
        0 <= e < view.projects@.len(),
        view.projects@[e].shows(
            app.workspace.projects@[p],
            &app.items.baseline.folders,
            app.active_dirty(),
            app.workspace.active_index == Some(p as usize),
        ),
{
    let projects = app.workspace.projects@;
    let order = choose|order: Seq<usize>|
        #![trigger is_display_order(order, sort_keys(projects))]
        is_display_order(order, sort_keys(projects)) && view.projects@.len() == projects.len()
            && forall|i: int|
            0 <= i < view.projects@.len() ==> (#[trigger] view.projects@[i]).shows(
                projects[order[i] as int],
                &app.items.baseline.folders,
                app.active_dirty(),
                app.workspace.active_index == Some(order[i]),
            );
    crate::order::every_entry_is_shown(order, sort_keys(projects), p);
    let e = choose|e: int| 0 <= e < order.len() && order[e] == p;
    assert(view.projects@[e].shows(
        projects[order[e] as int],
        &app.items.baseline.folders,
        app.active_dirty(),
        app.workspace.active_index == Some(order[e]),
    ));
    e
}

/// Every layer of an open project is shown under it, by its own id and name, as
/// loaded exactly if it is, and as dirty exactly if it changed since it was saved.
pub proof fn the_explorer_tells_layers<P>(
    app: &App<P>,
    unnamed: &str,
    p: int,
    l: int,
    view: UiProjectView,
)
    requires
        call_ensures(App::<P>::current_view, (app, unnamed), view),
        0 <= p < app.workspace.projects@.len() <= usize::MAX,
        0 <= l < app.workspace.projects@[p].document.layers@.len(),
    ensures
        exists|e: int, f: int|
            #![trigger view.projects@[e].layers@[f]]
            0 <= e < view.projects@.len() && view.projects@[e].runtime_id
                == app.workspace.projects@[p].runtime_id && 0 <= f < view.projects@[e].layers@.len()
                && view.projects@[e].layers@[f].id
                == app.workspace.projects@[p].document.layers@[l].id
                && view.projects@[e].layers@[f].name
                == app.workspace.projects@[p].document.layers@[l].name
                && view.projects@[e].layers@[f].is_loaded
                == app.workspace.projects@[p].document.layers@[l].loaded
                && view.projects@[e].layers@[f].dirty
                == app.workspace.projects@[p].dirty_layers@.contains(
                app.workspace.projects@[p].document.layers@[l].id,
            ) && view.projects@[e].layers@[f].folder
                == app.workspace.projects@[p].document.layers@[l].folder
                && view.projects@[e].layers@[f].section
                == app.workspace.projects@[p].document.layers@[l].section,
{
    let e = lemma_project_entry(app, unnamed, p, view);
    let project = app.workspace.projects@[p];
    let dirty_layers = project.dirty_layers@;
    let entry = |layer: Layer| UiLayerEntry::showing(layer, dirty_layers);
    every_item_is_shown(view.projects@[e].layers@, project.document.layers@, entry, l);
    let f = choose|f: int|
        0 <= f < view.projects@[e].layers@.len() && view.projects@[e].layers@[f] == entry(
            project.document.layers@[l],
        );
    assert(view.projects@[e].layers@[f].id == project.document.layers@[l].id);
}

/// After everything counted as saved, the explorer stars nothing: not the project,
/// not its designs, no layer and no item, and no section's heading.
pub proof fn a_saved_project_is_not_starred<P>(
    app: &mut App<P>,
    unnamed: &str,
    i: int,
    view: UiProjectView,
)
    requires
        call_ensures(App::<P>::mark_all_project_content_saved, (app,), ()),
        call_ensures(App::<P>::current_view, (&*final(app), unnamed), view),
        old(app).workspace.active() is Some,
        old(app).workspace.projects@.len() == 1,
    ensures
        0 <= i < view.projects@.len() ==> !view.projects@[i].dirty
            && !view.projects@[i].designs_dirty,
        0 <= i < view.triangulations@.len() ==> !view.triangulations@[i].dirty,
        0 <= i < view.block_models@.len() ==> !view.block_models@[i].dirty,
        0 <= i < view.drill_holes@.len() ==> !view.drill_holes@[i].dirty,
        0 <= i < view.point_clouds@.len() ==> !view.point_clouds@[i].dirty,
        0 <= i < view.raster_textures@.len() ==> !view.raster_textures@[i].dirty,
        !view.triangulations_membership_dirty,
        !view.block_models_membership_dirty,
        !view.drill_holes_membership_dirty,
        !view.point_clouds_membership_dirty,
        !view.rasters_membership_dirty,
{
    let before = *old(app);
    let after = *final(app);
    let project = after.workspace.active()->0;
    crate::edits::saved_content_is_clean(&before, &after, project.runtime_id);
    crate::items::saving_everything_leaves_nothing_dirty(
        &before.items,
        &project.folders,
        &after.items,
    );
    assert(after.items.baseline.folders.section_names(SectionKind::Designs)
        == project.folders.section_names(SectionKind::Designs));
    assert(after.items.baseline.folders.section_names(SectionKind::Triangulations)
        == project.folders.section_names(SectionKind::Triangulations));
    assert(after.items.baseline.folders.section_names(SectionKind::BlockModels)
        == project.folders.section_names(SectionKind::BlockModels));
    assert(after.items.baseline.folders.section_names(SectionKind::DrillHoles)
        == project.folders.section_names(SectionKind::DrillHoles));
    assert(after.items.baseline.folders.section_names(SectionKind::PointClouds)
        == project.folders.section_names(SectionKind::PointClouds));
    assert(after.items.baseline.folders.section_names(SectionKind::Rasters)
        == project.folders.section_names(SectionKind::Rasters));
    let e = lemma_project_entry(&after, unnamed, 0, view);
    assert(e == 0);
    if 0 <= i < view.triangulations@.len() {
        let active = after.items.active_triangulation;
        let entry = |item: OpenItem<TriangulationDetail>| UiTriangulationEntry::showing(item, active);
        lemma_entry_of(view.triangulations@, after.items.triangulations@, entry, i);
        let k = choose|k: int|
            0 <= k < after.items.triangulations@.len() && view.triangulations@[i] == entry(
                #[trigger] after.items.triangulations@[k],
            );
        assert(!after.items.triangulations@[k].state.dirty());
    }
    if 0 <= i < view.block_models@.len() {
        let entry = |item: OpenItem<BlockModelDetail>| UiBlockModelEntry::showing(item);
        lemma_entry_of(view.block_models@, after.items.block_models@, entry, i);
        let k = choose|k: int|
            0 <= k < after.items.block_models@.len() && view.block_models@[i] == entry(
                #[trigger] after.items.block_models@[k],
            );
        assert(!after.items.block_models@[k].state.dirty());
    }
    if 0 <= i < view.drill_holes@.len() {
        let entry = |item: OpenItem<DrillHoleDetail>| UiDrillHoleEntry::showing(item);
        lemma_entry_of(view.drill_holes@, after.items.drill_holes@, entry, i);
        let k = choose|k: int|
            0 <= k < after.items.drill_holes@.len() && view.drill_holes@[i] == entry(
                #[trigger] after.items.drill_holes@[k],
            );
        assert(!after.items.drill_holes@[k].state.dirty());
    }
    if 0 <= i < view.point_clouds@.len() {
        let entry = |item: OpenItem<PointCloudDetail>| UiPointCloudEntry::showing(item);
        lemma_entry_of(view.point_clouds@, after.items.point_clouds@, entry, i);
        let k = choose|k: int|
            0 <= k < after.items.point_clouds@.len() && view.point_clouds@[i] == entry(
                #[trigger] after.items.point_clouds@[k],
            );
        assert(!after.items.point_clouds@[k].state.dirty());
    }
    if 0 <= i < view.raster_textures@.len() {
        let draped = draped_rasters(after.items.triangulations@);
        let entry = |item: OpenItem<RasterDetail>| UiRasterTextureEntry::showing(item, draped);
        lemma_entry_of(view.raster_textures@, after.items.rasters@, entry, i);
        let k = choose|k: int|
            0 <= k < after.items.rasters@.len() && view.raster_textures@[i] == entry(
                #[trigger] after.items.rasters@[k],
            );
        assert(!after.items.rasters@[k].state.dirty());
    }
}

proof fn lemma_entry_of<S: Keyed, T>(
    entries: Seq<T>,
    list: Seq<S>,
    entry: spec_fn(S) -> T,
    i: int,
)
    requires
        shown_in_order(entries, list, entry),
        0 <= i < entries.len(),
    ensures
        exists|k: int| 0 <= k < list.len() && entries[i] == entry(#[trigger] list[k]),
{
    let order = choose|order: Seq<usize>| #[trigger]
        is_display_order(order, sort_keys(list)) && crate::view::shown_as(
            entries,
            list,
            entry,
            order,
        );
    assert(entries[i] == entry(list[order[i] as int]));
}

/// On a desktop the project that was opened last stands first among those that can
/// be opened, and each is shown by its file's name, or by its own while it is open.
pub proof fn opened_projects_stand_newest_first<P>(
    app: &App<P>,
    unnamed: &str,
    i: int,
    items: bool,
    view: UiProjectView,
)
    requires
        call_ensures(App::<P>::current_view, (app, unnamed), view),
        call_ensures(ProjectItems::has_unsaved_items, (&app.items,), items),
        app.target == Target::Native,
        0 <= i < app.tracked_project_paths@.len(),
    ensures
        view.tracked_projects@.len() == app.tracked_project_paths@.len(),
        ({
            let path = app.tracked_project_paths@[app.tracked_project_paths@.len() - 1 - i];
            let entry = view.tracked_projects@[i];
            let open = app.workspace.active() is Some && app.workspace.active()->0.path is Some
                && app.workspace.active()->0.path->0.id == path.id;
            &&& entry.path == Some(path)
            &&& entry.id is None
            &&& !entry.stored_in_browser
            &&& entry.is_active == open
            &&& open ==> entry.name@ == app.workspace.active()->0.name@
            &&& !open && path.stem is Some ==> entry.name@ == path.stem->0@
            &&& !open && path.stem is None ==> entry.name@ == unnamed@
            &&& entry.dirty == (open && (app.workspace.active()->0.unsaved || items))
        }),
{
    let entry = view.tracked_projects@[i];
    assert(entry.shows_path(
        app.tracked_project_paths@[app.tracked_project_paths@.len() - 1 - i],
        app.workspace.active(),
        app.active_dirty(),
        unnamed@,
    ));
}

/// On a page every stored project can be opened, under its own name and id, and is
/// active exactly if the open project has that id; an open project that is not
/// stored is offered besides.
pub proof fn stored_projects_are_offered<P>(
    app: &App<P>,
    unnamed: &str,
    i: int,
    items: bool,
    view: UiProjectView,
)
    requires
        call_ensures(App::<P>::current_view, (app, unnamed), view),
        call_ensures(ProjectItems::has_unsaved_items, (&app.items,), items),
        app.target == Target::Web,
    ensures
        0 <= i < app.browser.stored@.len() ==> exists|e: int|
            #![trigger view.tracked_projects@[e]]
            0 <= e < view.tracked_projects@.len() && view.tracked_projects@[e].id == Some(
                app.browser.stored@[i].id,
            ) && view.tracked_projects@[e].name == app.browser.stored@[i].name
                && view.tracked_projects@[e].stored_in_browser
                && view.tracked_projects@[e].path is None && view.tracked_projects@[e].is_active
                == (app.workspace.active() is Some && app.workspace.active()->0.id
                == app.browser.stored@[i].id) && view.tracked_projects@[e].dirty == (
            app.workspace.active() is Some && app.workspace.active()->0.id
                == app.browser.stored@[i].id && (app.workspace.active()->0.unsaved || items)),
        app.workspace.active() is Some && (forall|j: int|
            0 <= j < app.browser.stored@.len() ==> (#[trigger] app.browser.stored@[j]).id
                != app.workspace.active()->0.id) ==> view.tracked_projects@.len()
            == app.browser.stored@.len() + 1 && exists|e: int|
            #![trigger view.tracked_projects@[e]]
            0 <= e < view.tracked_projects@.len() && view.tracked_projects@[e].id == Some(
                app.workspace.active()->0.id,
            ) && view.tracked_projects@[e].name == app.workspace.active()->0.name
                && !view.tracked_projects@[e].stored_in_browser
                && view.tracked_projects@[e].is_active,
        app.workspace.active() is None ==> view.tracked_projects@.len()
            == app.browser.stored@.len(),
{
    let active = app.workspace.active();
    let dirty = app.active_dirty();
    let list = crate::view::offers(app.browser.stored@, active);
    let entry = |offer: crate::view::Offer|
        crate::view::UiTrackedProjectEntry::offering(offer, active, dirty);
    assert(shown_in_order(view.tracked_projects@, list, entry));
    if 0 <= i < app.browser.stored@.len() {
        assert(list[i].id == app.browser.stored@[i].id);
        every_item_is_shown(view.tracked_projects@, list, entry, i);
        let e = choose|e: int|
            0 <= e < view.tracked_projects@.len() && view.tracked_projects@[e] == entry(list[i]);
        assert(view.tracked_projects@[e].id == Some(app.browser.stored@[i].id));
    }
    if active is Some && (forall|j: int|
        0 <= j < app.browser.stored@.len() ==> (#[trigger] app.browser.stored@[j]).id
            != active->0.id) {
        let n = list.len() - 1;
        assert(list[n].id == active->0.id);
        every_item_is_shown(view.tracked_projects@, list, entry, n);
        let e = choose|e: int|
            0 <= e < view.tracked_projects@.len() && view.tracked_projects@[e] == entry(list[n]);
        assert(view.tracked_projects@[e].id == Some(active->0.id));
    }
}

/// What stands above the lists: whether a project is open and where it is kept, the
/// splash until it is dismissed, and the active triangulation for the menus.
pub proof fn the_explorer_tells_the_rest<P>(
    app: &App<P>,
    unnamed: &str,
    k: int,
    view: UiProjectView,
)
    requires
        call_ensures(App::<P>::current_view, (app, unnamed), view),
    ensures
        view.has_active_project <==> app.workspace.active() is Some,
        view.needs_startup_dialog <==> !app.lifecycle.startup_dialog_dismissed,
        app.workspace.active() is Some ==> view.active_path == app.workspace.active()->0.path
            && view.folders.same(&app.workspace.active()->0.folders),
        app.workspace.active() is None ==> view.active_path is None,
        app.items.active_triangulation is None ==> view.active_triangulation_for_menu is None,
        0 <= k < app.items.triangulations@.len() && app.items.active_triangulation == Some(
            app.items.triangulations@[k].id,
        ) && (forall|j: int|
            0 <= j < k ==> (#[trigger] app.items.triangulations@[j]).id
                != app.items.triangulations@[k].id) ==> view.active_triangulation_for_menu == Some(
            (app.items.triangulations@[k].id, app.items.triangulations@[k].detail.color),
        ),
        view.active_triangulation_for_menu is Some ==> app.items.active_triangulation == Some(
            (view.active_triangulation_for_menu->0).0,
        ),
{
    if 0 <= k < app.items.triangulations@.len() && app.items.active_triangulation == Some(
        app.items.triangulations@[k].id,
    ) && (forall|j: int|
        0 <= j < k ==> (#[trigger] app.items.triangulations@[j]).id
            != app.items.triangulations@[k].id) {
        crate::laws::items::lemma_found(app.items.triangulations@, k);
    }
    if app.items.active_triangulation is Some {
        crate::laws::items::lemma_item(
            app.items.triangulations@,
            app.items.active_triangulation->0,
        );
    }
}

/// A section's heading is starred if items of its kind came or went since the last
/// save, or its list of folders changed, and only then.
pub proof fn headings_are_starred_by_their_own_kind<P>(
    app: &App<P>,
    unnamed: &str,
    view: UiProjectView,
    t: bool,
    b: bool,
    d: bool,
    c: bool,
    r: bool,
)
    requires
        call_ensures(App::<P>::current_view, (app, unnamed), view),
        call_ensures(
            crate::items::kind_membership_changed::<TriangulationDetail>,
            (&app.items.triangulations, &app.items.baseline.triangulations),
            t,
        ),
        call_ensures(
            crate::items::kind_membership_changed::<BlockModelDetail>,
            (&app.items.block_models, &app.items.baseline.block_models),
            b,
        ),
        call_ensures(
            crate::items::kind_membership_changed::<DrillHoleDetail>,
            (&app.items.drill_holes, &app.items.baseline.drill_holes),
            d,
        ),
        call_ensures(
            crate::items::kind_membership_changed::<PointCloudDetail>,
            (&app.items.point_clouds, &app.items.baseline.point_clouds),
            c,
        ),
        call_ensures(
            crate::items::kind_membership_changed::<RasterDetail>,
            (&app.items.rasters, &app.items.baseline.rasters),
            r,
        ),
    ensures
        ({
            let changed = |section: SectionKind|
                app.workspace.active() is Some
                    && app.workspace.active()->0.folders.section_names(section)
                    != app.items.baseline.folders.section_names(section);
            &&& view.triangulations_membership_dirty <==> t || changed(SectionKind::Triangulations)
            &&& view.block_models_membership_dirty <==> b || changed(SectionKind::BlockModels)
            &&& view.drill_holes_membership_dirty <==> d || changed(SectionKind::DrillHoles)
            &&& view.point_clouds_membership_dirty <==> c || changed(SectionKind::PointClouds)
            &&& view.rasters_membership_dirty <==> r || changed(SectionKind::Rasters)
        }),
{
}

} // verus!
