//! What the explorer and the menus show of the projects and items.
use crate::app::{App, BrowserProject};
use crate::i18n::{tr_literal, translates};
use crate::items::{kind_membership_changed, SaveToken};
use crate::language::Target;
use crate::model::{
    find_item, first_item, ids, same_membership, BlockModelDetail, ColorBits, DrillHoleDetail,
    ItemState, OpenItem, PointCloudDetail, RasterDetail, SectionKind, TriangulationDetail,
};
use crate::order::{display_order, display_order_is_unique, every_entry_is_shown, is_display_order};
use crate::project::{
    copied_texts, holds_id, same_texts, Folders, Layer, OpenProject, ProjectPath,
    ProjectPersistence,
};
use crate::text::joined;
use crate::view_key::{count_plain_variables, plain_variables};
use i18n_embed::fluent::FluentLanguageLoader;
use std::collections::hash_map::DefaultHasher;
use vstd::prelude::*;
use vstd::std_specs::hash::DefaultHasherAdditionalSpecFns;

verus! {

/// A layer in the explorer.
pub struct UiLayerEntry {
    pub id: u64,
    pub name: String,
    pub is_loaded: bool,
    pub dirty: bool,
    pub folder: Option<u64>,
    pub section: SectionKind,
}

/// An open project in the explorer.
pub struct UiProjectEntry {
    pub runtime_id: u32,
    pub name: String,
    pub dirty: bool,
    pub designs_dirty: bool,
    pub lossy_save_warnings: Vec<String>,
    pub is_active: bool,
    pub stored_in_browser: bool,
    pub path: Option<ProjectPath>,
    pub layers: Vec<UiLayerEntry>,
}

/// A project that can be opened: on a desktop from a path, on a page from the
/// browser's storage.
pub struct UiTrackedProjectEntry {
    pub name: String,
    pub is_active: bool,
    pub dirty: bool,
    pub path: Option<ProjectPath>,
    pub id: Option<u64>,
    pub stored_in_browser: bool,
}

/// A triangulation in the explorer.
pub struct UiTriangulationEntry {
    pub id: u64,
    pub name: String,
    pub source_name: String,
    pub is_active: bool,
    pub is_loaded: bool,
    pub dirty: bool,
    pub color: ColorBits,
    pub folder: Option<u64>,
    pub section: SectionKind,
}

/// A block model in the explorer.
pub struct UiBlockModelEntry {
    pub id: u64,
    pub name: String,
    pub source_name: String,
    pub is_loaded: bool,
    pub dirty: bool,
    pub block_count: usize,
    pub variable_count: usize,
    pub folder: Option<u64>,
    pub section: SectionKind,
}

/// A drill hole dataset in the explorer.
pub struct UiDrillHoleEntry {
    pub id: u64,
    pub name: String,
    pub source_name: String,
    pub is_loaded: bool,
    pub dirty: bool,
    pub hole_count: usize,
    pub field_count: usize,
    pub folder: Option<u64>,
    pub section: SectionKind,
}

/// A point cloud in the explorer.
pub struct UiPointCloudEntry {
    pub id: u64,
    pub name: String,
    pub source_name: String,
    pub is_loaded: bool,
    pub dirty: bool,
    pub point_count: usize,
    pub folder: Option<u64>,
    pub section: SectionKind,
    pub is_classified: bool,
}

/// A raster in the explorer.
pub struct UiRasterTextureEntry {
    pub id: u64,
    pub name: String,
    pub source_name: String,
    pub is_loaded: bool,
    pub dirty: bool,
    pub is_draped: bool,
    pub source_width: u32,
    pub source_height: u32,
    pub driver_name: String,
    pub projection: String,
    pub folder: Option<u64>,
    pub section: SectionKind,
}

/// Something that is shown in an order of its own.
pub trait Keyed {
    /// What it is ordered by: the place of its name in natural order, then what
    /// decides between equal names.
    spec fn key(&self) -> (u64, u64);

    /// What it is ordered by.
    fn sort_key(&self) -> (key: (u64, u64))
        ensures
            key == self.key(),
    ;
}

impl<D> Keyed for OpenItem<D> {
    open spec fn key(&self) -> (u64, u64) {
        (self.name_rank, 0)
    }

    fn sort_key(&self) -> (key: (u64, u64)) {
        (self.name_rank, 0)
    }
}

impl Keyed for Layer {
    open spec fn key(&self) -> (u64, u64) {
        (self.name_rank, 0)
    }

    fn sort_key(&self) -> (key: (u64, u64)) {
        (self.name_rank, 0)
    }
}

/// Projects of one name are ordered by their paths.
impl Keyed for OpenProject {
    open spec fn key(&self) -> (u64, u64) {
        (self.name_rank, self.path_rank)
    }

    fn sort_key(&self) -> (key: (u64, u64)) {
        (self.name_rank, self.path_rank)
    }
}

/// The keys of a list.
pub open spec fn sort_keys<S: Keyed>(list: Seq<S>) -> Seq<(u64, u64)> {
    list.map_values(|entry: S| entry.key())
}

/// The positions in a list, in the order in which it is shown.
fn shown_order<S: Keyed>(list: &Vec<S>) -> (order: Vec<usize>)
    ensures
        is_display_order(order@, sort_keys(list@)),
{
    let mut keys: Vec<(u64, u64)> = Vec::new();
    let mut i: usize = 0;
    while i < list.len()
        invariant
            i <= list@.len(),
            keys@ == sort_keys(list@.take(i as int)),
        decreases list.len() - i,
    {
        keys.push(list[i].sort_key());
        proof {
            assert(keys@ =~= sort_keys(list@.take(i + 1)));
        }
        i += 1;
    }
    proof {
        assert(list@.take(i as int) =~= list@);
    }
    display_order(&keys)
}

/// All of a list is shown, each by its entry, in order of the keys.
pub open spec fn shown_in_order<S: Keyed, T>(
    entries: Seq<T>,
    list: Seq<S>,
    entry: spec_fn(S) -> T,
) -> bool {
    exists|order: Seq<usize>| #[trigger]
        is_display_order(order, sort_keys(list)) && shown_as(entries, list, entry, order)
}

/// The list is shown in this order.
pub open spec fn shown_as<S, T>(
    entries: Seq<T>,
    list: Seq<S>,
    entry: spec_fn(S) -> T,
    order: Seq<usize>,
) -> bool {
    &&& entries.len() == list.len()
    &&& forall|i: int|
        0 <= i < entries.len() ==> #[trigger] entries[i] == entry(list[order[i] as int])
}

/// An entry that shows an `S`.
trait Entry<S>: Sized {
    /// What the entry depends on besides.
    type Context;

    /// The entry that shows each.
    spec fn shown(context: Self::Context) -> spec_fn(S) -> Self;

    /// The entry that shows one.
    fn of(source: &S, context: &Self::Context) -> (entry: Self)
        ensures
            entry == Self::shown(*context)(*source),
    ;
}

/// Shows all of a list.
fn show_all<S: Keyed, E: Entry<S>>(list: &Vec<S>, context: &E::Context) -> (entries: Vec<E>)
    ensures
        shown_in_order(entries@, list@, E::shown(*context)),
{
    let order: Vec<usize> = shown_order(list);
    let ghost entry = E::shown(*context);
    let mut entries: Vec<E> = Vec::new();
    let mut i: usize = 0;
    while i < order.len()
        invariant
            i <= order@.len() == list@.len(),
            entries@.len() == i,
            is_display_order(order@, sort_keys(list@)),
            entry == E::shown(*context),
            forall|j: int|
                0 <= j < i ==> #[trigger] entries@[j] == entry(list@[order@[j] as int]),
        decreases order.len() - i,
    {
        entries.push(E::of(&list[order[i]], context));
        i += 1;
    }
    proof {
        assert(shown_as(entries@, list@, entry, order@));
    }
    entries
}

/// The count in an item's summary, or what its contents come to without one.
pub open spec fn primary_count(state: ItemState, counted: usize) -> usize {
    match state.summary {
        Some(summary) => summary.primary_count,
        None => counted,
    }
}

fn shown_primary(state: &ItemState, counted: usize) -> (count: usize)
    ensures
        count == primary_count(*state, counted),
{
    match state.summary {
        Some(summary) => summary.primary_count,
        None => counted,
    }
}

/// The second count in an item's summary, or what its contents come to without
/// one.
pub open spec fn secondary_count(state: ItemState, counted: usize) -> usize {
    match state.summary {
        Some(summary) => summary.secondary_count,
        None => counted,
    }
}

fn shown_secondary(state: &ItemState, counted: usize) -> (count: usize)
    ensures
        count == secondary_count(*state, counted),
{
    match state.summary {
        Some(summary) => summary.secondary_count,
        None => counted,
    }
}

impl UiTriangulationEntry {
    /// The entry that shows a triangulation.
    pub open spec fn showing(item: OpenItem<TriangulationDetail>, active: Option<u64>) -> UiTriangulationEntry {
        UiTriangulationEntry {
            id: item.id,
            name: item.name,
            source_name: item.state.source_name,
            is_active: active == Some(item.id),
            is_loaded: item.state.loaded,
            dirty: item.state.dirty(),
            color: item.detail.color,
            folder: item.state.folder,
            section: item.state.section,
        }
    }
}

impl Entry<OpenItem<TriangulationDetail>> for UiTriangulationEntry {
    type Context = Option<u64>;

    spec fn shown(context: Option<u64>) -> spec_fn(OpenItem<TriangulationDetail>) -> UiTriangulationEntry {
        |item: OpenItem<TriangulationDetail>| UiTriangulationEntry::showing(item, context)
    }

    fn of(source: &OpenItem<TriangulationDetail>, context: &Option<u64>) -> (entry: UiTriangulationEntry) {
        UiTriangulationEntry {
            id: source.id,
            name: source.name.clone(),
            source_name: source.state.source_name.clone(),
            is_active: match *context {
                Some(id) => id == source.id,
                None => false,
            },
            is_loaded: source.state.loaded,
            dirty: source.state.is_dirty(),
            color: source.detail.color,
            folder: source.state.folder,
            section: source.state.section,
        }
    }
}

/// The triangulations as they are shown: all of them, in natural order of their names.
pub open spec fn shows_triangulations(
    entries: Seq<UiTriangulationEntry>,
    items: Seq<OpenItem<TriangulationDetail>>,
    active: Option<u64>,
) -> bool {
    shown_in_order(
        entries,
        items,
        |item: OpenItem<TriangulationDetail>| UiTriangulationEntry::showing(item, active),
    )
}

impl UiBlockModelEntry {
    /// The entry that shows a block model.
    pub open spec fn showing(item: OpenItem<BlockModelDetail>) -> UiBlockModelEntry {
        UiBlockModelEntry {
            id: item.id,
            name: item.name,
            source_name: item.state.source_name,
            is_loaded: item.state.loaded,
            dirty: item.state.dirty(),
            block_count: primary_count(item.state, item.detail.renderable_blocks),
            variable_count: plain_variables(item.detail.special_variables@) as usize,
            folder: item.state.folder,
            section: item.state.section,
        }
    }
}

impl Entry<OpenItem<BlockModelDetail>> for UiBlockModelEntry {
    type Context = ();

    spec fn shown(context: ()) -> spec_fn(OpenItem<BlockModelDetail>) -> UiBlockModelEntry {
        |item: OpenItem<BlockModelDetail>| UiBlockModelEntry::showing(item)
    }

    fn of(source: &OpenItem<BlockModelDetail>, _context: &()) -> (entry: UiBlockModelEntry) {
        UiBlockModelEntry {
            id: source.id,
            name: source.name.clone(),
            source_name: source.state.source_name.clone(),
            is_loaded: source.state.loaded,
            dirty: source.state.is_dirty(),
            block_count: shown_primary(&source.state, source.detail.renderable_blocks),
            variable_count: count_plain_variables(&source.detail.special_variables),
            folder: source.state.folder,
            section: source.state.section,
        }
    }
}

/// The block models as they are shown: all of them, in natural order of their names.
pub open spec fn shows_block_models(
    entries: Seq<UiBlockModelEntry>,
    items: Seq<OpenItem<BlockModelDetail>>,
) -> bool {
    shown_in_order(
        entries,
        items,
        |item: OpenItem<BlockModelDetail>| UiBlockModelEntry::showing(item),
    )
}

impl UiDrillHoleEntry {
    /// The entry that shows a drill hole dataset.
    pub open spec fn showing(item: OpenItem<DrillHoleDetail>) -> UiDrillHoleEntry {
        UiDrillHoleEntry {
            id: item.id,
            name: item.name,
            source_name: item.state.source_name,
            is_loaded: item.state.loaded,
            dirty: item.state.dirty(),
            hole_count: primary_count(item.state, item.detail.holes),
            field_count: secondary_count(item.state, item.detail.fields),
            folder: item.state.folder,
            section: item.state.section,
        }
    }
}

impl Entry<OpenItem<DrillHoleDetail>> for UiDrillHoleEntry {
    type Context = ();

    spec fn shown(context: ()) -> spec_fn(OpenItem<DrillHoleDetail>) -> UiDrillHoleEntry {
        |item: OpenItem<DrillHoleDetail>| UiDrillHoleEntry::showing(item)
    }

    fn of(source: &OpenItem<DrillHoleDetail>, _context: &()) -> (entry: UiDrillHoleEntry) {
        UiDrillHoleEntry {
            id: source.id,
            name: source.name.clone(),
            source_name: source.state.source_name.clone(),
            is_loaded: source.state.loaded,
            dirty: source.state.is_dirty(),
            hole_count: shown_primary(&source.state, source.detail.holes),
            field_count: shown_secondary(&source.state, source.detail.fields),
            folder: source.state.folder,
            section: source.state.section,
        }
    }
}

/// The drill holes as they are shown: all of them, in natural order of their names.
pub open spec fn shows_drill_holes(
    entries: Seq<UiDrillHoleEntry>,
    items: Seq<OpenItem<DrillHoleDetail>>,
) -> bool {
    shown_in_order(
        entries,
        items,
        |item: OpenItem<DrillHoleDetail>| UiDrillHoleEntry::showing(item),
    )
}

impl UiPointCloudEntry {
    /// The entry that shows a point cloud.
    pub open spec fn showing(item: OpenItem<PointCloudDetail>) -> UiPointCloudEntry {
        UiPointCloudEntry {
            id: item.id,
            name: item.name,
            source_name: item.state.source_name,
            is_loaded: item.state.loaded,
            dirty: item.state.dirty(),
            point_count: primary_count(item.state, item.detail.points),
            folder: item.state.folder,
            section: item.state.section,
            is_classified: item.detail.classified,
        }
    }
}

impl Entry<OpenItem<PointCloudDetail>> for UiPointCloudEntry {
    type Context = ();

    spec fn shown(context: ()) -> spec_fn(OpenItem<PointCloudDetail>) -> UiPointCloudEntry {
        |item: OpenItem<PointCloudDetail>| UiPointCloudEntry::showing(item)
    }

    fn of(source: &OpenItem<PointCloudDetail>, _context: &()) -> (entry: UiPointCloudEntry) {
        UiPointCloudEntry {
            id: source.id,
            name: source.name.clone(),
            source_name: source.state.source_name.clone(),
            is_loaded: source.state.loaded,
            dirty: source.state.is_dirty(),
            point_count: shown_primary(&source.state, source.detail.points),
            folder: source.state.folder,
            section: source.state.section,
            is_classified: source.detail.classified,
        }
    }
}

/// The point clouds as they are shown: all of them, in natural order of their names.
pub open spec fn shows_point_clouds(
    entries: Seq<UiPointCloudEntry>,
    items: Seq<OpenItem<PointCloudDetail>>,
) -> bool {
    shown_in_order(
        entries,
        items,
        |item: OpenItem<PointCloudDetail>| UiPointCloudEntry::showing(item),
    )
}

impl UiRasterTextureEntry {
    /// The entry that shows a raster.
    pub open spec fn showing(item: OpenItem<RasterDetail>, draped: Seq<u64>) -> UiRasterTextureEntry {
        UiRasterTextureEntry {
            id: item.id,
            name: item.name,
            source_name: item.state.source_name,
            is_loaded: item.state.loaded,
            dirty: item.state.dirty(),
            is_draped: draped.contains(item.id),
            source_width: item.detail.source_width,
            source_height: item.detail.source_height,
            driver_name: item.detail.driver_name,
            projection: item.detail.projection,
            folder: item.state.folder,
            section: item.state.section,
        }
    }
}

impl Entry<OpenItem<RasterDetail>> for UiRasterTextureEntry {
    type Context = Vec<u64>;

    spec fn shown(context: Vec<u64>) -> spec_fn(OpenItem<RasterDetail>) -> UiRasterTextureEntry {
        |item: OpenItem<RasterDetail>| UiRasterTextureEntry::showing(item, context@)
    }

    fn of(source: &OpenItem<RasterDetail>, context: &Vec<u64>) -> (entry: UiRasterTextureEntry) {
        UiRasterTextureEntry {
            id: source.id,
            name: source.name.clone(),
            source_name: source.state.source_name.clone(),
            is_loaded: source.state.loaded,
            dirty: source.state.is_dirty(),
            is_draped: holds_id(context, source.id),
            source_width: source.detail.source_width,
            source_height: source.detail.source_height,
            driver_name: source.detail.driver_name.clone(),
            projection: source.detail.projection.clone(),
            folder: source.state.folder,
            section: source.state.section,
        }
    }
}

/// The rasters as they are shown: all of them, in natural order of their names.
pub open spec fn shows_rasters(
    entries: Seq<UiRasterTextureEntry>,
    items: Seq<OpenItem<RasterDetail>>,
    draped: Seq<u64>,
) -> bool {
    shown_in_order(
        entries,
        items,
        |item: OpenItem<RasterDetail>| UiRasterTextureEntry::showing(item, draped),
    )
}

impl UiLayerEntry {
    /// The entry that shows a layer.
    pub open spec fn showing(layer: Layer, dirty_layers: Seq<u64>) -> UiLayerEntry {
        UiLayerEntry {
            id: layer.id,
            name: layer.name,
            is_loaded: layer.loaded,
            dirty: dirty_layers.contains(layer.id),
            folder: layer.folder,
            section: layer.section,
        }
    }
}

impl Entry<Layer> for UiLayerEntry {
    type Context = Vec<u64>;

    spec fn shown(context: Vec<u64>) -> spec_fn(Layer) -> UiLayerEntry {
        |layer: Layer| UiLayerEntry::showing(layer, context@)
    }

    fn of(source: &Layer, context: &Vec<u64>) -> (entry: UiLayerEntry) {
        UiLayerEntry {
            id: source.id,
            name: source.name.clone(),
            is_loaded: source.loaded,
            dirty: holds_id(context, source.id),
            folder: source.folder,
            section: source.section,
        }
    }
}

/// The layers as they are shown: all of them, in natural order of their names.
pub open spec fn shows_layers(
    entries: Seq<UiLayerEntry>,
    layers: Seq<Layer>,
    dirty_layers: Seq<u64>,
) -> bool {
    shown_in_order(entries, layers, |layer: Layer| UiLayerEntry::showing(layer, dirty_layers))
}

impl OpenProject {
    /// The design document, or the list of its folders, changed since they were
    /// saved.
    pub open spec fn designs_changed(&self, saved: &Folders) -> bool {
        self.document.revision != self.savepoint_revision || self.folders.section_names(
            SectionKind::Designs,
        ) != saved.section_names(SectionKind::Designs)
    }

    /// Whether the design document, or the list of its folders, changed.
    pub fn designs_dirty(&self, saved: &Folders) -> (yes: bool)
        ensures
            yes == self.designs_changed(saved),
    {
        self.document.revision != self.savepoint_revision || !same_texts(
            self.folders.names(SectionKind::Designs),
            saved.names(SectionKind::Designs),
        )
    }
}

impl UiProjectEntry {
    /// The entry shows an open project.
    pub open spec fn shows(
        &self,
        project: OpenProject,
        saved: &Folders,
        dirty: bool,
        active: bool,
    ) -> bool {
        &&& self.runtime_id == project.runtime_id
        &&& self.name == project.name
        &&& self.dirty == dirty
        &&& self.designs_dirty == project.designs_changed(saved)
        &&& self.lossy_save_warnings@ == project.lossy_save_warnings@
        &&& self.is_active == active
        &&& self.stored_in_browser == (project.persistence is BrowserRecord)
        &&& self.path == project.path
        &&& shows_layers(self.layers@, project.document.layers@, project.dirty_layers@)
    }

    /// The entry that shows an open project.
    fn of(project: &OpenProject, saved: &Folders, dirty: bool, active: bool) -> (entry:
        UiProjectEntry)
        ensures
            entry.shows(*project, saved, dirty, active),
    {
        let layers: Vec<UiLayerEntry> = show_all(&project.document.layers, &project.dirty_layers);
        proof {
            let dirty_layers = project.dirty_layers@;
            assert(UiLayerEntry::shown(project.dirty_layers) =~= (|layer: Layer|
                UiLayerEntry::showing(layer, dirty_layers)));
        }
        UiProjectEntry {
            runtime_id: project.runtime_id,
            name: project.name.clone(),
            dirty,
            designs_dirty: project.designs_dirty(saved),
            lossy_save_warnings: copied_texts(&project.lossy_save_warnings),
            is_active: active,
            stored_in_browser: match project.persistence {
                ProjectPersistence::BrowserRecord(_) => true,
                ProjectPersistence::Native => false,
            },
            path: match &project.path {
                Some(path) => Some(path.copied()),
                None => None,
            },
            layers,
        }
    }
}

/// The open projects as they are shown.
pub open spec fn shows_projects(
    entries: Seq<UiProjectEntry>,
    projects: Seq<OpenProject>,
    saved: &Folders,
    dirty: bool,
    active_index: Option<usize>,
) -> bool {
    exists|order: Seq<usize>|
        #![trigger is_display_order(order, sort_keys(projects))]
        is_display_order(order, sort_keys(projects)) && entries.len() == projects.len()
            && forall|i: int|
            0 <= i < entries.len() ==> (#[trigger] entries[i]).shows(
                projects[order[i] as int],
                saved,
                dirty,
                active_index == Some(order[i]),
            )
}

fn show_projects(
    projects: &Vec<OpenProject>,
    saved: &Folders,
    dirty: bool,
    active_index: Option<usize>,
) -> (entries: Vec<UiProjectEntry>)
    ensures
        shows_projects(entries@, projects@, saved, dirty, active_index),
{
    let order: Vec<usize> = shown_order(projects);
    let mut entries: Vec<UiProjectEntry> = Vec::new();
    let mut i: usize = 0;
    while i < order.len()
        invariant
            i <= order@.len() == projects@.len(),
            entries@.len() == i,
            is_display_order(order@, sort_keys(projects@)),
            forall|j: int|
                0 <= j < i ==> (#[trigger] entries@[j]).shows(
                    projects@[order@[j] as int],
                    saved,
                    dirty,
                    active_index == Some(order@[j]),
                ),
        decreases order.len() - i,
    {
        let at: usize = order[i];
        let active: bool = match active_index {
            Some(index) => index == at,
            None => false,
        };
        entries.push(UiProjectEntry::of(&projects[at], saved, dirty, active));
        i += 1;
    }
    entries
}

/// The active project came from the path.
pub open spec fn opened_from(active: Option<OpenProject>, path: ProjectPath) -> bool {
    active is Some && active->0.path is Some && active->0.path->0.id == path.id
}

impl UiTrackedProjectEntry {
    /// The entry shows the project at a path: under its own name while it is
    /// open, else under the file's, or `unnamed` where that is no text.
    pub open spec fn shows_path(
        &self,
        path: ProjectPath,
        active: Option<OpenProject>,
        dirty: bool,
        unnamed: Seq<char>,
    ) -> bool {
        &&& self.is_active == opened_from(active, path)
        &&& self.name@ == (if opened_from(active, path) {
            active->0.name@
        } else {
            match path.stem {
                Some(stem) => stem@,
                None => unnamed,
            }
        })
        &&& self.dirty == (opened_from(active, path) && dirty)
        &&& self.path == Some(path)
        &&& self.id is None
        &&& !self.stored_in_browser
    }

    /// The entry that shows the project at a path.
    fn of_path(path: &ProjectPath, active: Option<&OpenProject>, dirty: bool, unnamed: &str) -> (entry:
        UiTrackedProjectEntry)
        ensures
            entry.shows_path(
                *path,
                match active {
                    Some(p) => Some(*p),
                    None => None,
                },
                dirty,
                unnamed@,
            ),
    {
        let open: Option<&OpenProject> = match active {
            Some(project) => match &project.path {
                Some(from) => if from.id == path.id {
                    Some(project)
                } else {
                    None
                },
                None => None,
            },
            None => None,
        };
        let name: String = match open {
            Some(project) => project.name.clone(),
            None => match &path.stem {
                Some(stem) => stem.clone(),
                None => unnamed.to_owned(),
            },
        };
        UiTrackedProjectEntry {
            name,
            is_active: open.is_some(),
            dirty: open.is_some() && dirty,
            path: Some(path.copied()),
            id: None,
            stored_in_browser: false,
        }
    }
}

/// A project that can be opened on a page.
pub struct Offer {
    pub id: u64,
    pub name: String,
    pub name_rank: u64,
    pub stored: bool,
}

/// The projects that can be opened on a page: the stored ones, and the active
/// one if it is not stored.
pub open spec fn offers(stored: Seq<BrowserProject>, active: Option<OpenProject>) -> Seq<Offer> {
    let kept = stored.map_values(
        |p: BrowserProject|
            Offer { id: p.id, name: p.name, name_rank: p.name_rank, stored: true },
    );
    match active {
        Some(project) if !exists|i: int|
            0 <= i < stored.len() && (#[trigger] stored[i]).id == project.id => kept.push(
            Offer {
                id: project.id,
                name: project.name,
                name_rank: project.name_rank,
                stored: false,
            },
        ),
        _ => kept,
    }
}

fn list_offers(stored: &Vec<BrowserProject>, active: Option<&OpenProject>) -> (list: Vec<Offer>)
    ensures
        list@ == offers(
            stored@,
            match active {
                Some(p) => Some(*p),
                None => None,
            },
        ),
{
    let ghost offer = |p: BrowserProject|
        Offer { id: p.id, name: p.name, name_rank: p.name_rank, stored: true };
    let mut list: Vec<Offer> = Vec::new();
    let mut listed: bool = false;
    let mut i: usize = 0;
    while i < stored.len()
        invariant
            i <= stored@.len(),
            offer == (|p: BrowserProject|
                Offer { id: p.id, name: p.name, name_rank: p.name_rank, stored: true }),
            list@ == stored@.take(i as int).map_values(offer),
            listed == (active is Some && exists|j: int|
                0 <= j < i && (#[trigger] stored@[j]).id == active->0.id),
        decreases stored.len() - i,
    {
        if let Some(project) = active {
            if project.id == stored[i].id {
                listed = true;
            }
        }
        list.push(
            Offer {
                id: stored[i].id,
                name: stored[i].name.clone(),
                name_rank: stored[i].name_rank,
                stored: true,
            },
        );
        proof {
            assert(list@ =~= stored@.take(i + 1).map_values(offer));
        }
        i += 1;
    }
    proof {
        assert(stored@.take(i as int) =~= stored@);
    }
    if let Some(project) = active {
        if !listed {
            list.push(
                Offer {
                    id: project.id,
                    name: project.name.clone(),
                    name_rank: project.name_rank,
                    stored: false,
                },
            );
        }
    }
    list
}

impl Keyed for Offer {
    open spec fn key(&self) -> (u64, u64) {
        (self.name_rank, 0)
    }

    fn sort_key(&self) -> (key: (u64, u64)) {
        (self.name_rank, 0)
    }
}

/// The active project is the one with the id.
pub open spec fn has_id(active: Option<OpenProject>, id: u64) -> bool {
    active is Some && active->0.id == id
}

impl UiTrackedProjectEntry {
    /// The entry that shows an offer.
    pub open spec fn offering(offer: Offer, active: Option<OpenProject>, dirty: bool) -> UiTrackedProjectEntry {
        UiTrackedProjectEntry {
            name: offer.name,
            is_active: has_id(active, offer.id),
            dirty: has_id(active, offer.id) && dirty,
            path: None,
            id: Some(offer.id),
            stored_in_browser: offer.stored,
        }
    }
}

/// What an offer's entry depends on: the id of the active project, and whether
/// that has unsaved work.
struct OfferContext {
    active_id: Option<u64>,
    dirty: bool,
}

impl Entry<Offer> for UiTrackedProjectEntry {
    type Context = OfferContext;

    spec fn shown(context: OfferContext) -> spec_fn(Offer) -> UiTrackedProjectEntry {
        |offer: Offer|
            UiTrackedProjectEntry {
                name: offer.name,
                is_active: context.active_id == Some(offer.id),
                dirty: context.active_id == Some(offer.id) && context.dirty,
                path: None,
                id: Some(offer.id),
                stored_in_browser: offer.stored,
            }
    }

    fn of(source: &Offer, context: &OfferContext) -> (entry: UiTrackedProjectEntry) {
        let open: bool = match context.active_id {
            Some(id) => id == source.id,
            None => false,
        };
        UiTrackedProjectEntry {
            name: source.name.clone(),
            is_active: open,
            dirty: open && context.dirty,
            path: None,
            id: Some(source.id),
            stored_in_browser: source.stored,
        }
    }
}

/// The projects that can be opened, as they are shown: on a desktop the one
/// opened last comes first, on a page they stand in natural order of their
/// names.
pub open spec fn shows_tracked<P>(
    entries: Seq<UiTrackedProjectEntry>,
    app: &App<P>,
    dirty: bool,
    unnamed: Seq<char>,
) -> bool {
    let active = app.workspace.active();
    match app.target {
        Target::Native => {
            let paths = app.tracked_project_paths@;
            &&& entries.len() == paths.len()
            &&& forall|i: int|
                0 <= i < entries.len() ==> (#[trigger] entries[i]).shows_path(
                    paths[paths.len() - 1 - i],
                    active,
                    dirty,
                    unnamed,
                )
        },
        Target::Web => {
            let list = offers(app.browser.stored@, active);
            shown_in_order(
                entries,
                list,
                |offer: Offer| UiTrackedProjectEntry::offering(offer, active, dirty),
            )
        },
    }
}

fn show_paths<P>(app: &App<P>, dirty: bool, unnamed: &str) -> (entries: Vec<UiTrackedProjectEntry>)
    requires
        app.target == Target::Native,
    ensures
        shows_tracked(entries@, app, dirty, unnamed@),
{
    let active: Option<&OpenProject> = app.workspace.active_project();
    let count: usize = app.tracked_project_paths.len();
    let mut entries: Vec<UiTrackedProjectEntry> = Vec::new();
    let mut i: usize = 0;
    while i < count
        invariant
            i <= count == app.tracked_project_paths@.len(),
            entries@.len() == i,
            active == (match app.workspace.active() {
                Some(p) => Some(&p),
                None => None::<&OpenProject>,
            }),
            forall|j: int|
                0 <= j < i ==> (#[trigger] entries@[j]).shows_path(
                    app.tracked_project_paths@[count - 1 - j],
                    app.workspace.active(),
                    dirty,
                    unnamed@,
                ),
        decreases count - i,
    {
        entries.push(
            UiTrackedProjectEntry::of_path(
                &app.tracked_project_paths[count - 1 - i],
                active,
                dirty,
                unnamed,
            ),
        );
        i += 1;
    }
    entries
}

fn show_offers<P>(app: &App<P>, dirty: bool, unnamed: &str) -> (entries: Vec<UiTrackedProjectEntry>)
    requires
        app.target == Target::Web,
    ensures
        shows_tracked(entries@, app, dirty, unnamed@),
{
    let active: Option<&OpenProject> = app.workspace.active_project();
    let list: Vec<Offer> = list_offers(&app.browser.stored, active);
    let context: OfferContext = OfferContext {
        active_id: match active {
            Some(project) => Some(project.id),
            None => None,
        },
        dirty,
    };
    let entries: Vec<UiTrackedProjectEntry> = show_all(&list, &context);
    proof {
        let open = app.workspace.active();
        assert(UiTrackedProjectEntry::shown(context) =~= (|offer: Offer|
            UiTrackedProjectEntry::offering(offer, open, dirty)));
    }
    entries
}

/// The name of a file that a project is kept in: the last component of its
/// path, or the word for what has no title, with the extension, where that is no
/// text.
pub fn file_name(last_component: Option<&str>, loader: &FluentLanguageLoader) -> (name: String)
    ensures
        match last_component {
            Some(component) => name@ == component@,
            None => exists|untitled: Seq<char>| #[trigger]
                translates("Untitled"@, untitled) && name@ == untitled + ".omf"@,
        },
{
    match last_component {
        Some(component) => component.to_owned(),
        None => {
            let untitled: String = tr_literal(loader, "Untitled");
            file_name_or(None, untitled.as_str())
        },
    }
}

/// The last component of a path, or `untitled` with the extension where that is
/// no text.
pub fn file_name_or(last_component: Option<&str>, untitled: &str) -> (name: String)
    ensures
        name@ == (match last_component {
            Some(component) => component@,
            None => untitled@ + ".omf"@,
        }),
{
    match last_component {
        Some(component) => component.to_owned(),
        None => joined(untitled, ".omf"),
    }
}

/// What the explorer and the menus show.
pub struct UiProjectView {
    pub tracked_projects: Vec<UiTrackedProjectEntry>,
    pub projects: Vec<UiProjectEntry>,
    pub triangulations: Vec<UiTriangulationEntry>,
    pub block_models: Vec<UiBlockModelEntry>,
    pub drill_holes: Vec<UiDrillHoleEntry>,
    pub point_clouds: Vec<UiPointCloudEntry>,
    pub raster_textures: Vec<UiRasterTextureEntry>,
    pub triangulations_membership_dirty: bool,
    pub block_models_membership_dirty: bool,
    pub drill_holes_membership_dirty: bool,
    pub point_clouds_membership_dirty: bool,
    pub rasters_membership_dirty: bool,
    pub has_active_project: bool,
    pub needs_startup_dialog: bool,
    pub active_path: Option<ProjectPath>,
    pub active_triangulation_for_menu: Option<(u64, ColorBits)>,
    pub folders: Folders,
}

impl UiProjectView {
    /// Nothing is shown, and nothing shows as unsaved.
    pub open spec fn is_blank(&self) -> bool {
        &&& self.tracked_projects@ == Seq::<UiTrackedProjectEntry>::empty()
        &&& self.projects@ == Seq::<UiProjectEntry>::empty()
        &&& self.triangulations@ == Seq::<UiTriangulationEntry>::empty()
        &&& self.block_models@ == Seq::<UiBlockModelEntry>::empty()
        &&& self.drill_holes@ == Seq::<UiDrillHoleEntry>::empty()
        &&& self.point_clouds@ == Seq::<UiPointCloudEntry>::empty()
        &&& self.raster_textures@ == Seq::<UiRasterTextureEntry>::empty()
        &&& !self.triangulations_membership_dirty
        &&& !self.block_models_membership_dirty
        &&& !self.drill_holes_membership_dirty
        &&& !self.point_clouds_membership_dirty
        &&& !self.rasters_membership_dirty
        &&& !self.has_active_project
        &&& !self.needs_startup_dialog
        &&& self.active_path is None
        &&& self.active_triangulation_for_menu is None
        &&& forall|section: SectionKind| #[trigger]
            self.folders.section_names(section) == Seq::<Seq<char>>::empty()
    }
}

/// The rasters that are draped over a triangulation, one for each of those.
pub open spec fn draped_rasters(items: Seq<OpenItem<TriangulationDetail>>) -> Seq<u64>
    decreases items.len(),
{
    if items.len() == 0 {
        Seq::empty()
    } else {
        match items.last().detail.raster_texture {
            Some(id) => draped_rasters(items.drop_last()).push(id),
            None => draped_rasters(items.drop_last()),
        }
    }
}

fn list_draped(items: &Vec<OpenItem<TriangulationDetail>>) -> (draped: Vec<u64>)
    ensures
        draped@ == draped_rasters(items@),
{
    let mut draped: Vec<u64> = Vec::new();
    let mut i: usize = 0;
    while i < items.len()
        invariant
            i <= items@.len(),
            draped@ == draped_rasters(items@.take(i as int)),
        decreases items.len() - i,
    {
        proof {
            assert(items@.take(i + 1).drop_last() =~= items@.take(i as int));
        }
        if let Some(id) = items[i].detail.raster_texture {
            draped.push(id);
        }
        i += 1;
    }
    proof {
        assert(items@.take(i as int) =~= items@);
    }
    draped
}

/// The entries of each kind of item are those that it is shown by.
proof fn lemma_entries_of_kinds(active: Option<u64>, draped: Vec<u64>)
    ensures
        UiTriangulationEntry::shown(active) == (|item: OpenItem<TriangulationDetail>|
            UiTriangulationEntry::showing(item, active)),
        UiBlockModelEntry::shown(()) == (|item: OpenItem<BlockModelDetail>|
            UiBlockModelEntry::showing(item)),
        UiDrillHoleEntry::shown(()) == (|item: OpenItem<DrillHoleDetail>|
            UiDrillHoleEntry::showing(item)),
        UiPointCloudEntry::shown(()) == (|item: OpenItem<PointCloudDetail>|
            UiPointCloudEntry::showing(item)),
        ({
            let rasters = draped@;
            UiRasterTextureEntry::shown(draped) == (|item: OpenItem<RasterDetail>|
                UiRasterTextureEntry::showing(item, rasters))
        }),
{
    let rasters = draped@;
    assert(UiRasterTextureEntry::shown(draped) =~= (|item: OpenItem<RasterDetail>|
        UiRasterTextureEntry::showing(item, rasters)));
}

impl<P> App<P> {
    /// The open project has unsaved work.
    pub open spec fn active_dirty(&self) -> bool {
        self.workspace.active() is Some && self.content_dirty(
            self.workspace.active()->0.runtime_id,
        )
    }

    /// The list of folders of a section changed since it was saved. Items keep
    /// no record of an empty folder, so the section's heading has to.
    pub open spec fn section_changed(&self, section: SectionKind) -> bool {
        self.workspace.active() is Some && self.workspace.active()->0.folders.section_names(section)
            != self.items.baseline.folders.section_names(section)
    }

    /// Whether the list of folders of a section changed since it was saved.
    fn section_folders_dirty(&self, section: SectionKind) -> (yes: bool)
        ensures
            yes == self.section_changed(section),
    {
        match self.workspace.active_project() {
            Some(project) => !same_texts(
                project.folders.names(section),
                self.items.baseline.folders.names(section),
            ),
            None => false,
        }
    }

    /// The active triangulation and its colour, if the project holds it.
    pub open spec fn menu_triangulation(&self) -> Option<(u64, ColorBits)> {
        match self.items.active_triangulation {
            Some(id) => match first_item(self.items.triangulations@, id) {
                Some(item) => Some((item.id, item.detail.color)),
                None => None,
            },
            None => None,
        }
    }

    /// The active triangulation and its colour, if the project holds it.
    fn active_triangulation_for_menu(&self) -> (shown: Option<(u64, ColorBits)>)
        ensures
            shown == self.menu_triangulation(),
    {
        match self.items.active_triangulation {
            Some(id) => match find_item(&self.items.triangulations, id) {
                Some(i) => Some(
                    (self.items.triangulations[i].id, self.items.triangulations[i].detail.color),
                ),
                None => None,
            },
            None => None,
        }
    }

    /// The headings of the sections, the path, the menu and the folders that
    /// `view` shows are the application's.
    pub open spec fn headed_by(&self, view: &UiProjectView) -> bool {
        let saved = &self.items.baseline;
        &&& view.triangulations_membership_dirty == (!same_membership(
            ids(self.items.triangulations@),
            saved.triangulations@,
        ) || self.section_changed(SectionKind::Triangulations))
        &&& view.block_models_membership_dirty == (!same_membership(
            ids(self.items.block_models@),
            saved.block_models@,
        ) || self.section_changed(SectionKind::BlockModels))
        &&& view.drill_holes_membership_dirty == (!same_membership(
            ids(self.items.drill_holes@),
            saved.drill_holes@,
        ) || self.section_changed(SectionKind::DrillHoles))
        &&& view.point_clouds_membership_dirty == (!same_membership(
            ids(self.items.point_clouds@),
            saved.point_clouds@,
        ) || self.section_changed(SectionKind::PointClouds))
        &&& view.rasters_membership_dirty == (!same_membership(
            ids(self.items.rasters@),
            saved.rasters@,
        ) || self.section_changed(SectionKind::Rasters))
        &&& view.has_active_project == (self.workspace.active() is Some)
        &&& view.needs_startup_dialog == !self.lifecycle.startup_dialog_dismissed
        &&& view.active_path == (match self.workspace.active() {
            Some(project) => project.path,
            None => None,
        })
        &&& view.active_triangulation_for_menu == self.menu_triangulation()
        &&& match self.workspace.active() {
            Some(project) => view.folders.same(&project.folders),
            None => forall|section: SectionKind| #[trigger]
                view.folders.section_names(section) == Seq::<Seq<char>>::empty(),
        }
    }

    /// `view` shows the application; `unnamed` is how a project without a name
    /// is called.
    pub open spec fn shown_by(&self, view: &UiProjectView, unnamed: Seq<char>) -> bool {
        &&& shows_tracked(view.tracked_projects@, self, self.active_dirty(), unnamed)
        &&& shows_projects(
            view.projects@,
            self.workspace.projects@,
            &self.items.baseline.folders,
            self.active_dirty(),
            self.workspace.active_index,
        )
        &&& shows_triangulations(
            view.triangulations@,
            self.items.triangulations@,
            self.items.active_triangulation,
        )
        &&& shows_block_models(view.block_models@, self.items.block_models@)
        &&& shows_drill_holes(view.drill_holes@, self.items.drill_holes@)
        &&& shows_point_clouds(view.point_clouds@, self.items.point_clouds@)
        &&& shows_rasters(
            view.raster_textures@,
            self.items.rasters@,
            draped_rasters(self.items.triangulations@),
        )
        &&& self.headed_by(view)
    }

    /// What the explorer and the menus show now.
    pub fn current_view(&self, unnamed: &str) -> (view: UiProjectView)
        ensures
            self.shown_by(&view, unnamed@),
    {
        let dirty: bool = match self.workspace.active_project() {
            Some(project) => self.project_content_is_dirty(project.runtime_id),
            None => false,
        };
        let tracked_projects: Vec<UiTrackedProjectEntry> = match self.target {
            Target::Native => show_paths(self, dirty, unnamed),
            Target::Web => show_offers(self, dirty, unnamed),
        };
        let saved: &SaveToken = &self.items.baseline;
        let draped: Vec<u64> = list_draped(&self.items.triangulations);
        proof {
            lemma_entries_of_kinds(self.items.active_triangulation, draped);
        }
        UiProjectView {
            tracked_projects,
            projects: show_projects(
                &self.workspace.projects,
                &saved.folders,
                dirty,
                self.workspace.active_index,
            ),
            triangulations: show_all(
                &self.items.triangulations,
                &self.items.active_triangulation,
            ),
            block_models: show_all(&self.items.block_models, &()),
            drill_holes: show_all(&self.items.drill_holes, &()),
            point_clouds: show_all(&self.items.point_clouds, &()),
            raster_textures: show_all(&self.items.rasters, &draped),
            triangulations_membership_dirty: kind_membership_changed(
                &self.items.triangulations,
                &saved.triangulations,
            ) || self.section_folders_dirty(SectionKind::Triangulations),
            block_models_membership_dirty: kind_membership_changed(
                &self.items.block_models,
                &saved.block_models,
            ) || self.section_folders_dirty(SectionKind::BlockModels),
            drill_holes_membership_dirty: kind_membership_changed(
                &self.items.drill_holes,
                &saved.drill_holes,
            ) || self.section_folders_dirty(SectionKind::DrillHoles),
            point_clouds_membership_dirty: kind_membership_changed(
                &self.items.point_clouds,
                &saved.point_clouds,
            ) || self.section_folders_dirty(SectionKind::PointClouds),
            rasters_membership_dirty: kind_membership_changed(&self.items.rasters, &saved.rasters)
                || self.section_folders_dirty(SectionKind::Rasters),
            has_active_project: self.workspace.has_active_project(),
            needs_startup_dialog: !self.lifecycle.startup_dialog_dismissed,
            active_path: match self.workspace.active_project() {
                Some(project) => match &project.path {
                    Some(path) => Some(path.copied()),
                    None => None,
                },
                None => None,
            },
            active_triangulation_for_menu: self.active_triangulation_for_menu(),
            folders: match self.workspace.active_project() {
                Some(project) => project.folders.copied(),
                None => Folders::new(),
            },
        }
    }
}

/// What was shown last, and the fingerprint of what it showed.
pub struct ViewCache {
    pub key: Option<u64>,
    pub view: UiProjectView,
}

impl ViewCache {
    /// The cache before anything was shown.
    pub fn new() -> (cache: ViewCache)
        ensures
            cache.key is None,
            cache.view.is_blank(),
    {
        ViewCache {
            key: None,
            view: UiProjectView {
                tracked_projects: Vec::new(),
                projects: Vec::new(),
                triangulations: Vec::new(),
                block_models: Vec::new(),
                drill_holes: Vec::new(),
                point_clouds: Vec::new(),
                raster_textures: Vec::new(),
                triangulations_membership_dirty: false,
                block_models_membership_dirty: false,
                drill_holes_membership_dirty: false,
                point_clouds_membership_dirty: false,
                rasters_membership_dirty: false,
                has_active_project: false,
                needs_startup_dialog: false,
                active_path: None,
                active_triangulation_for_menu: None,
                folders: Folders::new(),
            },
        }
    }

    /// The view is kept if the fingerprint is that of `app`, and else it is put
    /// together again.
    pub open spec fn refreshed<P>(&self, app: &App<P>, fresh: bool, after: &ViewCache) -> bool {
        let key = DefaultHasher::spec_finish(app.view_writes());
        &&& fresh == (self.key != Some(key))
        &&& after.key == Some(key)
        &&& if fresh {
            exists|unnamed: Seq<char>| #[trigger]
                translates("Project"@, unnamed) && app.shown_by(&after.view, unnamed)
        } else {
            *after == *self
        }
    }

    /// Brings the view up to date. It is put together again only if the
    /// fingerprint changed; `fresh` tells whether it was.
    pub fn project_view<P>(&mut self, app: &App<P>, loader: &FluentLanguageLoader) -> (fresh: bool)
        ensures
            old(self).refreshed(app, fresh, final(self)),
    {
        let key: u64 = app.project_view_key();
        let current: bool = match self.key {
            Some(last) => last == key,
            None => false,
        };
        if current {
            return false;
        }
        let unnamed: String = tr_literal(loader, "Project");
        self.view = app.current_view(unnamed.as_str());
        self.key = Some(key);
        true
    }
}

/// While nothing changes, the view is put together once and kept.
pub proof fn an_unchanged_view_is_kept<P>(
    app: &App<P>,
    before: &ViewCache,
    first: bool,
    once: &ViewCache,
    second: bool,
    twice: &ViewCache,
)
    requires
        before.refreshed(app, first, once),
        once.refreshed(app, second, twice),
    ensures
        !second,
        *twice == *once,
        before.key is None ==> first,
{
}

/// A section whose list of folders changed shows as unsaved, though no item in
/// it changed.
pub proof fn changed_folders_show<P>(app: &App<P>, view: &UiProjectView, unnamed: Seq<char>)
    requires
        app.shown_by(view, unnamed),
    ensures
        app.section_changed(SectionKind::Triangulations) ==> view.triangulations_membership_dirty,
        app.section_changed(SectionKind::BlockModels) ==> view.block_models_membership_dirty,
        app.section_changed(SectionKind::DrillHoles) ==> view.drill_holes_membership_dirty,
        app.section_changed(SectionKind::PointClouds) ==> view.point_clouds_membership_dirty,
        app.section_changed(SectionKind::Rasters) ==> view.rasters_membership_dirty,
{
}

/// What is shown of a kind of items is decided by the items.
pub proof fn items_are_shown_one_way<S: Keyed, T>(
    a: Seq<T>,
    b: Seq<T>,
    items: Seq<S>,
    entry: spec_fn(S) -> T,
)
    requires
        shown_in_order(a, items, entry),
        shown_in_order(b, items, entry),
    ensures
        a == b,
{
    let x = choose|order: Seq<usize>| #[trigger]
        is_display_order(order, sort_keys(items)) && shown_as(a, items, entry, order);
    let y = choose|order: Seq<usize>| #[trigger]
        is_display_order(order, sort_keys(items)) && shown_as(b, items, entry, order);
    display_order_is_unique(x, y, sort_keys(items));
    assert(a =~= b);
}

/// Every item is shown.
pub proof fn every_item_is_shown<S: Keyed, T>(
    entries: Seq<T>,
    items: Seq<S>,
    entry: spec_fn(S) -> T,
    k: int,
)
    requires
        shown_in_order(entries, items, entry),
        0 <= k < items.len(),
    ensures
        entries.contains(entry(items[k])),
{
    let order = choose|order: Seq<usize>| #[trigger]
        is_display_order(order, sort_keys(items)) && shown_as(entries, items, entry, order);
    every_entry_is_shown(order, sort_keys(items), k);
    let i = choose|i: int| 0 <= i < order.len() && order[i] == k;
    assert(entries[i] == entry(items[k]));
}

} // verus!
