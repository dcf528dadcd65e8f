//! A fingerprint of everything that the explorer shows, so that what it shows is
//! put together again only when something changed.
use crate::app::{App, BrowserProject};
use crate::hashing::{
    flag, optional_words, text_words, texts_words, word, write_flag, write_optional, write_text,
    write_texts, write_word,
};
use crate::language::Target;
use crate::model::{
    BlockModelDetail, DrillHoleDetail, ItemState, OpenItem, PointCloudDetail, RasterDetail,
    SceneEntityId, SectionKind, TriangulationDetail,
};
use crate::project::{Folders, Layer, OpenProject, ProjectPath, ProjectPersistence};
use crate::sets::UniqueList;
use crate::text::texts;
use std::collections::hash_map::DefaultHasher;
use std::hash::Hasher;
use vstd::prelude::*;
use vstd::std_specs::hash::DefaultHasherAdditionalSpecFns;

verus! {

/// What is written for each entry of a list, one after the other.
pub open spec fn rows<T>(list: Seq<T>, row: spec_fn(T) -> Seq<Seq<u8>>) -> Seq<Seq<u8>>
    decreases list.len(),
{
    if list.len() == 0 {
        Seq::empty()
    } else {
        rows(list.drop_last(), row) + row(list.last())
    }
}

/// One more entry is written after those before it.
proof fn lemma_next_row<T>(list: Seq<T>, row: spec_fn(T) -> Seq<Seq<u8>>, i: int)
    requires
        0 <= i < list.len(),
    ensures
        rows(list.take(i + 1), row) == rows(list.take(i), row) + row(list[i]),
{
    assert(list.take(i + 1).drop_last() =~= list.take(i));
    assert(list.take(i + 1).last() == list[i]);
}

/// Something of which lists are written, one row for each.
trait Row: Sized {
    /// What a row depends on besides.
    type Context;

    /// What is written for each.
    spec fn row(context: Self::Context) -> spec_fn(Self) -> Seq<Seq<u8>>;

    fn write(&self, context: &Self::Context, hasher: &mut DefaultHasher)
        ensures
            final(hasher)@ == old(hasher)@ + Self::row(*context)(*self),
    ;
}

/// Writes the rows of a list, one after the other.
fn write_rows<T: Row>(hasher: &mut DefaultHasher, list: &Vec<T>, context: &T::Context)
    ensures
        final(hasher)@ == old(hasher)@ + rows(list@, T::row(*context)),
{
    let ghost row = T::row(*context);
    let ghost start = hasher@;
    let mut i: usize = 0;
    proof {
        assert(start + rows(list@.take(0), row) =~= start);
    }
    while i < list.len()
        invariant
            i <= list@.len(),
            row == T::row(*context),
            hasher@ == start + rows(list@.take(i as int), row),
        decreases list.len() - i,
    {
        list[i].write(context, hasher);
        proof {
            lemma_next_row(list@, row, i as int);
            assert(hasher@ =~= start + rows(list@.take(i + 1), row));
        }
        i += 1;
    }
    proof {
        assert(list@.take(i as int) =~= list@);
    }
}

/// The number that is written for a section.
pub open spec fn section_number(section: SectionKind) -> u64 {
    match section {
        SectionKind::Designs => 0,
        SectionKind::Triangulations => 1,
        SectionKind::BlockModels => 2,
        SectionKind::DrillHoles => 3,
        SectionKind::PointClouds => 4,
        SectionKind::Rasters => 5,
    }
}

fn write_section(hasher: &mut DefaultHasher, section: SectionKind)
    ensures
        final(hasher)@ == old(hasher)@.push(word(section_number(section))),
{
    let number: u64 = match section {
        SectionKind::Designs => 0,
        SectionKind::Triangulations => 1,
        SectionKind::BlockModels => 2,
        SectionKind::DrillHoles => 3,
        SectionKind::PointClouds => 4,
        SectionKind::Rasters => 5,
    };
    write_word(hasher, number);
}

/// What is written for a list of texts.
pub open spec fn list_words(list: Seq<String>) -> Seq<Seq<u8>> {
    seq![word(list.len() as u64)] + texts_words(texts(list))
}

fn write_list(hasher: &mut DefaultHasher, list: &Vec<String>)
    ensures
        final(hasher)@ == old(hasher)@ + list_words(list@),
{
    write_texts(hasher, list);
    proof {
        assert(hasher@ =~= old(hasher)@ + list_words(list@));
    }
}

/// What is written for a layer.
pub open spec fn layer_row(layer: Layer) -> Seq<Seq<u8>> {
    seq![word(layer.id)] + text_words(layer.name@) + seq![word(flag(layer.loaded))]
        + optional_words(layer.folder) + seq![word(section_number(layer.section))]
}

impl Row for Layer {
    type Context = ();

    spec fn row(context: ()) -> spec_fn(Layer) -> Seq<Seq<u8>> {
        |layer: Layer| layer_row(layer)
    }

    fn write(&self, _context: &(), hasher: &mut DefaultHasher) {
        write_word(hasher, self.id);
        write_text(hasher, self.name.as_str());
        write_flag(hasher, self.loaded);
        write_optional(hasher, self.folder);
        write_section(hasher, self.section);
        proof {
            assert(hasher@ =~= old(hasher)@ + layer_row(*self));
        }
    }
}

/// What is written for the folders of all sections.
pub open spec fn folder_words(folders: Folders) -> Seq<Seq<u8>> {
    list_words(folders.designs@) + list_words(folders.triangulations@) + list_words(
        folders.block_models@,
    ) + list_words(folders.drill_holes@) + list_words(folders.point_clouds@) + list_words(
        folders.rasters@,
    )
}

fn write_folders(hasher: &mut DefaultHasher, folders: &Folders)
    ensures
        final(hasher)@ == old(hasher)@ + folder_words(*folders),
{
    write_list(hasher, &folders.designs);
    write_list(hasher, &folders.triangulations);
    write_list(hasher, &folders.block_models);
    write_list(hasher, &folders.drill_holes);
    write_list(hasher, &folders.point_clouds);
    write_list(hasher, &folders.rasters);
    proof {
        assert(hasher@ =~= old(hasher)@ + folder_words(*folders));
    }
}

/// What is written for a project's path: its id, if there is one.
pub open spec fn path_id(path: Option<ProjectPath>) -> Option<u64> {
    match path {
        Some(p) => Some(p.id),
        None => None,
    }
}

/// What is written for an open project. On a page, also whether it is stored.
pub open spec fn project_row(project: OpenProject, target: Target) -> Seq<Seq<u8>> {
    seq![word(project.runtime_id as u64)] + optional_words(path_id(project.path)) + (if target
        == Target::Web {
        seq![word(flag(project.persistence is BrowserRecord))]
    } else {
        Seq::empty()
    }) + text_words(project.name@) + list_words(project.lossy_save_warnings@) + seq![
        word(flag(project.unsaved)),
        word(project.document.revision),
        word(project.savepoint_revision),
    ] + rows(project.document.layers@, |l: Layer| layer_row(l)) + folder_words(project.folders)
}

fn write_project_place(hasher: &mut DefaultHasher, project: &OpenProject, target: Target)
    ensures
        final(hasher)@ == old(hasher)@ + (seq![word(project.runtime_id as u64)] + optional_words(
            path_id(project.path),
        ) + (if target == Target::Web {
            seq![word(flag(project.persistence is BrowserRecord))]
        } else {
            Seq::empty()
        })),
{
    write_word(hasher, project.runtime_id as u64);
    match &project.path {
        Some(path) => write_optional(hasher, Some(path.id)),
        None => write_optional(hasher, None),
    }
    match target {
        Target::Web => {
            let stored: bool = match project.persistence {
                ProjectPersistence::BrowserRecord(_) => true,
                ProjectPersistence::Native => false,
            };
            write_flag(hasher, stored);
        },
        Target::Native => {},
    }
    proof {
        assert(hasher@ =~= old(hasher)@ + (seq![word(project.runtime_id as u64)] + optional_words(
            path_id(project.path),
        ) + (if target == Target::Web {
            seq![word(flag(project.persistence is BrowserRecord))]
        } else {
            Seq::empty()
        })));
    }
}

/// The parts that are written for a project one after the other make up its row.
proof fn lemma_project_parts<A>(
    before: Seq<A>,
    place: Seq<A>,
    name: Seq<A>,
    warnings: Seq<A>,
    unsaved: A,
    revision: A,
    savepoint: A,
    layers: Seq<A>,
    folders: Seq<A>,
)
    ensures
        (before + place + name + warnings).push(unsaved).push(revision).push(savepoint) + layers
            + folders == before + (place + name + warnings + seq![unsaved, revision, savepoint]
            + layers + folders),
{
    assert((before + place + name + warnings).push(unsaved).push(revision).push(savepoint) + layers
        + folders =~= before + (place + name + warnings + seq![unsaved, revision, savepoint]
        + layers + folders));
}

impl Row for OpenProject {
    type Context = Target;

    spec fn row(context: Target) -> spec_fn(OpenProject) -> Seq<Seq<u8>> {
        |project: OpenProject| project_row(project, context)
    }

    fn write(&self, context: &Target, hasher: &mut DefaultHasher) {
        write_project_place(hasher, self, *context);
        let ghost place = seq![word(self.runtime_id as u64)] + optional_words(path_id(self.path)) + (
        if *context == Target::Web {
            seq![word(flag(self.persistence is BrowserRecord))]
        } else {
            Seq::empty()
        });
        write_text(hasher, self.name.as_str());
        write_list(hasher, &self.lossy_save_warnings);
        write_flag(hasher, self.unsaved);
        write_word(hasher, self.document.revision);
        write_word(hasher, self.savepoint_revision);
        write_rows(hasher, &self.document.layers, &());
        write_folders(hasher, &self.folders);
        proof {
            let row = |l: Layer| layer_row(l);
            assert(row =~= Layer::row(()));
            lemma_project_parts(
                old(hasher)@,
                place,
                text_words(self.name@),
                list_words(self.lossy_save_warnings@),
                word(flag(self.unsaved)),
                word(self.document.revision),
                word(self.savepoint_revision),
                rows(self.document.layers@, row),
                folder_words(self.folders),
            );
        }
    }
}

/// What is written for what every kind of item has.
pub open spec fn state_words(state: ItemState) -> Seq<Seq<u8>> {
    seq![word(state.epoch), word(state.saved_epoch), word(flag(state.loaded))] + text_words(
        state.source_name@,
    ) + optional_words(state.folder) + seq![word(section_number(state.section))] + (
    match state.summary {
        Some(summary) => seq![
            word(1),
            word(summary.primary_count as u64),
            word(summary.secondary_count as u64),
        ],
        None => seq![word(0)],
    })
}

fn write_state(hasher: &mut DefaultHasher, state: &ItemState)
    ensures
        final(hasher)@ == old(hasher)@ + state_words(*state),
{
    write_word(hasher, state.epoch);
    write_word(hasher, state.saved_epoch);
    write_flag(hasher, state.loaded);
    write_text(hasher, state.source_name.as_str());
    write_optional(hasher, state.folder);
    write_section(hasher, state.section);
    match state.summary {
        Some(summary) => {
            write_word(hasher, 1);
            write_word(hasher, summary.primary_count as u64);
            write_word(hasher, summary.secondary_count as u64);
        },
        None => {
            write_word(hasher, 0);
        },
    }
    proof {
        assert(hasher@ =~= old(hasher)@ + state_words(*state));
    }
}

/// What is written for an item: its id and name, what its kind shows, and what
/// every item has.
pub open spec fn item_row<D>(item: OpenItem<D>, shown: Seq<Seq<u8>>) -> Seq<Seq<u8>> {
    seq![word(item.id)] + text_words(item.name@) + shown + state_words(item.state)
}

/// What a kind of item shows of its own.
trait ShownDetail: Sized {
    /// What that depends on besides.
    type Context;

    spec fn words(item: OpenItem<Self>, context: Self::Context) -> Seq<Seq<u8>>;

    fn write_words(item: &OpenItem<Self>, context: &Self::Context, hasher: &mut DefaultHasher)
        ensures
            final(hasher)@ == old(hasher)@ + Self::words(*item, *context),
    ;
}

impl<D: ShownDetail> Row for OpenItem<D> {
    type Context = D::Context;

    spec fn row(context: D::Context) -> spec_fn(OpenItem<D>) -> Seq<Seq<u8>> {
        |item: OpenItem<D>| item_row(item, D::words(item, context))
    }

    fn write(&self, context: &D::Context, hasher: &mut DefaultHasher) {
        write_word(hasher, self.id);
        write_text(hasher, self.name.as_str());
        D::write_words(self, context, hasher);
        write_state(hasher, &self.state);
        proof {
            assert(hasher@ =~= old(hasher)@ + item_row(*self, D::words(*self, *context)));
        }
    }
}

/// How many of the variables are no special ones.
pub open spec fn plain_variables(special: Seq<bool>) -> nat
    decreases special.len(),
{
    if special.len() == 0 {
        0
    } else {
        plain_variables(special.drop_last()) + (if special.last() {
            0nat
        } else {
            1
        })
    }
}

/// How many of the variables are no special ones.
pub fn count_plain_variables(special: &Vec<bool>) -> (count: usize)
    ensures
        count == plain_variables(special@),
{
    let mut count: usize = 0;
    let mut i: usize = 0;
    while i < special.len()
        invariant
            count <= i <= special@.len(),
            count == plain_variables(special@.take(i as int)),
        decreases special.len() - i,
    {
        proof {
            assert(special@.take(i + 1).drop_last() =~= special@.take(i as int));
        }
        if !special[i] {
            count += 1;
        }
        i += 1;
    }
    proof {
        assert(special@.take(i as int) =~= special@);
    }
    count
}

/// What is written for a triangulation of its own: whether it is visible, what is draped over it, and its colour.
pub open spec fn triangulation_words(item: OpenItem<TriangulationDetail>, hidden: Set<SceneEntityId>) -> Seq<Seq<u8>> {
    seq![word(flag(item.state.loaded && !hidden.contains(SceneEntityId::Triangulation(item.id))))]
        + optional_words(item.detail.raster_texture) + seq![
        word(item.detail.color.r as u64),
        word(item.detail.color.g as u64),
        word(item.detail.color.b as u64),
        word(item.detail.color.a as u64),
    ]
}

impl ShownDetail for TriangulationDetail {
    type Context = UniqueList<SceneEntityId>;

    spec fn words(item: OpenItem<TriangulationDetail>, context: UniqueList<SceneEntityId>) -> Seq<Seq<u8>> {
        triangulation_words(item, context@)
    }

    fn write_words(
        item: &OpenItem<TriangulationDetail>,
        context: &UniqueList<SceneEntityId>,
        hasher: &mut DefaultHasher,
    ) {
        let visible: bool = item.state.loaded && !context.contains(
            SceneEntityId::Triangulation(item.id),
        );
        write_flag(hasher, visible);
        write_optional(hasher, item.detail.raster_texture);
        write_word(hasher, item.detail.color.r as u64);
        write_word(hasher, item.detail.color.g as u64);
        write_word(hasher, item.detail.color.b as u64);
        write_word(hasher, item.detail.color.a as u64);
        proof {
            assert(hasher@ =~= old(hasher)@ + triangulation_words(*item, context@));
        }
    }
}

/// What is written for all triangulations.
pub open spec fn triangulation_rows(items: Seq<OpenItem<TriangulationDetail>>, hidden: Set<SceneEntityId>) -> Seq<Seq<u8>> {
    rows(items, |item: OpenItem<TriangulationDetail>| item_row(item, triangulation_words(item, hidden)))
}

/// What is written for a block model of its own: its blocks and its plain variables.
pub open spec fn block_model_words(item: OpenItem<BlockModelDetail>) -> Seq<Seq<u8>> {
    seq![
        word(item.detail.renderable_blocks as u64),
        word(plain_variables(item.detail.special_variables@) as u64),
    ]
}

impl ShownDetail for BlockModelDetail {
    type Context = ();

    spec fn words(item: OpenItem<BlockModelDetail>, context: ()) -> Seq<Seq<u8>> {
        block_model_words(item)
    }

    fn write_words(
        item: &OpenItem<BlockModelDetail>,
        _context: &(),
        hasher: &mut DefaultHasher,
    ) {
        write_word(hasher, item.detail.renderable_blocks as u64);
        write_word(hasher, count_plain_variables(&item.detail.special_variables) as u64);
        proof {
            assert(hasher@ =~= old(hasher)@ + block_model_words(*item));
        }
    }
}

/// What is written for all block models.
pub open spec fn block_model_rows(items: Seq<OpenItem<BlockModelDetail>>) -> Seq<Seq<u8>> {
    rows(items, |item: OpenItem<BlockModelDetail>| item_row(item, block_model_words(item)))
}

/// What is written for a drill hole of its own: its holes and fields.
pub open spec fn drill_hole_words(item: OpenItem<DrillHoleDetail>) -> Seq<Seq<u8>> {
    seq![word(item.detail.holes as u64), word(item.detail.fields as u64)]
}

impl ShownDetail for DrillHoleDetail {
    type Context = ();

    spec fn words(item: OpenItem<DrillHoleDetail>, context: ()) -> Seq<Seq<u8>> {
        drill_hole_words(item)
    }

    fn write_words(
        item: &OpenItem<DrillHoleDetail>,
        _context: &(),
        hasher: &mut DefaultHasher,
    ) {
        write_word(hasher, item.detail.holes as u64);
        write_word(hasher, item.detail.fields as u64);
        proof {
            assert(hasher@ =~= old(hasher)@ + drill_hole_words(*item));
        }
    }
}

/// What is written for all drill holes.
pub open spec fn drill_hole_rows(items: Seq<OpenItem<DrillHoleDetail>>) -> Seq<Seq<u8>> {
    rows(items, |item: OpenItem<DrillHoleDetail>| item_row(item, drill_hole_words(item)))
}

/// What is written for a point cloud of its own: its points and whether they are classified.
pub open spec fn point_cloud_words(item: OpenItem<PointCloudDetail>) -> Seq<Seq<u8>> {
    seq![word(item.detail.points as u64), word(flag(item.detail.classified))]
}

impl ShownDetail for PointCloudDetail {
    type Context = ();

    spec fn words(item: OpenItem<PointCloudDetail>, context: ()) -> Seq<Seq<u8>> {
        point_cloud_words(item)
    }

    fn write_words(
        item: &OpenItem<PointCloudDetail>,
        _context: &(),
        hasher: &mut DefaultHasher,
    ) {
        write_word(hasher, item.detail.points as u64);
        write_flag(hasher, item.detail.classified);
        proof {
            assert(hasher@ =~= old(hasher)@ + point_cloud_words(*item));
        }
    }
}

/// What is written for all point clouds.
pub open spec fn point_cloud_rows(items: Seq<OpenItem<PointCloudDetail>>) -> Seq<Seq<u8>> {
    rows(items, |item: OpenItem<PointCloudDetail>| item_row(item, point_cloud_words(item)))
}

/// What is written for a raster of its own: its size, its driver and its projection.
pub open spec fn raster_words(item: OpenItem<RasterDetail>) -> Seq<Seq<u8>> {
    seq![word(item.detail.source_width as u64), word(item.detail.source_height as u64)]
        + text_words(item.detail.driver_name@) + text_words(item.detail.projection@)
}

impl ShownDetail for RasterDetail {
    type Context = ();

    spec fn words(item: OpenItem<RasterDetail>, context: ()) -> Seq<Seq<u8>> {
        raster_words(item)
    }

    fn write_words(
        item: &OpenItem<RasterDetail>,
        _context: &(),
        hasher: &mut DefaultHasher,
    ) {
        write_word(hasher, item.detail.source_width as u64);
        write_word(hasher, item.detail.source_height as u64);
        write_text(hasher, item.detail.driver_name.as_str());
        write_text(hasher, item.detail.projection.as_str());
        proof {
            assert(hasher@ =~= old(hasher)@ + raster_words(*item));
        }
    }
}

/// What is written for all rasters.
pub open spec fn raster_rows(items: Seq<OpenItem<RasterDetail>>) -> Seq<Seq<u8>> {
    rows(items, |item: OpenItem<RasterDetail>| item_row(item, raster_words(item)))
}

/// What is written for the projects that can be opened: on a desktop their
/// paths, on a page their ids and names.
pub open spec fn offered_words<P>(app: &App<P>) -> Seq<Seq<u8>> {
    match app.target {
        Target::Native => seq![word(app.tracked_project_paths@.len() as u64)] + rows(
            app.tracked_project_paths@,
            |path: ProjectPath| seq![word(path.id)],
        ),
        Target::Web => rows(
            app.browser.stored@,
            |project: BrowserProject| seq![word(project.id)] + text_words(project.name@),
        ),
    }
}

impl Row for ProjectPath {
    type Context = ();

    spec fn row(context: ()) -> spec_fn(ProjectPath) -> Seq<Seq<u8>> {
        |path: ProjectPath| seq![word(path.id)]
    }

    fn write(&self, _context: &(), hasher: &mut DefaultHasher) {
        write_word(hasher, self.id);
        proof {
            assert(hasher@ =~= old(hasher)@ + seq![word(self.id)]);
        }
    }
}

impl Row for BrowserProject {
    type Context = ();

    spec fn row(context: ()) -> spec_fn(BrowserProject) -> Seq<Seq<u8>> {
        |project: BrowserProject| seq![word(project.id)] + text_words(project.name@)
    }

    fn write(&self, _context: &(), hasher: &mut DefaultHasher) {
        write_word(hasher, self.id);
        write_text(hasher, self.name.as_str());
        proof {
            assert(hasher@ =~= old(hasher)@ + (seq![word(self.id)] + text_words(self.name@)));
        }
    }
}

fn write_offered<P>(hasher: &mut DefaultHasher, app: &App<P>)
    ensures
        final(hasher)@ == old(hasher)@ + offered_words(app),
{
    match app.target {
        Target::Native => {
            write_word(hasher, app.tracked_project_paths.len() as u64);
            write_rows(hasher, &app.tracked_project_paths, &());
            proof {
                assert(ProjectPath::row(()) =~= (|path: ProjectPath| seq![word(path.id)]));
            }
        },
        Target::Web => {
            write_rows(hasher, &app.browser.stored, &());
            proof {
                assert(BrowserProject::row(()) =~= (|project: BrowserProject|
                    seq![word(project.id)] + text_words(project.name@)));
            }
        },
    }
    proof {
        assert(hasher@ =~= old(hasher)@ + offered_words(app));
    }
}

/// The rows of the projects and of each kind of item are those that the
/// fingerprint is made of.
proof fn lemma_rows_of_kinds<P>(app: &App<P>)
    ensures
        ({
            let target = app.target;
            OpenProject::row(target) == (|p: OpenProject| project_row(p, target))
        }),
        rows(app.items.triangulations@, OpenItem::<TriangulationDetail>::row(app.editor.hidden_handles))
            == triangulation_rows(app.items.triangulations@, app.editor.hidden_handles@),
        rows(app.items.block_models@, OpenItem::<BlockModelDetail>::row(())) == block_model_rows(
            app.items.block_models@,
        ),
        rows(app.items.drill_holes@, OpenItem::<DrillHoleDetail>::row(())) == drill_hole_rows(
            app.items.drill_holes@,
        ),
        rows(app.items.point_clouds@, OpenItem::<PointCloudDetail>::row(())) == point_cloud_rows(
            app.items.point_clouds@,
        ),
        rows(app.items.rasters@, OpenItem::<RasterDetail>::row(())) == raster_rows(
            app.items.rasters@,
        ),
{
    let target = app.target;
    let hidden = app.editor.hidden_handles@;
    assert(OpenProject::row(target) =~= (|p: OpenProject| project_row(p, target)));
    assert(OpenItem::<TriangulationDetail>::row(app.editor.hidden_handles) =~= (|
        item: OpenItem<TriangulationDetail>,
    | item_row(item, triangulation_words(item, hidden))));
    assert(OpenItem::<BlockModelDetail>::row(()) =~= (|item: OpenItem<BlockModelDetail>|
        item_row(item, block_model_words(item))));
    assert(OpenItem::<DrillHoleDetail>::row(()) =~= (|item: OpenItem<DrillHoleDetail>|
        item_row(item, drill_hole_words(item))));
    assert(OpenItem::<PointCloudDetail>::row(()) =~= (|item: OpenItem<PointCloudDetail>|
        item_row(item, point_cloud_words(item))));
    assert(OpenItem::<RasterDetail>::row(()) =~= (|item: OpenItem<RasterDetail>|
        item_row(item, raster_words(item))));
}

impl<P> App<P> {
    /// What the fingerprint is made of.
    pub open spec fn view_writes(&self) -> Seq<Seq<u8>> {
        let target = self.target;
        optional_words(
            match self.workspace.active_index {
                Some(i) => Some(i as u64),
                None => None,
            },
        ) + seq![word(flag(self.lifecycle.startup_dialog_dismissed))] + offered_words(self) + rows(
            self.workspace.projects@,
            |p: OpenProject| project_row(p, target),
        ) + optional_words(self.items.active_triangulation) + triangulation_rows(
            self.items.triangulations@,
            self.editor.hidden_handles@,
        ) + block_model_rows(self.items.block_models@) + drill_hole_rows(self.items.drill_holes@)
            + point_cloud_rows(self.items.point_clouds@) + raster_rows(self.items.rasters@)
    }

    /// A fingerprint of what the explorer shows.
    pub fn project_view_key(&self) -> (key: u64)
        ensures
            key == DefaultHasher::spec_finish(self.view_writes()),
    {
        let mut hasher: DefaultHasher = DefaultHasher::new();
        match self.workspace.active_index {
            Some(i) => write_optional(&mut hasher, Some(i as u64)),
            None => write_optional(&mut hasher, None),
        }
        write_flag(&mut hasher, self.lifecycle.startup_dialog_dismissed);
        write_offered(&mut hasher, self);
        let ghost a = optional_words(
            match self.workspace.active_index {
                Some(i) => Some(i as u64),
                None => None,
            },
        );
        let ghost b = seq![word(flag(self.lifecycle.startup_dialog_dismissed))];
        proof {
            assert(hasher@ =~= a + b + offered_words(self));
        }
        write_rows(&mut hasher, &self.workspace.projects, &self.target);
        write_optional(&mut hasher, self.items.active_triangulation);
        write_rows(&mut hasher, &self.items.triangulations, &self.editor.hidden_handles);
        write_rows(&mut hasher, &self.items.block_models, &());
        write_rows(&mut hasher, &self.items.drill_holes, &());
        write_rows(&mut hasher, &self.items.point_clouds, &());
        write_rows(&mut hasher, &self.items.rasters, &());
        proof {
            lemma_rows_of_kinds(self);
            assert(hasher@ == self.view_writes());
        }
        hasher.finish()
    }
}

} // verus!
