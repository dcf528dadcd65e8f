//! Fingerprints: what a change is noticed by.
use crate::app::App;
use crate::editor::{fingerprint_layers, layer_hash, layers_key};
use crate::hashing::word;
use crate::project::{composite_rows, OpenProject, ProjectStore};
use crate::sets::UniqueList;
use crate::view::{file_name_or, ViewCache};
use i18n_embed::fluent::FluentLanguageLoader;
use vstd::prelude::*;

verus! {

/// Between two workspaces with as many projects, no edit of a document, no exchange of
/// a project and no switch to another one goes unwritten.
pub proof fn every_edit_is_written(a: &ProjectStore, b: &ProjectStore, i: int)
    requires
        a.projects@.len() == b.projects@.len(),
        a.active_index is Some ==> a.active_index->0 < a.projects@.len() < u64::MAX,
        b.active_index is Some ==> b.active_index->0 < b.projects@.len() < u64::MAX,
        a.composite_writes() == b.composite_writes(),
    ensures
        a.active_index == b.active_index,
        0 <= i < a.projects@.len() ==> a.projects@[i].runtime_id == b.projects@[i].runtime_id
            && a.projects@[i].document.revision == b.projects@[i].document.revision,
{
    let x = a.composite_writes();
    let y = b.composite_writes();
    assert(x.last() == y.last());
    assert(composite_rows(a.projects@) =~= x.drop_last());
    assert(composite_rows(b.projects@) =~= y.drop_last());
    let m = if a.active_index is Some {
        a.active_index->0 as u64
    } else {
        u64::MAX
    };
    let n = if b.active_index is Some {
        b.active_index->0 as u64
    } else {
        u64::MAX
    };
    lemma_same_word(m, n);
    lemma_composite(a.projects@, b.projects@, i);
}

proof fn lemma_same_word(x: u64, y: u64)
    ensures
        word(x) == word(y) ==> x == y,
{
    vstd::bytes::lemma_auto_spec_u64_to_from_le_bytes();
    assert(vstd::bytes::spec_u64_from_le_bytes(word(x)) == x);
    assert(vstd::bytes::spec_u64_from_le_bytes(word(y)) == y);
}

proof fn lemma_composite(a: Seq<OpenProject>, b: Seq<OpenProject>, i: int)
    requires
        a.len() == b.len(),
        composite_rows(a) == composite_rows(b),
    ensures
        0 <= i < a.len() ==> a[i].runtime_id == b[i].runtime_id && a[i].document.revision
            == b[i].document.revision,
    decreases a.len(),
{
    if a.len() > 0 {
        let x = composite_rows(a);
        let y = composite_rows(b);
        assert(x.drop_last().drop_last() =~= composite_rows(a.drop_last()));
        assert(y.drop_last().drop_last() =~= composite_rows(b.drop_last()));
        assert(x.last() == y.last());
        assert(x.drop_last().last() == y.drop_last().last());
        lemma_same_word(a.last().document.revision, b.last().document.revision);
        lemma_same_word(a.last().runtime_id as u64, b.last().runtime_id as u64);
        lemma_composite(a.drop_last(), b.drop_last(), i);
    }
}

/// Two lists of locked layers that differ in the last one have different fingerprints,
/// wherever the hashes of the two layers differ.
pub proof fn one_layer_decides_the_locks(
    a: &UniqueList<u64>,
    b: &UniqueList<u64>,
    x: u64,
    y: u64,
)
    requires
        call_ensures(fingerprint_layers, (a,), x),
        call_ensures(fingerprint_layers, (b,), y),
        a.listed().len() == b.listed().len(),
        a.listed().len() > 0,
        a.listed().drop_last() == b.listed().drop_last(),
        layer_hash(a.listed().last()) != layer_hash(b.listed().last()),
    ensures
        x != y,
{
    let n = a.listed().len() as u64;
    let k = layers_key(a.listed().drop_last());
    let p = layer_hash(a.listed().last());
    let q = layer_hash(b.listed().last());
    assert(n ^ (k ^ p) != n ^ (k ^ q)) by (bit_vector)
        requires
            p != q,
    ;
}

/// What is shown is kept while the fingerprint stays, and is put together again when
/// there was nothing shown yet; then it shows every item and project there is.
pub proof fn the_view_follows_the_fingerprint<P>(
    cache: &mut ViewCache,
    app: &App<P>,
    loader: &FluentLanguageLoader,
    key: u64,
    fresh: bool,
)
    requires
        call_ensures(ViewCache::project_view::<P>, (cache, app, loader), fresh),
        call_ensures(App::<P>::project_view_key, (app,), key),
    ensures
        final(cache).key == Some(key),
        old(cache).key == Some(key) <==> !fresh,
        !fresh ==> *final(cache) == *old(cache),
        fresh ==> {
            &&& final(cache).view.triangulations@.len() == app.items.triangulations@.len()
            &&& final(cache).view.block_models@.len() == app.items.block_models@.len()
            &&& final(cache).view.drill_holes@.len() == app.items.drill_holes@.len()
            &&& final(cache).view.point_clouds@.len() == app.items.point_clouds@.len()
            &&& final(cache).view.raster_textures@.len() == app.items.rasters@.len()
            &&& final(cache).view.projects@.len() == app.workspace.projects@.len()
            &&& final(cache).view.has_active_project == (app.workspace.active() is Some)
        },
{
}

/// A file goes by its own name; one without a name by the word for that, with the
/// extension.
pub proof fn files_go_by_their_own_name(component: Option<&str>, untitled: &str, name: String)
    requires
        call_ensures(file_name_or, (component, untitled), name),
    ensures
        component is Some ==> name@ == component->0@,
        component is None ==> name@ == untitled@ + ".omf"@,
{
}

} // verus!
