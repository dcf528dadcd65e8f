//! What the fingerprint of the explorer tells apart: whatever is shown of a
//! project or an item can be read back from what the fingerprint is made of.
use crate::app::{App, BrowserProject};
use crate::hashing::{flag, optional_words, text_words, texts_words, word};
use crate::language::Target;
use crate::model::{
    BlockModelDetail, ColorBits, DrillHoleDetail, ItemState, OpenItem, PointCloudDetail,
    RasterDetail, SceneEntityId, SectionKind, TriangulationDetail,
};
use crate::project::{Folders, Layer, OpenProject, ProjectPath};
use crate::text::texts;
use crate::view_key::{
    block_model_rows, block_model_words, drill_hole_rows, drill_hole_words, folder_words, item_row,
    layer_row, list_words, offered_words, path_id, plain_variables, point_cloud_rows,
    point_cloud_words, project_row, raster_rows, raster_words, rows, section_number, state_words,
    triangulation_rows, triangulation_words,
};
use vstd::prelude::*;

verus! {

proof fn lemma_grouping(a: Seq<Seq<u8>>, b: Seq<Seq<u8>>, c: Seq<Seq<u8>>)
    ensures
        (a + b) + c == a + (b + c),
{
    assert((a + b) + c =~= a + (b + c));
}

proof fn lemma_grouping_of_five(
    a: Seq<Seq<u8>>,
    b: Seq<Seq<u8>>,
    c: Seq<Seq<u8>>,
    d: Seq<Seq<u8>>,
    e: Seq<Seq<u8>>,
    rest: Seq<Seq<u8>>,
)
    ensures
        (a + b + c + d + e) + rest == a + (b + (c + (d + (e + rest)))),
{
    assert((a + b + c + d + e) + rest =~= a + (b + (c + (d + (e + rest)))));
}

proof fn lemma_grouping_of_three(
    a: Seq<Seq<u8>>,
    b: Seq<Seq<u8>>,
    c: Seq<Seq<u8>>,
    rest: Seq<Seq<u8>>,
)
    ensures
        (a + b + c) + rest == a + (b + (c + rest)),
{
    assert((a + b + c) + rest =~= a + (b + (c + rest)));
}

proof fn lemma_three_words(x: Seq<u8>, y: Seq<u8>, z: Seq<u8>, rest: Seq<Seq<u8>>)
    ensures
        seq![x, y, z] + rest == seq![x] + (seq![y] + (seq![z] + rest)),
{
    assert(seq![x, y, z] + rest =~= seq![x] + (seq![y] + (seq![z] + rest)));
}

/// A number is read back from what is written first.
proof fn lemma_word(x: u64, y: u64, rest: Seq<Seq<u8>>, other: Seq<Seq<u8>>)
    requires
        seq![word(x)] + rest == seq![word(y)] + other,
    ensures
        x == y,
        rest == other,
{
    let a = seq![word(x)] + rest;
    let b = seq![word(y)] + other;
    vstd::bytes::lemma_auto_spec_u64_to_from_le_bytes();
    assert(a[0] == word(x));
    assert(b[0] == word(y));
    assert(vstd::bytes::spec_u64_from_le_bytes(word(x)) == x);
    assert(vstd::bytes::spec_u64_from_le_bytes(word(y)) == y);
    assert(rest =~= a.skip(1));
    assert(other =~= b.skip(1));
}

/// An optional number is read back from what is written first.
proof fn lemma_optional(
    x: Option<u64>,
    y: Option<u64>,
    rest: Seq<Seq<u8>>,
    other: Seq<Seq<u8>>,
)
    requires
        optional_words(x) + rest == optional_words(y) + other,
    ensures
        x == y,
        rest == other,
{
    let more = |v: Option<u64>, r: Seq<Seq<u8>>|
        match v {
            Some(n) => seq![word(n)] + r,
            None => r,
        };
    let tag = |v: Option<u64>| flag(v is Some);
    assert(optional_words(x) + rest =~= seq![word(tag(x))] + more(x, rest));
    assert(optional_words(y) + other =~= seq![word(tag(y))] + more(y, other));
    lemma_word(tag(x), tag(y), more(x, rest), more(y, other));
    if let (Some(a), Some(b)) = (x, y) {
        lemma_word(a, b, rest, other);
    }
}

/// A text is read back from what is written first.
proof fn lemma_text(x: Seq<char>, y: Seq<char>, rest: Seq<Seq<u8>>, other: Seq<Seq<u8>>)
    requires
        text_words(x) + rest == text_words(y) + other,
    ensures
        x == y,
        rest == other,
{
    let a = text_words(x) + rest;
    let b = text_words(y) + other;
    assert(a[0] == vstd::utf8::encode_utf8(x));
    assert(b[0] == vstd::utf8::encode_utf8(y));
    vstd::utf8::encode_utf8_decode_utf8(x);
    vstd::utf8::encode_utf8_decode_utf8(y);
    assert(rest =~= a.skip(2));
    assert(other =~= b.skip(2));
}

/// Two rows that start what is written can be read back: they are of entries
/// that are `same`, and what follows them is equal.
pub open spec fn readable<T>(
    row: spec_fn(T) -> Seq<Seq<u8>>,
    other: spec_fn(T) -> Seq<Seq<u8>>,
    same: spec_fn(T, T) -> bool,
) -> bool {
    forall|x: T, y: T, r: Seq<Seq<u8>>, s: Seq<Seq<u8>>|
        #[trigger] (row(x) + r) == #[trigger] (other(y) + s) ==> same(x, y) && r == s
}

/// The first entry of a list is written first.
proof fn lemma_first_row<T>(list: Seq<T>, row: spec_fn(T) -> Seq<Seq<u8>>)
    requires
        list.len() > 0,
    ensures
        rows(list, row) == row(list[0]) + rows(list.drop_first(), row),
    decreases list.len(),
{
    let rest = list.drop_first();
    if list.len() == 1 {
        assert(list.drop_last() =~= Seq::<T>::empty());
        assert(rest =~= Seq::<T>::empty());
        assert(rows(list, row) =~= row(list[0]) + rows(rest, row));
    } else {
        lemma_first_row(list.drop_last(), row);
        assert(list.drop_last().drop_first() =~= rest.drop_last());
        assert(rest.last() == list.last());
        lemma_grouping(row(list[0]), rows(rest.drop_last(), row), row(list.last()));
    }
}

/// Lists of equal length are read back entry by entry.
proof fn lemma_rows<T>(
    xs: Seq<T>,
    ys: Seq<T>,
    row: spec_fn(T) -> Seq<Seq<u8>>,
    other: spec_fn(T) -> Seq<Seq<u8>>,
    same: spec_fn(T, T) -> bool,
    r: Seq<Seq<u8>>,
    s: Seq<Seq<u8>>,
)
    requires
        xs.len() == ys.len(),
        readable(row, other, same),
        rows(xs, row) + r == rows(ys, other) + s,
    ensures
        forall|i: int| 0 <= i < xs.len() ==> same(#[trigger] xs[i], ys[i]),
        r == s,
    decreases xs.len(),
{
    if xs.len() == 0 {
        assert(rows(xs, row) + r =~= r);
        assert(rows(ys, other) + s =~= s);
    } else {
        let a = rows(xs.drop_first(), row) + r;
        let b = rows(ys.drop_first(), other) + s;
        lemma_first_row(xs, row);
        lemma_first_row(ys, other);
        lemma_grouping(row(xs[0]), rows(xs.drop_first(), row), r);
        lemma_grouping(other(ys[0]), rows(ys.drop_first(), other), s);
        assert(row(xs[0]) + a == other(ys[0]) + b);
        lemma_rows(xs.drop_first(), ys.drop_first(), row, other, same, r, s);
        assert forall|i: int| 0 <= i < xs.len() implies same(#[trigger] xs[i], ys[i]) by {
            if i > 0 {
                assert(xs.drop_first()[i - 1] == xs[i]);
                assert(ys.drop_first()[i - 1] == ys[i]);
            }
        }
    }
}

/// What every kind of item has, as far as it is shown, is the same.
pub open spec fn same_state(a: ItemState, b: ItemState) -> bool {
    &&& a.epoch == b.epoch
    &&& a.saved_epoch == b.saved_epoch
    &&& a.loaded == b.loaded
    &&& a.source_name@ == b.source_name@
    &&& a.folder == b.folder
    &&& a.section == b.section
    &&& a.summary == b.summary
}

proof fn lemma_section(a: SectionKind, b: SectionKind)
    requires
        section_number(a) == section_number(b),
    ensures
        a == b,
{
}

/// What is written for a summary.
spec fn summary_words(state: ItemState) -> Seq<Seq<u8>> {
    match state.summary {
        Some(summary) => seq![
            word(1),
            word(summary.primary_count as u64),
            word(summary.secondary_count as u64),
        ],
        None => seq![word(0)],
    }
}

proof fn lemma_summary(a: ItemState, b: ItemState, r: Seq<Seq<u8>>, s: Seq<Seq<u8>>)
    requires
        summary_words(a) + r == summary_words(b) + s,
    ensures
        a.summary == b.summary,
        r == s,
{
    let more = |state: ItemState, rest: Seq<Seq<u8>>|
        match state.summary {
            Some(summary) => seq![word(summary.primary_count as u64)] + (seq![
                word(summary.secondary_count as u64),
            ] + rest),
            None => rest,
        };
    let tag = |state: ItemState| flag(state.summary is Some);
    assert(summary_words(a) + r =~= seq![word(tag(a))] + more(a, r));
    assert(summary_words(b) + s =~= seq![word(tag(b))] + more(b, s));
    lemma_word(tag(a), tag(b), more(a, r), more(b, s));
    if let (Some(x), Some(y)) = (a.summary, b.summary) {
        let after_x = seq![word(x.secondary_count as u64)] + r;
        let after_y = seq![word(y.secondary_count as u64)] + s;
        lemma_word(x.primary_count as u64, y.primary_count as u64, after_x, after_y);
        lemma_word(x.secondary_count as u64, y.secondary_count as u64, r, s);
    }
}

proof fn lemma_state_grouping(state: ItemState, rest: Seq<Seq<u8>>)
    ensures
        state_words(state) + rest == seq![word(state.epoch)] + (seq![word(state.saved_epoch)] + (
        seq![word(flag(state.loaded))] + (text_words(state.source_name@) + (optional_words(
            state.folder,
        ) + (seq![word(section_number(state.section))] + (summary_words(state) + rest)))))),
{
    let source = text_words(state.source_name@);
    let folder = optional_words(state.folder);
    let section = seq![word(section_number(state.section))];
    let summary = summary_words(state);
    let first = seq![word(state.epoch), word(state.saved_epoch), word(flag(state.loaded))];
    assert(state_words(state) == first + source + folder + section + summary);
    lemma_grouping_of_five(first, source, folder, section, summary, rest);
    lemma_three_words(
        word(state.epoch),
        word(state.saved_epoch),
        word(flag(state.loaded)),
        source + (folder + (section + (summary + rest))),
    );
}

/// What every item has is read back from what is written first.
proof fn lemma_state(a: ItemState, b: ItemState, r: Seq<Seq<u8>>, s: Seq<Seq<u8>>)
    requires
        state_words(a) + r == state_words(b) + s,
    ensures
        same_state(a, b),
        r == s,
{
    let p = summary_words(a) + r;
    let q = summary_words(b) + s;
    let p_section = seq![word(section_number(a.section))] + p;
    let q_section = seq![word(section_number(b.section))] + q;
    let p_folder = optional_words(a.folder) + p_section;
    let q_folder = optional_words(b.folder) + q_section;
    let p_source = text_words(a.source_name@) + p_folder;
    let q_source = text_words(b.source_name@) + q_folder;
    let p_loaded = seq![word(flag(a.loaded))] + p_source;
    let q_loaded = seq![word(flag(b.loaded))] + q_source;
    let p_saved = seq![word(a.saved_epoch)] + p_loaded;
    let q_saved = seq![word(b.saved_epoch)] + q_loaded;
    lemma_state_grouping(a, r);
    lemma_state_grouping(b, s);
    lemma_word(a.epoch, b.epoch, p_saved, q_saved);
    lemma_word(a.saved_epoch, b.saved_epoch, p_loaded, q_loaded);
    lemma_word(flag(a.loaded), flag(b.loaded), p_source, q_source);
    lemma_text(a.source_name@, b.source_name@, p_folder, q_folder);
    lemma_optional(a.folder, b.folder, p_section, q_section);
    lemma_word(section_number(a.section), section_number(b.section), p, q);
    lemma_section(a.section, b.section);
    lemma_summary(a, b, r, s);
}

/// What is shown of an item besides what its kind shows is the same.
pub open spec fn same_item<D>(a: OpenItem<D>, b: OpenItem<D>) -> bool {
    &&& a.id == b.id
    &&& a.name@ == b.name@
    &&& same_state(a.state, b.state)
}

/// The id and name of an item are read back from what is written first.
proof fn lemma_item_row<D>(
    a: OpenItem<D>,
    b: OpenItem<D>,
    x: Seq<Seq<u8>>,
    y: Seq<Seq<u8>>,
    r: Seq<Seq<u8>>,
    s: Seq<Seq<u8>>,
)
    requires
        item_row(a, x) + r == item_row(b, y) + s,
    ensures
        a.id == b.id,
        a.name@ == b.name@,
        x + (state_words(a.state) + r) == y + (state_words(b.state) + s),
{
    let p = x + (state_words(a.state) + r);
    let q = y + (state_words(b.state) + s);
    assert(item_row(a, x) + r =~= seq![word(a.id)] + (text_words(a.name@) + p));
    assert(item_row(b, y) + s =~= seq![word(b.id)] + (text_words(b.name@) + q));
    lemma_word(a.id, b.id, text_words(a.name@) + p, text_words(b.name@) + q);
    lemma_text(a.name@, b.name@, p, q);
}

/// What is written for a colour.
spec fn color_words(color: ColorBits) -> Seq<Seq<u8>> {
    seq![
        word(color.r as u64),
        word(color.g as u64),
        word(color.b as u64),
        word(color.a as u64),
    ]
}

proof fn lemma_color(c: ColorBits, d: ColorBits, p: Seq<Seq<u8>>, q: Seq<Seq<u8>>)
    requires
        color_words(c) + p == color_words(d) + q,
    ensures
        c == d,
        p == q,
{
    let p_alpha = seq![word(c.a as u64)] + p;
    let q_alpha = seq![word(d.a as u64)] + q;
    let p_rest = seq![word(c.g as u64)] + (seq![word(c.b as u64)] + p_alpha);
    let q_rest = seq![word(d.g as u64)] + (seq![word(d.b as u64)] + q_alpha);
    assert(color_words(c) + p =~= seq![word(c.r as u64)] + p_rest);
    assert(color_words(d) + q =~= seq![word(d.r as u64)] + q_rest);
    lemma_word(c.r as u64, d.r as u64, p_rest, q_rest);
    lemma_word(
        c.g as u64,
        d.g as u64,
        seq![word(c.b as u64)] + p_alpha,
        seq![word(d.b as u64)] + q_alpha,
    );
    lemma_word(c.b as u64, d.b as u64, p_alpha, q_alpha);
    lemma_word(c.a as u64, d.a as u64, p, q);
}

/// Two triangulations are shown alike.
pub open spec fn same_triangulation(
    a: OpenItem<TriangulationDetail>,
    b: OpenItem<TriangulationDetail>,
) -> bool {
    same_item(a, b) && a.detail == b.detail
}

proof fn lemma_triangulation(
    a: OpenItem<TriangulationDetail>,
    b: OpenItem<TriangulationDetail>,
    hidden: Set<SceneEntityId>,
    other: Set<SceneEntityId>,
    r: Seq<Seq<u8>>,
    s: Seq<Seq<u8>>,
)
    requires
        item_row(a, triangulation_words(a, hidden)) + r == item_row(
            b,
            triangulation_words(b, other),
        ) + s,
    ensures
        same_triangulation(a, b),
        r == s,
{
    let x = triangulation_words(a, hidden);
    let y = triangulation_words(b, other);
    lemma_item_row(a, b, x, y, r, s);
    let p = state_words(a.state) + r;
    let q = state_words(b.state) + s;
    let c = a.detail.color;
    let d = b.detail.color;
    let visible = flag(a.state.loaded && !hidden.contains(SceneEntityId::Triangulation(a.id)));
    let shown = flag(b.state.loaded && !other.contains(SceneEntityId::Triangulation(b.id)));
    let pr = color_words(c) + p;
    let qr = color_words(d) + q;
    let pt = optional_words(a.detail.raster_texture) + pr;
    let qt = optional_words(b.detail.raster_texture) + qr;
    lemma_grouping_of_three(
        seq![word(visible)],
        optional_words(a.detail.raster_texture),
        color_words(c),
        p,
    );
    lemma_grouping_of_three(
        seq![word(shown)],
        optional_words(b.detail.raster_texture),
        color_words(d),
        q,
    );
    lemma_word(visible, shown, pt, qt);
    lemma_optional(a.detail.raster_texture, b.detail.raster_texture, pr, qr);
    lemma_color(c, d, p, q);
    lemma_state(a.state, b.state, r, s);
}

/// Two block models are shown alike.
pub open spec fn same_block_model(
    a: OpenItem<BlockModelDetail>,
    b: OpenItem<BlockModelDetail>,
) -> bool {
    &&& same_item(a, b)
    &&& a.detail.renderable_blocks == b.detail.renderable_blocks
    &&& plain_variables(a.detail.special_variables@) == plain_variables(
        b.detail.special_variables@,
    )
}

proof fn lemma_plain_variables(special: Seq<bool>)
    ensures
        plain_variables(special) <= special.len(),
    decreases special.len(),
{
    if special.len() > 0 {
        lemma_plain_variables(special.drop_last());
    }
}

proof fn lemma_block_model(
    a: OpenItem<BlockModelDetail>,
    b: OpenItem<BlockModelDetail>,
    r: Seq<Seq<u8>>,
    s: Seq<Seq<u8>>,
)
    requires
        item_row(a, block_model_words(a)) + r == item_row(b, block_model_words(b)) + s,
    ensures
        same_block_model(a, b),
        r == s,
{
    lemma_item_row(a, b, block_model_words(a), block_model_words(b), r, s);
    let p = state_words(a.state) + r;
    let q = state_words(b.state) + s;
    let m = plain_variables(a.detail.special_variables@);
    let n = plain_variables(b.detail.special_variables@);
    lemma_plain_variables(a.detail.special_variables@);
    lemma_plain_variables(b.detail.special_variables@);
    assert(m <= a.detail.special_variables.len());
    assert(n <= b.detail.special_variables.len());
    let pv = seq![word(m as u64)] + p;
    let qv = seq![word(n as u64)] + q;
    assert(block_model_words(a) + p =~= seq![word(a.detail.renderable_blocks as u64)] + pv);
    assert(block_model_words(b) + q =~= seq![word(b.detail.renderable_blocks as u64)] + qv);
    lemma_word(a.detail.renderable_blocks as u64, b.detail.renderable_blocks as u64, pv, qv);
    lemma_word(m as u64, n as u64, p, q);
    lemma_state(a.state, b.state, r, s);
}

/// Two drill hole datasets are shown alike.
pub open spec fn same_drill_holes(
    a: OpenItem<DrillHoleDetail>,
    b: OpenItem<DrillHoleDetail>,
) -> bool {
    same_item(a, b) && a.detail == b.detail
}

proof fn lemma_drill_holes(
    a: OpenItem<DrillHoleDetail>,
    b: OpenItem<DrillHoleDetail>,
    r: Seq<Seq<u8>>,
    s: Seq<Seq<u8>>,
)
    requires
        item_row(a, drill_hole_words(a)) + r == item_row(b, drill_hole_words(b)) + s,
    ensures
        same_drill_holes(a, b),
        r == s,
{
    lemma_item_row(a, b, drill_hole_words(a), drill_hole_words(b), r, s);
    let p = state_words(a.state) + r;
    let q = state_words(b.state) + s;
    let pf = seq![word(a.detail.fields as u64)] + p;
    let qf = seq![word(b.detail.fields as u64)] + q;
    assert(drill_hole_words(a) + p =~= seq![word(a.detail.holes as u64)] + pf);
    assert(drill_hole_words(b) + q =~= seq![word(b.detail.holes as u64)] + qf);
    lemma_word(a.detail.holes as u64, b.detail.holes as u64, pf, qf);
    lemma_word(a.detail.fields as u64, b.detail.fields as u64, p, q);
    lemma_state(a.state, b.state, r, s);
}

/// Two point clouds are shown alike.
pub open spec fn same_point_cloud(
    a: OpenItem<PointCloudDetail>,
    b: OpenItem<PointCloudDetail>,
) -> bool {
    same_item(a, b) && a.detail == b.detail
}

proof fn lemma_point_cloud(
    a: OpenItem<PointCloudDetail>,
    b: OpenItem<PointCloudDetail>,
    r: Seq<Seq<u8>>,
    s: Seq<Seq<u8>>,
)
    requires
        item_row(a, point_cloud_words(a)) + r == item_row(b, point_cloud_words(b)) + s,
    ensures
        same_point_cloud(a, b),
        r == s,
{
    lemma_item_row(a, b, point_cloud_words(a), point_cloud_words(b), r, s);
    let p = state_words(a.state) + r;
    let q = state_words(b.state) + s;
    let pc = seq![word(flag(a.detail.classified))] + p;
    let qc = seq![word(flag(b.detail.classified))] + q;
    assert(point_cloud_words(a) + p =~= seq![word(a.detail.points as u64)] + pc);
    assert(point_cloud_words(b) + q =~= seq![word(b.detail.points as u64)] + qc);
    lemma_word(a.detail.points as u64, b.detail.points as u64, pc, qc);
    lemma_word(flag(a.detail.classified), flag(b.detail.classified), p, q);
    lemma_state(a.state, b.state, r, s);
}

/// Two rasters are shown alike.
pub open spec fn same_raster(a: OpenItem<RasterDetail>, b: OpenItem<RasterDetail>) -> bool {
    &&& same_item(a, b)
    &&& a.detail.source_width == b.detail.source_width
    &&& a.detail.source_height == b.detail.source_height
    &&& a.detail.driver_name@ == b.detail.driver_name@
    &&& a.detail.projection@ == b.detail.projection@
}

proof fn lemma_raster(
    a: OpenItem<RasterDetail>,
    b: OpenItem<RasterDetail>,
    r: Seq<Seq<u8>>,
    s: Seq<Seq<u8>>,
)
    requires
        item_row(a, raster_words(a)) + r == item_row(b, raster_words(b)) + s,
    ensures
        same_raster(a, b),
        r == s,
{
    lemma_item_row(a, b, raster_words(a), raster_words(b), r, s);
    let p = state_words(a.state) + r;
    let q = state_words(b.state) + s;
    let pp = text_words(a.detail.projection@) + p;
    let qp = text_words(b.detail.projection@) + q;
    let pd = text_words(a.detail.driver_name@) + pp;
    let qd = text_words(b.detail.driver_name@) + qp;
    let ph = seq![word(a.detail.source_height as u64)] + pd;
    let qh = seq![word(b.detail.source_height as u64)] + qd;
    assert(raster_words(a) + p =~= seq![word(a.detail.source_width as u64)] + ph);
    assert(raster_words(b) + q =~= seq![word(b.detail.source_width as u64)] + qh);
    lemma_word(a.detail.source_width as u64, b.detail.source_width as u64, ph, qh);
    lemma_word(a.detail.source_height as u64, b.detail.source_height as u64, pd, qd);
    lemma_text(a.detail.driver_name@, b.detail.driver_name@, pp, qp);
    lemma_text(a.detail.projection@, b.detail.projection@, p, q);
    lemma_state(a.state, b.state, r, s);
}

/// Texts are written one after the other.
proof fn lemma_texts_are_rows(list: Seq<Seq<char>>)
    ensures
        texts_words(list) == rows(list, |text: Seq<char>| text_words(text)),
    decreases list.len(),
{
    if list.len() > 0 {
        lemma_texts_are_rows(list.drop_last());
    }
}

/// A list of texts is read back from what is written first.
proof fn lemma_list(
    a: Seq<String>,
    b: Seq<String>,
    r: Seq<Seq<u8>>,
    s: Seq<Seq<u8>>,
)
    requires
        a.len() <= u64::MAX,
        b.len() <= u64::MAX,
        list_words(a) + r == list_words(b) + s,
    ensures
        texts(a) == texts(b),
        r == s,
{
    let row = |text: Seq<char>| text_words(text);
    let same = |x: Seq<char>, y: Seq<char>| x == y;
    lemma_grouping(seq![word(a.len() as u64)], texts_words(texts(a)), r);
    lemma_grouping(seq![word(b.len() as u64)], texts_words(texts(b)), s);
    lemma_word(
        a.len() as u64,
        b.len() as u64,
        texts_words(texts(a)) + r,
        texts_words(texts(b)) + s,
    );
    lemma_texts_are_rows(texts(a));
    lemma_texts_are_rows(texts(b));
    assert(readable(row, row, same)) by {
        assert forall|x: Seq<char>, y: Seq<char>, p: Seq<Seq<u8>>, q: Seq<Seq<u8>>|
            #[trigger] (row(x) + p) == #[trigger] (row(y) + q) implies same(x, y) && p == q by {
            lemma_text(x, y, p, q);
        }
    }
    lemma_rows(texts(a), texts(b), row, row, same, r, s);
    assert(texts(a) =~= texts(b)) by {
        assert forall|i: int| 0 <= i < texts(a).len() implies texts(a)[i] == texts(b)[i] by {
            assert(same(texts(a)[i], texts(b)[i]));
        }
    }
}

/// Two layers are shown alike.
pub open spec fn same_layer(a: Layer, b: Layer) -> bool {
    &&& a.id == b.id
    &&& a.name@ == b.name@
    &&& a.loaded == b.loaded
    &&& a.folder == b.folder
    &&& a.section == b.section
}

proof fn lemma_layer(a: Layer, b: Layer, r: Seq<Seq<u8>>, s: Seq<Seq<u8>>)
    requires
        layer_row(a) + r == layer_row(b) + s,
    ensures
        same_layer(a, b),
        r == s,
{
    let p_section = seq![word(section_number(a.section))] + r;
    let q_section = seq![word(section_number(b.section))] + s;
    let p_folder = optional_words(a.folder) + p_section;
    let q_folder = optional_words(b.folder) + q_section;
    let p_loaded = seq![word(flag(a.loaded))] + p_folder;
    let q_loaded = seq![word(flag(b.loaded))] + q_folder;
    let p_name = text_words(a.name@) + p_loaded;
    let q_name = text_words(b.name@) + q_loaded;
    lemma_grouping_of_five(
        seq![word(a.id)],
        text_words(a.name@),
        seq![word(flag(a.loaded))],
        optional_words(a.folder),
        seq![word(section_number(a.section))],
        r,
    );
    lemma_grouping_of_five(
        seq![word(b.id)],
        text_words(b.name@),
        seq![word(flag(b.loaded))],
        optional_words(b.folder),
        seq![word(section_number(b.section))],
        s,
    );
    lemma_word(a.id, b.id, p_name, q_name);
    lemma_text(a.name@, b.name@, p_loaded, q_loaded);
    lemma_word(flag(a.loaded), flag(b.loaded), p_folder, q_folder);
    lemma_optional(a.folder, b.folder, p_section, q_section);
    lemma_word(section_number(a.section), section_number(b.section), r, s);
    lemma_section(a.section, b.section);
}

proof fn lemma_layers(a: Seq<Layer>, b: Seq<Layer>, r: Seq<Seq<u8>>, s: Seq<Seq<u8>>)
    requires
        a.len() == b.len(),
        rows(a, |l: Layer| layer_row(l)) + r == rows(b, |l: Layer| layer_row(l)) + s,
    ensures
        forall|i: int| 0 <= i < a.len() ==> same_layer(#[trigger] a[i], b[i]),
        r == s,
{
    let row = |l: Layer| layer_row(l);
    let same = |x: Layer, y: Layer| same_layer(x, y);
    assert(readable(row, row, same)) by {
        assert forall|x: Layer, y: Layer, p: Seq<Seq<u8>>, q: Seq<Seq<u8>>|
            #[trigger] (row(x) + p) == #[trigger] (row(y) + q) implies same(x, y) && p == q by {
            lemma_layer(x, y, p, q);
        }
    }
    lemma_rows(a, b, row, row, same, r, s);
    assert forall|i: int| 0 <= i < a.len() implies same_layer(#[trigger] a[i], b[i]) by {
        assert(same(a[i], b[i]));
    }
}

proof fn lemma_folders(a: Folders, b: Folders, r: Seq<Seq<u8>>, s: Seq<Seq<u8>>)
    requires
        folder_words(a) + r == folder_words(b) + s,
    ensures
        a.same(&b),
        r == s,
{
    let p_rasters = list_words(a.rasters@) + r;
    let q_rasters = list_words(b.rasters@) + s;
    let p_clouds = list_words(a.point_clouds@) + p_rasters;
    let q_clouds = list_words(b.point_clouds@) + q_rasters;
    let p_holes = list_words(a.drill_holes@) + p_clouds;
    let q_holes = list_words(b.drill_holes@) + q_clouds;
    let p_models = list_words(a.block_models@) + p_holes;
    let q_models = list_words(b.block_models@) + q_holes;
    let p_surfaces = list_words(a.triangulations@) + p_models;
    let q_surfaces = list_words(b.triangulations@) + q_models;
    lemma_folder_grouping(a, r);
    lemma_folder_grouping(b, s);
    assert(a.designs.len() == a.designs@.len() && b.designs.len() == b.designs@.len());
    lemma_list(a.designs@, b.designs@, p_surfaces, q_surfaces);
    assert(a.triangulations.len() == a.triangulations@.len());
    assert(b.triangulations.len() == b.triangulations@.len());
    lemma_list(a.triangulations@, b.triangulations@, p_models, q_models);
    assert(a.block_models.len() == a.block_models@.len());
    assert(b.block_models.len() == b.block_models@.len());
    lemma_list(a.block_models@, b.block_models@, p_holes, q_holes);
    assert(a.drill_holes.len() == a.drill_holes@.len());
    assert(b.drill_holes.len() == b.drill_holes@.len());
    lemma_list(a.drill_holes@, b.drill_holes@, p_clouds, q_clouds);
    assert(a.point_clouds.len() == a.point_clouds@.len());
    assert(b.point_clouds.len() == b.point_clouds@.len());
    lemma_list(a.point_clouds@, b.point_clouds@, p_rasters, q_rasters);
    assert(a.rasters.len() == a.rasters@.len() && b.rasters.len() == b.rasters@.len());
    lemma_list(a.rasters@, b.rasters@, r, s);
}

proof fn lemma_folder_grouping(folders: Folders, rest: Seq<Seq<u8>>)
    ensures
        folder_words(folders) + rest == list_words(folders.designs@) + (list_words(
            folders.triangulations@,
        ) + (list_words(folders.block_models@) + (list_words(folders.drill_holes@) + (list_words(
            folders.point_clouds@,
        ) + (list_words(folders.rasters@) + rest))))),
{
    let a = list_words(folders.designs@);
    let b = list_words(folders.triangulations@);
    let c = list_words(folders.block_models@);
    let d = list_words(folders.drill_holes@);
    let e = list_words(folders.point_clouds@);
    let f = list_words(folders.rasters@);
    lemma_grouping(a + b + c + d + e, f, rest);
    lemma_grouping_of_five(a, b, c, d, e, f + rest);
}

/// Two open projects are shown alike. Whether they are stored shows on a page.
pub open spec fn same_project(a: OpenProject, b: OpenProject, target: Target) -> bool {
    &&& a.runtime_id == b.runtime_id
    &&& path_id(a.path) == path_id(b.path)
    &&& target == Target::Web ==> (a.persistence is BrowserRecord) == (
    b.persistence is BrowserRecord)
    &&& a.name@ == b.name@
    &&& texts(a.lossy_save_warnings@) == texts(b.lossy_save_warnings@)
    &&& a.unsaved == b.unsaved
    &&& a.document.revision == b.document.revision
    &&& a.savepoint_revision == b.savepoint_revision
    &&& forall|i: int|
        0 <= i < a.document.layers@.len() ==> same_layer(
            #[trigger] a.document.layers@[i],
            b.document.layers@[i],
        )
    &&& a.folders.same(&b.folders)
}

/// Whether a project is stored, as it is written on a page.
spec fn stored_words(project: OpenProject, target: Target) -> Seq<Seq<u8>> {
    if target == Target::Web {
        seq![word(flag(project.persistence is BrowserRecord))]
    } else {
        Seq::empty()
    }
}

/// What is written for a project behind its place and name.
spec fn content_words(project: OpenProject) -> Seq<Seq<u8>> {
    seq![
        word(flag(project.unsaved)),
        word(project.document.revision),
        word(project.savepoint_revision),
    ] + (rows(project.document.layers@, |l: Layer| layer_row(l)) + folder_words(project.folders))
}

proof fn lemma_project_grouping(project: OpenProject, target: Target, rest: Seq<Seq<u8>>)
    ensures
        project_row(project, target) + rest == seq![word(project.runtime_id as u64)] + (
        optional_words(path_id(project.path)) + (stored_words(project, target) + (text_words(
            project.name@,
        ) + (list_words(project.lossy_save_warnings@) + (content_words(project) + rest))))),
{
    let id = seq![word(project.runtime_id as u64)];
    let path = optional_words(path_id(project.path));
    let stored = stored_words(project, target);
    let name = text_words(project.name@);
    let warnings = list_words(project.lossy_save_warnings@);
    let counts = seq![
        word(flag(project.unsaved)),
        word(project.document.revision),
        word(project.savepoint_revision),
    ];
    let layers = rows(project.document.layers@, |l: Layer| layer_row(l));
    let folders = folder_words(project.folders);
    let first = id + path + stored + name + warnings;
    assert(project_row(project, target) == first + counts + layers + folders);
    lemma_behind(first, counts, layers, folders, rest);
    lemma_grouping_of_five(id, path, stored, name, warnings, content_words(project) + rest);
}

proof fn lemma_behind(
    first: Seq<Seq<u8>>,
    a: Seq<Seq<u8>>,
    b: Seq<Seq<u8>>,
    c: Seq<Seq<u8>>,
    rest: Seq<Seq<u8>>,
)
    ensures
        (first + a + b + c) + rest == first + ((a + (b + c)) + rest),
{
    assert((first + a + b + c) + rest =~= first + ((a + (b + c)) + rest));
}

proof fn lemma_stored(
    a: OpenProject,
    b: OpenProject,
    target: Target,
    r: Seq<Seq<u8>>,
    s: Seq<Seq<u8>>,
)
    requires
        stored_words(a, target) + r == stored_words(b, target) + s,
    ensures
        target == Target::Web ==> (a.persistence is BrowserRecord) == (
        b.persistence is BrowserRecord),
        r == s,
{
    if target == Target::Web {
        lemma_word(
            flag(a.persistence is BrowserRecord),
            flag(b.persistence is BrowserRecord),
            r,
            s,
        );
    } else {
        assert(stored_words(a, target) + r =~= r);
        assert(stored_words(b, target) + s =~= s);
    }
}

proof fn lemma_content(a: OpenProject, b: OpenProject, r: Seq<Seq<u8>>, s: Seq<Seq<u8>>)
    requires
        a.document.layers@.len() == b.document.layers@.len(),
        content_words(a) + r == content_words(b) + s,
    ensures
        a.unsaved == b.unsaved,
        a.document.revision == b.document.revision,
        a.savepoint_revision == b.savepoint_revision,
        forall|i: int|
            0 <= i < a.document.layers@.len() ==> same_layer(
                #[trigger] a.document.layers@[i],
                b.document.layers@[i],
            ),
        a.folders.same(&b.folders),
        r == s,
{
    let p_folders = folder_words(a.folders) + r;
    let q_folders = folder_words(b.folders) + s;
    let p_layers = rows(a.document.layers@, |l: Layer| layer_row(l)) + p_folders;
    let q_layers = rows(b.document.layers@, |l: Layer| layer_row(l)) + q_folders;
    lemma_content_grouping(a, r);
    lemma_content_grouping(b, s);
    let p_saved = seq![word(a.savepoint_revision)] + p_layers;
    let q_saved = seq![word(b.savepoint_revision)] + q_layers;
    let p_revision = seq![word(a.document.revision)] + p_saved;
    let q_revision = seq![word(b.document.revision)] + q_saved;
    lemma_word(flag(a.unsaved), flag(b.unsaved), p_revision, q_revision);
    lemma_word(a.document.revision, b.document.revision, p_saved, q_saved);
    lemma_word(a.savepoint_revision, b.savepoint_revision, p_layers, q_layers);
    lemma_layers(a.document.layers@, b.document.layers@, p_folders, q_folders);
    lemma_folders(a.folders, b.folders, r, s);
}

proof fn lemma_content_grouping(project: OpenProject, rest: Seq<Seq<u8>>)
    ensures
        content_words(project) + rest == seq![word(flag(project.unsaved))] + (seq![
            word(project.document.revision),
        ] + (seq![word(project.savepoint_revision)] + (rows(
            project.document.layers@,
            |l: Layer| layer_row(l),
        ) + (folder_words(project.folders) + rest)))),
{
    let counts = seq![
        word(flag(project.unsaved)),
        word(project.document.revision),
        word(project.savepoint_revision),
    ];
    let layers = rows(project.document.layers@, |l: Layer| layer_row(l));
    let folders = folder_words(project.folders);
    lemma_grouping(counts, layers + folders, rest);
    lemma_grouping(layers, folders, rest);
    lemma_three_words(
        word(flag(project.unsaved)),
        word(project.document.revision),
        word(project.savepoint_revision),
        layers + (folders + rest),
    );
}

/// An open project is read back from what is written first, if it is known how
/// many layers it has.
proof fn lemma_project(
    a: OpenProject,
    b: OpenProject,
    target: Target,
    r: Seq<Seq<u8>>,
    s: Seq<Seq<u8>>,
)
    requires
        a.document.layers@.len() == b.document.layers@.len(),
        project_row(a, target) + r == project_row(b, target) + s,
    ensures
        same_project(a, b, target),
        r == s,
{
    let p = content_words(a) + r;
    let q = content_words(b) + s;
    let p_warnings = list_words(a.lossy_save_warnings@) + p;
    let q_warnings = list_words(b.lossy_save_warnings@) + q;
    let p_name = text_words(a.name@) + p_warnings;
    let q_name = text_words(b.name@) + q_warnings;
    let p_stored = stored_words(a, target) + p_name;
    let q_stored = stored_words(b, target) + q_name;
    let p_path = optional_words(path_id(a.path)) + p_stored;
    let q_path = optional_words(path_id(b.path)) + q_stored;
    lemma_project_grouping(a, target, r);
    lemma_project_grouping(b, target, s);
    lemma_word(a.runtime_id as u64, b.runtime_id as u64, p_path, q_path);
    lemma_optional(path_id(a.path), path_id(b.path), p_stored, q_stored);
    lemma_stored(a, b, target, p_name, q_name);
    lemma_text(a.name@, b.name@, p_warnings, q_warnings);
    assert(a.lossy_save_warnings.len() == a.lossy_save_warnings@.len());
    assert(b.lossy_save_warnings.len() == b.lossy_save_warnings@.len());
    lemma_list(a.lossy_save_warnings@, b.lossy_save_warnings@, p, q);
    lemma_content(a, b, r, s);
}

/// Two lists of open projects have as many projects, each with as many layers.
pub open spec fn same_shape(a: Seq<OpenProject>, b: Seq<OpenProject>) -> bool {
    &&& a.len() == b.len()
    &&& forall|i: int|
        0 <= i < a.len() ==> (#[trigger] a[i]).document.layers@.len() == b[i].document.layers@.len()
}

proof fn lemma_projects(
    a: Seq<OpenProject>,
    b: Seq<OpenProject>,
    target: Target,
    r: Seq<Seq<u8>>,
    s: Seq<Seq<u8>>,
)
    requires
        same_shape(a, b),
        rows(a, |p: OpenProject| project_row(p, target)) + r == rows(
            b,
            |p: OpenProject| project_row(p, target),
        ) + s,
    ensures
        forall|i: int| 0 <= i < a.len() ==> same_project(#[trigger] a[i], b[i], target),
        r == s,
    decreases a.len(),
{
    let row = |p: OpenProject| project_row(p, target);
    if a.len() == 0 {
        assert(rows(a, row) + r =~= r);
        assert(rows(b, row) + s =~= s);
    } else {
        let x = a.drop_first();
        let y = b.drop_first();
        lemma_first_row(a, row);
        lemma_first_row(b, row);
        lemma_grouping(row(a[0]), rows(x, row), r);
        lemma_grouping(row(b[0]), rows(y, row), s);
        lemma_project(a[0], b[0], target, rows(x, row) + r, rows(y, row) + s);
        assert(same_shape(x, y)) by {
            assert forall|i: int| 0 <= i < x.len() implies (
            #[trigger] x[i]).document.layers@.len() == y[i].document.layers@.len() by {
                assert(x[i] == a[i + 1]);
                assert(y[i] == b[i + 1]);
            }
        }
        lemma_projects(x, y, target, r, s);
        assert forall|i: int| 0 <= i < a.len() implies same_project(
            #[trigger] a[i],
            b[i],
            target,
        ) by {
            if i > 0 {
                assert(x[i - 1] == a[i]);
                assert(y[i - 1] == b[i]);
            }
        }
    }
}

/// The projects that can be opened are the same: on a desktop the same paths, on
/// a page the same ids and names.
pub open spec fn same_offers<P>(a: &App<P>, b: &App<P>) -> bool {
    match a.target {
        Target::Native => {
            &&& a.tracked_project_paths@.len() == b.tracked_project_paths@.len()
            &&& forall|i: int|
                0 <= i < a.tracked_project_paths@.len() ==> (
                #[trigger] a.tracked_project_paths@[i]).id == b.tracked_project_paths@[i].id
        },
        Target::Web => forall|i: int|
            0 <= i < a.browser.stored@.len() ==> {
                &&& (#[trigger] a.browser.stored@[i]).id == b.browser.stored@[i].id
                &&& a.browser.stored@[i].name@ == b.browser.stored@[i].name@
            },
    }
}

proof fn lemma_offers<P>(a: &App<P>, b: &App<P>, r: Seq<Seq<u8>>, s: Seq<Seq<u8>>)
    requires
        a.target == b.target,
        a.browser.stored@.len() == b.browser.stored@.len(),
        offered_words(a) + r == offered_words(b) + s,
    ensures
        same_offers(a, b),
        r == s,
{
    match a.target {
        Target::Native => {
            let row = |path: ProjectPath| seq![word(path.id)];
            let same = |x: ProjectPath, y: ProjectPath| x.id == y.id;
            let m = a.tracked_project_paths.len();
            let n = b.tracked_project_paths.len();
            assert(m == a.tracked_project_paths@.len() && n == b.tracked_project_paths@.len());
            let p = rows(a.tracked_project_paths@, row);
            let q = rows(b.tracked_project_paths@, row);
            lemma_grouping(seq![word(m as u64)], p, r);
            lemma_grouping(seq![word(n as u64)], q, s);
            lemma_word(m as u64, n as u64, p + r, q + s);
            assert(readable(row, row, same)) by {
                assert forall|x: ProjectPath, y: ProjectPath, t: Seq<Seq<u8>>, u: Seq<Seq<u8>>|
                    #[trigger] (row(x) + t) == #[trigger] (row(y) + u) implies same(x, y) && t
                    == u by {
                    lemma_word(x.id, y.id, t, u);
                }
            }
            lemma_rows(
                a.tracked_project_paths@,
                b.tracked_project_paths@,
                row,
                row,
                same,
                r,
                s,
            );
            assert forall|i: int| 0 <= i < a.tracked_project_paths@.len() implies (
            #[trigger] a.tracked_project_paths@[i]).id == b.tracked_project_paths@[i].id by {
                assert(same(a.tracked_project_paths@[i], b.tracked_project_paths@[i]));
            }
        },
        Target::Web => {
            let row = |p: BrowserProject| seq![word(p.id)] + text_words(p.name@);
            let same = |x: BrowserProject, y: BrowserProject| x.id == y.id && x.name@ == y.name@;
            assert(readable(row, row, same)) by {
                assert forall|
                    x: BrowserProject,
                    y: BrowserProject,
                    t: Seq<Seq<u8>>,
                    u: Seq<Seq<u8>>,
                |
                    #[trigger] (row(x) + t) == #[trigger] (row(y) + u) implies same(x, y) && t
                    == u by {
                    lemma_grouping(seq![word(x.id)], text_words(x.name@), t);
                    lemma_grouping(seq![word(y.id)], text_words(y.name@), u);
                    lemma_word(x.id, y.id, text_words(x.name@) + t, text_words(y.name@) + u);
                    lemma_text(x.name@, y.name@, t, u);
                }
            }
            lemma_rows(a.browser.stored@, b.browser.stored@, row, row, same, r, s);
            assert forall|i: int| 0 <= i < a.browser.stored@.len() implies (
            #[trigger] a.browser.stored@[i]).id == b.browser.stored@[i].id
                && a.browser.stored@[i].name@ == b.browser.stored@[i].name@ by {
                assert(same(a.browser.stored@[i], b.browser.stored@[i]));
            }
        },
    }
}

/// The items of a kind are shown alike, one by one.
pub open spec fn same_list<D>(
    a: Seq<OpenItem<D>>,
    b: Seq<OpenItem<D>>,
    same: spec_fn(OpenItem<D>, OpenItem<D>) -> bool,
) -> bool {
    forall|i: int| 0 <= i < a.len() ==> same(#[trigger] a[i], b[i])
}

proof fn lemma_triangulations(
    a: Seq<OpenItem<TriangulationDetail>>,
    b: Seq<OpenItem<TriangulationDetail>>,
    hidden: Set<SceneEntityId>,
    other: Set<SceneEntityId>,
    r: Seq<Seq<u8>>,
    s: Seq<Seq<u8>>,
)
    requires
        a.len() == b.len(),
        triangulation_rows(a, hidden) + r == triangulation_rows(b, other) + s,
    ensures
        same_list(a, b, |x, y| same_triangulation(x, y)),
        r == s,
{
    let row = |item: OpenItem<TriangulationDetail>|
        item_row(item, triangulation_words(item, hidden));
    let other_row = |item: OpenItem<TriangulationDetail>|
        item_row(item, triangulation_words(item, other));
    let same = |x: OpenItem<TriangulationDetail>, y: OpenItem<TriangulationDetail>|
        same_triangulation(x, y);
    assert(readable(row, other_row, same)) by {
        assert forall|
            x: OpenItem<TriangulationDetail>,
            y: OpenItem<TriangulationDetail>,
            t: Seq<Seq<u8>>,
            u: Seq<Seq<u8>>,
        |
            #[trigger] (row(x) + t) == #[trigger] (other_row(y) + u) implies same(x, y) && t
            == u by {
            lemma_triangulation(x, y, hidden, other, t, u);
        }
    }
    lemma_rows(a, b, row, other_row, same, r, s);
}

proof fn lemma_block_models(
    a: Seq<OpenItem<BlockModelDetail>>,
    b: Seq<OpenItem<BlockModelDetail>>,
    r: Seq<Seq<u8>>,
    s: Seq<Seq<u8>>,
)
    requires
        a.len() == b.len(),
        block_model_rows(a) + r == block_model_rows(b) + s,
    ensures
        same_list(a, b, |x, y| same_block_model(x, y)),
        r == s,
{
    let row = |item: OpenItem<BlockModelDetail>| item_row(item, block_model_words(item));
    let same = |x: OpenItem<BlockModelDetail>, y: OpenItem<BlockModelDetail>| same_block_model(x, y);
    assert(readable(row, row, same)) by {
        assert forall|
            x: OpenItem<BlockModelDetail>,
            y: OpenItem<BlockModelDetail>,
            t: Seq<Seq<u8>>,
            u: Seq<Seq<u8>>,
        |
            #[trigger] (row(x) + t) == #[trigger] (row(y) + u) implies same(x, y) && t == u by {
            lemma_block_model(x, y, t, u);
        }
    }
    lemma_rows(a, b, row, row, same, r, s);
}

proof fn lemma_all_drill_holes(
    a: Seq<OpenItem<DrillHoleDetail>>,
    b: Seq<OpenItem<DrillHoleDetail>>,
    r: Seq<Seq<u8>>,
    s: Seq<Seq<u8>>,
)
    requires
        a.len() == b.len(),
        drill_hole_rows(a) + r == drill_hole_rows(b) + s,
    ensures
        same_list(a, b, |x, y| same_drill_holes(x, y)),
        r == s,
{
    let row = |item: OpenItem<DrillHoleDetail>| item_row(item, drill_hole_words(item));
    let same = |x: OpenItem<DrillHoleDetail>, y: OpenItem<DrillHoleDetail>| same_drill_holes(x, y);
    assert(readable(row, row, same)) by {
        assert forall|
            x: OpenItem<DrillHoleDetail>,
            y: OpenItem<DrillHoleDetail>,
            t: Seq<Seq<u8>>,
            u: Seq<Seq<u8>>,
        |
            #[trigger] (row(x) + t) == #[trigger] (row(y) + u) implies same(x, y) && t == u by {
            lemma_drill_holes(x, y, t, u);
        }
    }
    lemma_rows(a, b, row, row, same, r, s);
}

proof fn lemma_point_clouds(
    a: Seq<OpenItem<PointCloudDetail>>,
    b: Seq<OpenItem<PointCloudDetail>>,
    r: Seq<Seq<u8>>,
    s: Seq<Seq<u8>>,
)
    requires
        a.len() == b.len(),
        point_cloud_rows(a) + r == point_cloud_rows(b) + s,
    ensures
        same_list(a, b, |x, y| same_point_cloud(x, y)),
        r == s,
{
    let row = |item: OpenItem<PointCloudDetail>| item_row(item, point_cloud_words(item));
    let same = |x: OpenItem<PointCloudDetail>, y: OpenItem<PointCloudDetail>| same_point_cloud(x, y);
    assert(readable(row, row, same)) by {
        assert forall|
            x: OpenItem<PointCloudDetail>,
            y: OpenItem<PointCloudDetail>,
            t: Seq<Seq<u8>>,
            u: Seq<Seq<u8>>,
        |
            #[trigger] (row(x) + t) == #[trigger] (row(y) + u) implies same(x, y) && t == u by {
            lemma_point_cloud(x, y, t, u);
        }
    }
    lemma_rows(a, b, row, row, same, r, s);
}

proof fn lemma_rasters(
    a: Seq<OpenItem<RasterDetail>>,
    b: Seq<OpenItem<RasterDetail>>,
    r: Seq<Seq<u8>>,
    s: Seq<Seq<u8>>,
)
    requires
        a.len() == b.len(),
        raster_rows(a) + r == raster_rows(b) + s,
    ensures
        same_list(a, b, |x, y| same_raster(x, y)),
        r == s,
{
    let row = |item: OpenItem<RasterDetail>| item_row(item, raster_words(item));
    let same = |x: OpenItem<RasterDetail>, y: OpenItem<RasterDetail>| same_raster(x, y);
    assert(readable(row, row, same)) by {
        assert forall|
            x: OpenItem<RasterDetail>,
            y: OpenItem<RasterDetail>,
            t: Seq<Seq<u8>>,
            u: Seq<Seq<u8>>,
        |
            #[trigger] (row(x) + t) == #[trigger] (row(y) + u) implies same(x, y) && t == u by {
            lemma_raster(x, y, t, u);
        }
    }
    lemma_rows(a, b, row, row, same, r, s);
}

/// What is written for the items behind the active triangulation.
spec fn item_words<P>(app: &App<P>) -> Seq<Seq<u8>> {
    triangulation_rows(app.items.triangulations@, app.editor.hidden_handles@) + (block_model_rows(
        app.items.block_models@,
    ) + (drill_hole_rows(app.items.drill_holes@) + (point_cloud_rows(app.items.point_clouds@) + (
    raster_rows(app.items.rasters@) + Seq::empty()))))
}

/// The number of the active project, as it is written.
spec fn active_number<P>(app: &App<P>) -> Option<u64> {
    match app.workspace.active_index {
        Some(i) => Some(i as u64),
        None => None,
    }
}

/// What is written for the open projects.
spec fn project_rows<P>(app: &App<P>) -> Seq<Seq<u8>> {
    let target = app.target;
    rows(app.workspace.projects@, |p: OpenProject| project_row(p, target))
}

proof fn lemma_view_grouping<P>(app: &App<P>)
    ensures
        app.view_writes() == optional_words(active_number(app)) + (seq![
            word(flag(app.lifecycle.startup_dialog_dismissed)),
        ] + (offered_words(app) + (project_rows(app) + (optional_words(
            app.items.active_triangulation,
        ) + item_words(app))))),
{
    let a = optional_words(active_number(app));
    let b = seq![word(flag(app.lifecycle.startup_dialog_dismissed))];
    let c = offered_words(app);
    let d = project_rows(app);
    let e = optional_words(app.items.active_triangulation);
    let f = triangulation_rows(app.items.triangulations@, app.editor.hidden_handles@);
    let g = block_model_rows(app.items.block_models@);
    let h = drill_hole_rows(app.items.drill_holes@);
    let i = point_cloud_rows(app.items.point_clouds@);
    let j = raster_rows(app.items.rasters@);
    assert(app.view_writes() == a + b + c + d + e + f + g + h + i + j);
    lemma_tail(a + b + c + d + e, f, g, h, i, j);
    lemma_grouping_of_five(a, b, c, d, e, item_words(app));
}

proof fn lemma_tail(
    first: Seq<Seq<u8>>,
    f: Seq<Seq<u8>>,
    g: Seq<Seq<u8>>,
    h: Seq<Seq<u8>>,
    i: Seq<Seq<u8>>,
    j: Seq<Seq<u8>>,
)
    ensures
        first + f + g + h + i + j == first + (f + (g + (h + (i + (j + Seq::empty()))))),
{
    assert(first + f + g + h + i + j =~= first + (f + (g + (h + (i + (j + Seq::empty()))))));
}

proof fn lemma_items<P>(a: &App<P>, b: &App<P>)
    requires
        same_counts(a, b),
        item_words(a) == item_words(b),
    ensures
        same_items(a, b),
{
    let none = Seq::<Seq<u8>>::empty();
    let p_rasters = raster_rows(a.items.rasters@) + none;
    let q_rasters = raster_rows(b.items.rasters@) + none;
    let p_clouds = point_cloud_rows(a.items.point_clouds@) + p_rasters;
    let q_clouds = point_cloud_rows(b.items.point_clouds@) + q_rasters;
    let p_holes = drill_hole_rows(a.items.drill_holes@) + p_clouds;
    let q_holes = drill_hole_rows(b.items.drill_holes@) + q_clouds;
    let p_models = block_model_rows(a.items.block_models@) + p_holes;
    let q_models = block_model_rows(b.items.block_models@) + q_holes;
    lemma_triangulations(
        a.items.triangulations@,
        b.items.triangulations@,
        a.editor.hidden_handles@,
        b.editor.hidden_handles@,
        p_models,
        q_models,
    );
    lemma_block_models(a.items.block_models@, b.items.block_models@, p_holes, q_holes);
    lemma_all_drill_holes(a.items.drill_holes@, b.items.drill_holes@, p_clouds, q_clouds);
    lemma_point_clouds(a.items.point_clouds@, b.items.point_clouds@, p_rasters, q_rasters);
    lemma_rasters(a.items.rasters@, b.items.rasters@, none, none);
}

/// There are as many items of each kind.
pub open spec fn same_counts<P>(a: &App<P>, b: &App<P>) -> bool {
    &&& a.items.triangulations@.len() == b.items.triangulations@.len()
    &&& a.items.block_models@.len() == b.items.block_models@.len()
    &&& a.items.drill_holes@.len() == b.items.drill_holes@.len()
    &&& a.items.point_clouds@.len() == b.items.point_clouds@.len()
    &&& a.items.rasters@.len() == b.items.rasters@.len()
}

/// The items of every kind are shown alike, one by one.
pub open spec fn same_items<P>(a: &App<P>, b: &App<P>) -> bool {
    &&& same_list(
        a.items.triangulations@,
        b.items.triangulations@,
        |x, y| same_triangulation(x, y),
    )
    &&& same_list(a.items.block_models@, b.items.block_models@, |x, y| same_block_model(x, y))
    &&& same_list(a.items.drill_holes@, b.items.drill_holes@, |x, y| same_drill_holes(x, y))
    &&& same_list(a.items.point_clouds@, b.items.point_clouds@, |x, y| same_point_cloud(x, y))
    &&& same_list(a.items.rasters@, b.items.rasters@, |x, y| same_raster(x, y))
}

/// What the explorer shows of projects and items can be read back from what its
/// fingerprint is made of. Between two states with as many stored projects, open
/// projects, layers and items of each kind, no change to any of these goes
/// unwritten.
pub proof fn every_shown_change_is_written<P>(a: &App<P>, b: &App<P>)
    requires
        a.target == b.target,
        a.browser.stored@.len() == b.browser.stored@.len(),
        same_shape(a.workspace.projects@, b.workspace.projects@),
        same_counts(a, b),
        a.view_writes() == b.view_writes(),
    ensures
        a.workspace.active_index == b.workspace.active_index,
        a.lifecycle.startup_dialog_dismissed == b.lifecycle.startup_dialog_dismissed,
        same_offers(a, b),
        forall|i: int|
            0 <= i < a.workspace.projects@.len() ==> same_project(
                #[trigger] a.workspace.projects@[i],
                b.workspace.projects@[i],
                a.target,
            ),
        a.items.active_triangulation == b.items.active_triangulation,
        same_items(a, b),
{
    let p_active = optional_words(a.items.active_triangulation) + item_words(a);
    let q_active = optional_words(b.items.active_triangulation) + item_words(b);
    let p_projects = project_rows(a) + p_active;
    let q_projects = project_rows(b) + q_active;
    let p_offers = offered_words(a) + p_projects;
    let q_offers = offered_words(b) + q_projects;
    let p_flag = flag(a.lifecycle.startup_dialog_dismissed);
    let q_flag = flag(b.lifecycle.startup_dialog_dismissed);
    lemma_view_grouping(a);
    lemma_view_grouping(b);
    lemma_optional(
        active_number(a),
        active_number(b),
        seq![word(p_flag)] + p_offers,
        seq![word(q_flag)] + q_offers,
    );
    lemma_word(p_flag, q_flag, p_offers, q_offers);
    lemma_offers(a, b, p_projects, q_projects);
    lemma_projects(
        a.workspace.projects@,
        b.workspace.projects@,
        a.target,
        p_active,
        q_active,
    );
    lemma_optional(
        a.items.active_triangulation,
        b.items.active_triangulation,
        item_words(a),
        item_words(b),
    );
    lemma_items(a, b);
}

} // verus!
