//! The bar at the bottom of the window: what it reads out, and the languages its
//! picker offers.
use crate::i18n::{tr_literal, translates};
use crate::language::{LanguageChoice, Target};
use crate::menu::UiCommand;
use crate::text::{decimal, joined, number_with_commas, separate_with_commas, with_commas};
use i18n_embed::fluent::FluentLanguageLoader;
use vstd::prelude::*;

verus! {

/// How much of the surfaces is drawn.
#[derive(Debug, Clone, Copy, PartialEq, Eq, Structural)]
pub struct SurfaceStats {
    pub drawn_faces: u64,
    pub total_faces: u64,
    pub drawn_chunks: u64,
    pub total_chunks: u64,
}

/// How much of the point clouds is drawn.
#[derive(Debug, Clone, Copy, PartialEq, Eq, Structural)]
pub struct PointStats {
    pub drawn: u64,
    pub target: u64,
    pub total: u64,
    pub drawn_chunks: u64,
    pub total_chunks: u64,
}

/// The distances of the clip planes, written out.
pub struct ClipDistances {
    pub near: String,
    pub far: String,
    pub delta: String,
}

/// What the bar has to read out.
pub struct Readings {
    pub app_name: String,
    pub app_release: String,
    /// How many handles are selected.
    pub selected: usize,
    pub frame_counter_enabled: bool,
    /// The measured frame rate, written out.
    pub frame_rate: Option<String>,
    pub debug_surface_chunks: bool,
    pub surface_stats: Option<SurfaceStats>,
    pub debug_clip_planes: bool,
    pub clip_distances: Option<ClipDistances>,
    pub debug_point_cloud_chunks: bool,
    pub point_stats: Option<PointStats>,
    pub axis_names: Vec<String>,
    /// Where the cursor is in the world, axis by axis, written out.
    pub cursor: Option<Vec<String>>,
    /// The pointer is in the window.
    pub pointer_inside: bool,
    /// The pointer is over a panel.
    pub pointer_over_panel: bool,
}

/// The bar's texts in the language in use.
pub struct StatusLabels {
    pub frame_rate: String,
    pub no_faces: String,
    pub no_clip: String,
    pub no_points: String,
}

/// One part of the bar.
pub enum StatusItem {
    Text(String),
    Separator,
    /// The message that tells how much is selected.
    Selected(usize),
    /// The message that tells how much of the surfaces is drawn.
    Faces { drawn: String, total: String, drawn_chunks: u64, total_chunks: u64 },
    /// The message that tells where the clip planes are.
    Clip { near: String, far: String, delta: String },
    /// The message that tells how much of the point clouds is drawn.
    Points {
        drawn: String,
        target: String,
        total: String,
        drawn_chunks: u64,
        total_chunks: u64,
    },
    /// A readout of fixed width.
    Coordinate(String),
}

/// What one part of the bar shows.
pub ghost enum ShownItem {
    Text(Seq<char>),
    Separator,
    Selected(usize),
    Faces { drawn: Seq<char>, total: Seq<char>, drawn_chunks: u64, total_chunks: u64 },
    Clip { near: Seq<char>, far: Seq<char>, delta: Seq<char> },
    Points {
        drawn: Seq<char>,
        target: Seq<char>,
        total: Seq<char>,
        drawn_chunks: u64,
        total_chunks: u64,
    },
    Coordinate(Seq<char>),
}

impl View for StatusItem {
    type V = ShownItem;

    open spec fn view(&self) -> ShownItem {
        match *self {
            StatusItem::Text(text) => ShownItem::Text(text@),
            StatusItem::Separator => ShownItem::Separator,
            StatusItem::Selected(count) => ShownItem::Selected(count),
            StatusItem::Faces { drawn, total, drawn_chunks, total_chunks } => ShownItem::Faces {
                drawn: drawn@,
                total: total@,
                drawn_chunks,
                total_chunks,
            },
            StatusItem::Clip { near, far, delta } => ShownItem::Clip {
                near: near@,
                far: far@,
                delta: delta@,
            },
            StatusItem::Points { drawn, target, total, drawn_chunks, total_chunks } => {
                ShownItem::Points {
                    drawn: drawn@,
                    target: target@,
                    total: total@,
                    drawn_chunks,
                    total_chunks,
                }
            },
            StatusItem::Coordinate(text) => ShownItem::Coordinate(text@),
        }
    }
}

/// A value that goes into a message.
#[derive(Debug, PartialEq)]
pub enum MessageValue {
    Number(u64),
    Text(String),
}

/// What a value that goes into a message is.
pub ghost enum ShownValue {
    Number(u64),
    Text(Seq<char>),
}

impl View for MessageValue {
    type V = ShownValue;

    open spec fn view(&self) -> ShownValue {
        match *self {
            MessageValue::Number(number) => ShownValue::Number(number),
            MessageValue::Text(text) => ShownValue::Text(text@),
        }
    }
}

/// A message that the catalogues hold under an id of its own, and the values that
/// go into it, by name.
pub struct StatusMessage {
    pub id: &'static str,
    pub values: Vec<(&'static str, MessageValue)>,
}

/// The values of a message, by name.
pub open spec fn named_values(values: Seq<(&'static str, MessageValue)>) -> Seq<
    (Seq<char>, ShownValue),
> {
    values.map_values(|value: (&'static str, MessageValue)| (value.0@, value.1@))
}

/// The id of the message that a part of the bar is, and the values that go into
/// it. Other parts are no messages.
pub open spec fn message_of(item: ShownItem) -> Option<
    (Seq<char>, Seq<(Seq<char>, ShownValue)>),
> {
    match item {
        ShownItem::Selected(count) => Some(
            ("status-selected"@, seq![("count"@, ShownValue::Number(count as u64))]),
        ),
        ShownItem::Faces { drawn, total, drawn_chunks, total_chunks } => Some(
            (
                "status-faces"@,
                seq![
                    ("drawn"@, ShownValue::Text(drawn)),
                    ("total"@, ShownValue::Text(total)),
                    ("drawn_chunks"@, ShownValue::Number(drawn_chunks)),
                    ("total_chunks"@, ShownValue::Number(total_chunks)),
                ],
            ),
        ),
        ShownItem::Clip { near, far, delta } => Some(
            (
                "status-clip"@,
                seq![
                    ("near"@, ShownValue::Text(near)),
                    ("far"@, ShownValue::Text(far)),
                    ("delta"@, ShownValue::Text(delta)),
                ],
            ),
        ),
        ShownItem::Points { drawn, target, total, drawn_chunks, total_chunks } => Some(
            (
                "status-points"@,
                seq![
                    ("drawn"@, ShownValue::Text(drawn)),
                    ("target"@, ShownValue::Text(target)),
                    ("total"@, ShownValue::Text(total)),
                    ("drawn_chunks"@, ShownValue::Number(drawn_chunks)),
                    ("total_chunks"@, ShownValue::Number(total_chunks)),
                ],
            ),
        ),
        _ => None,
    }
}

/// The message that a part of the bar is, if it is one.
pub fn status_message(item: &StatusItem) -> (message: Option<StatusMessage>)
    ensures
        message is Some <==> message_of(item@) is Some,
        message is Some ==> message_of(item@)->0 == (
            message->0.id@,
            named_values(message->0.values@),
        ),
{
    let mut values: Vec<(&'static str, MessageValue)> = Vec::new();
    let id: &'static str = match item {
        StatusItem::Selected(count) => {
            values.push(("count", MessageValue::Number(*count as u64)));
            "status-selected"
        },
        StatusItem::Faces { drawn, total, drawn_chunks, total_chunks } => {
            values.push(("drawn", MessageValue::Text(drawn.clone())));
            values.push(("total", MessageValue::Text(total.clone())));
            values.push(("drawn_chunks", MessageValue::Number(*drawn_chunks)));
            values.push(("total_chunks", MessageValue::Number(*total_chunks)));
            "status-faces"
        },
        StatusItem::Clip { near, far, delta } => {
            values.push(("near", MessageValue::Text(near.clone())));
            values.push(("far", MessageValue::Text(far.clone())));
            values.push(("delta", MessageValue::Text(delta.clone())));
            "status-clip"
        },
        StatusItem::Points { drawn, target, total, drawn_chunks, total_chunks } => {
            values.push(("drawn", MessageValue::Text(drawn.clone())));
            values.push(("target", MessageValue::Text(target.clone())));
            values.push(("total", MessageValue::Text(total.clone())));
            values.push(("drawn_chunks", MessageValue::Number(*drawn_chunks)));
            values.push(("total_chunks", MessageValue::Number(*total_chunks)));
            "status-points"
        },
        _ => {
            return None;
        },
    };
    proof {
        let stated = message_of(item@)->0;
        assert(named_values(values@) =~= stated.1);
    }
    Some(StatusMessage { id, values })
}

/// What the parts of the bar show.
pub open spec fn shown(items: Seq<StatusItem>) -> Seq<ShownItem> {
    items.map_values(|item: StatusItem| item@)
}

/// A number with a comma before every third digit.
pub open spec fn commas(value: u64) -> Seq<char> {
    with_commas(decimal(value as nat))
}

/// A label and its value.
pub open spec fn labelled(label: Seq<char>, value: Seq<char>) -> Seq<char> {
    label + ": "@ + value
}

/// A label and its value.
fn label_text(label: &str, value: &str) -> (text: String)
    ensures
        text@ == labelled(label@, value@),
{
    let start: String = joined(label, ": ");
    joined(start.as_str(), value)
}

/// The frame rate, where it is counted.
pub open spec fn frame_part(r: &Readings, labels: &StatusLabels) -> Seq<ShownItem> {
    if r.frame_counter_enabled {
        seq![
            ShownItem::Text(
                labelled(
                    labels.frame_rate@,
                    match r.frame_rate {
                        Some(rate) => rate@,
                        None => "--"@,
                    },
                ),
            ),
            ShownItem::Separator,
        ]
    } else {
        Seq::empty()
    }
}

/// How much of the surfaces is drawn, where that is asked for.
pub open spec fn faces_part(r: &Readings, labels: &StatusLabels) -> Seq<ShownItem> {
    if r.debug_surface_chunks {
        seq![
            match r.surface_stats {
                Some(stats) => ShownItem::Faces {
                    drawn: commas(stats.drawn_faces),
                    total: commas(stats.total_faces),
                    drawn_chunks: stats.drawn_chunks,
                    total_chunks: stats.total_chunks,
                },
                None => ShownItem::Text(labels.no_faces@),
            },
            ShownItem::Separator,
        ]
    } else {
        Seq::empty()
    }
}

/// Where the clip planes are, where that is asked for.
pub open spec fn clip_part(r: &Readings, labels: &StatusLabels) -> Seq<ShownItem> {
    if r.debug_clip_planes {
        seq![
            match r.clip_distances {
                Some(clip) => ShownItem::Clip {
                    near: clip.near@,
                    far: clip.far@,
                    delta: clip.delta@,
                },
                None => ShownItem::Text(labels.no_clip@),
            },
            ShownItem::Separator,
        ]
    } else {
        Seq::empty()
    }
}

/// How much of the point clouds is drawn, where that is asked for.
pub open spec fn points_part(r: &Readings, labels: &StatusLabels) -> Seq<ShownItem> {
    if r.debug_point_cloud_chunks {
        seq![
            match r.point_stats {
                Some(stats) => ShownItem::Points {
                    drawn: commas(stats.drawn),
                    target: commas(stats.target),
                    total: commas(stats.total),
                    drawn_chunks: stats.drawn_chunks,
                    total_chunks: stats.total_chunks,
                },
                None => ShownItem::Text(labels.no_points@),
            },
            ShownItem::Separator,
        ]
    } else {
        Seq::empty()
    }
}

/// The coordinates, one readout for each axis: of the cursor with commas, or
/// `--` while it is nowhere in the scene.
pub open spec fn coordinates_part(r: &Readings) -> Seq<ShownItem> {
    match r.cursor {
        Some(values) if r.pointer_inside && !r.pointer_over_panel => Seq::new(
            if r.axis_names@.len() <= values@.len() {
                r.axis_names@.len()
            } else {
                values@.len()
            },
            |i: int|
                ShownItem::Coordinate(labelled(r.axis_names@[i]@, with_commas(values@[i]@))),
        ),
        _ => Seq::new(
            r.axis_names@.len(),
            |i: int| ShownItem::Coordinate(labelled(r.axis_names@[i]@, "--"@)),
        ),
    }
}

/// What the bar shows, from left to right.
pub open spec fn bar(r: &Readings, labels: &StatusLabels) -> Seq<ShownItem> {
    seq![
        ShownItem::Text(r.app_name@ + " "@ + r.app_release@),
        ShownItem::Separator,
        ShownItem::Selected(r.selected),
        ShownItem::Separator,
    ] + frame_part(r, labels) + faces_part(r, labels) + clip_part(r, labels) + points_part(
        r,
        labels,
    ) + coordinates_part(r)
}

fn add_frame(items: &mut Vec<StatusItem>, r: &Readings, labels: &StatusLabels)
    ensures
        shown(final(items)@) == shown(old(items)@) + frame_part(r, labels),
{
    if r.frame_counter_enabled {
        let text: String = match &r.frame_rate {
            Some(rate) => label_text(labels.frame_rate.as_str(), rate.as_str()),
            None => label_text(labels.frame_rate.as_str(), "--"),
        };
        items.push(StatusItem::Text(text));
        items.push(StatusItem::Separator);
    }
    proof {
        assert(shown(items@) =~= shown(old(items)@) + frame_part(r, labels));
    }
}

fn add_faces(items: &mut Vec<StatusItem>, r: &Readings, labels: &StatusLabels)
    ensures
        shown(final(items)@) == shown(old(items)@) + faces_part(r, labels),
{
    if r.debug_surface_chunks {
        match r.surface_stats {
            Some(stats) => {
                items.push(
                    StatusItem::Faces {
                        drawn: number_with_commas(stats.drawn_faces),
                        total: number_with_commas(stats.total_faces),
                        drawn_chunks: stats.drawn_chunks,
                        total_chunks: stats.total_chunks,
                    },
                );
            },
            None => {
                items.push(StatusItem::Text(labels.no_faces.clone()));
            },
        }
        items.push(StatusItem::Separator);
    }
    proof {
        assert(shown(items@) =~= shown(old(items)@) + faces_part(r, labels));
    }
}

fn add_clip(items: &mut Vec<StatusItem>, r: &Readings, labels: &StatusLabels)
    ensures
        shown(final(items)@) == shown(old(items)@) + clip_part(r, labels),
{
    if r.debug_clip_planes {
        match &r.clip_distances {
            Some(clip) => {
                items.push(
                    StatusItem::Clip {
                        near: clip.near.clone(),
                        far: clip.far.clone(),
                        delta: clip.delta.clone(),
                    },
                );
            },
            None => {
                items.push(StatusItem::Text(labels.no_clip.clone()));
            },
        }
        items.push(StatusItem::Separator);
    }
    proof {
        assert(shown(items@) =~= shown(old(items)@) + clip_part(r, labels));
    }
}

fn add_points(items: &mut Vec<StatusItem>, r: &Readings, labels: &StatusLabels)
    ensures
        shown(final(items)@) == shown(old(items)@) + points_part(r, labels),
{
    if r.debug_point_cloud_chunks {
        match r.point_stats {
            Some(stats) => {
                items.push(
                    StatusItem::Points {
                        drawn: number_with_commas(stats.drawn),
                        target: number_with_commas(stats.target),
                        total: number_with_commas(stats.total),
                        drawn_chunks: stats.drawn_chunks,
                        total_chunks: stats.total_chunks,
                    },
                );
            },
            None => {
                items.push(StatusItem::Text(labels.no_points.clone()));
            },
        }
        items.push(StatusItem::Separator);
    }
    proof {
        assert(shown(items@) =~= shown(old(items)@) + points_part(r, labels));
    }
}

fn add_coordinates(items: &mut Vec<StatusItem>, r: &Readings)
    ensures
        shown(final(items)@) == shown(old(items)@) + coordinates_part(r),
{
    let ghost before = shown(items@);
    let ghost part = coordinates_part(r);
    let inside: bool = r.pointer_inside && !r.pointer_over_panel;
    let mut i: usize = 0;
    proof {
        assert(before + part.take(0) =~= before);
    }
    match &r.cursor {
        Some(values) => {
            if inside {
                while i < r.axis_names.len() && i < values.len()
                    invariant
                        inside == (r.pointer_inside && !r.pointer_over_panel),
                        inside,
                        r.cursor == Some(*values),
                        i <= r.axis_names@.len(),
                        i <= values@.len(),
                        part == coordinates_part(r),
                        shown(items@) == before + part.take(i as int),
                    decreases r.axis_names.len() - i,
                {
                    let ghost earlier = items@;
                    let value: String = separate_with_commas(values[i].as_str());
                    items.push(
                        StatusItem::Coordinate(
                            label_text(r.axis_names[i].as_str(), value.as_str()),
                        ),
                    );
                    proof {
                        assert(items@.last()@ == part[i as int]);
                        assert(shown(items@) =~= shown(items@.drop_last()).push(part[i as int]));
                        assert(items@.drop_last() =~= earlier);
                        assert(part.take(i + 1) =~= part.take(i as int).push(part[i as int]));
                    }
                    i += 1;
                }
                proof {
                    assert(part.take(i as int) =~= part);
                }
                return;
            }
        },
        None => {},
    }
    while i < r.axis_names.len()
        invariant
            !(r.cursor is Some && r.pointer_inside && !r.pointer_over_panel),
            i <= r.axis_names@.len(),
            part == coordinates_part(r),
            shown(items@) == before + part.take(i as int),
        decreases r.axis_names.len() - i,
    {
        let ghost earlier = items@;
        items.push(StatusItem::Coordinate(label_text(r.axis_names[i].as_str(), "--")));
        proof {
            assert(items@.last()@ == part[i as int]);
            assert(shown(items@) =~= shown(items@.drop_last()).push(part[i as int]));
            assert(items@.drop_last() =~= earlier);
            assert(part.take(i + 1) =~= part.take(i as int).push(part[i as int]));
        }
        i += 1;
    }
    proof {
        assert(part.take(i as int) =~= part);
    }
}

/// What the bar shows, from left to right, with its texts in the language in
/// use.
pub fn status_items(r: &Readings, labels: &StatusLabels) -> (items: Vec<StatusItem>)
    ensures
        shown(items@) == bar(r, labels),
{
    let mut items: Vec<StatusItem> = Vec::new();
    let start: String = joined(r.app_name.as_str(), " ");
    items.push(StatusItem::Text(joined(start.as_str(), r.app_release.as_str())));
    items.push(StatusItem::Separator);
    items.push(StatusItem::Selected(r.selected));
    items.push(StatusItem::Separator);
    proof {
        assert(shown(items@) =~= seq![
            ShownItem::Text(r.app_name@ + " "@ + r.app_release@),
            ShownItem::Separator,
            ShownItem::Selected(r.selected),
            ShownItem::Separator,
        ]);
    }
    add_frame(&mut items, r, labels);
    add_faces(&mut items, r, labels);
    add_clip(&mut items, r, labels);
    add_points(&mut items, r, labels);
    add_coordinates(&mut items, r);
    items
}

/// The bar's texts in the language in use.
pub fn status_labels(loader: &FluentLanguageLoader) -> (labels: StatusLabels)
    ensures
        translates("Frame rate"@, labels.frame_rate@),
        translates("Faces: -- / -- (--/-- chunks)"@, labels.no_faces@),
        translates("Clip near/far/Δ: -- / -- / --"@, labels.no_clip@),
        translates("Points: -- / -- of -- (--/-- chunks)"@, labels.no_points@),
{
    StatusLabels {
        frame_rate: tr_literal(loader, "Frame rate"),
        no_faces: tr_literal(loader, "Faces: -- / -- (--/-- chunks)"),
        no_clip: tr_literal(loader, "Clip near/far/Δ: -- / -- / --"),
        no_points: tr_literal(loader, "Points: -- / -- of -- (--/-- chunks)"),
    }
}

/// What the bar shows, from left to right, in the language in use.
pub fn draw_status_bar(loader: &FluentLanguageLoader, r: &Readings) -> (items: Vec<StatusItem>)
    ensures
        exists|labels: StatusLabels| #[trigger]
            bar(r, &labels) == shown(items@) && translates("Frame rate"@, labels.frame_rate@)
                && translates("Faces: -- / -- (--/-- chunks)"@, labels.no_faces@) && translates(
                "Clip near/far/Δ: -- / -- / --"@,
                labels.no_clip@,
            ) && translates("Points: -- / -- of -- (--/-- chunks)"@, labels.no_points@),
{
    let labels: StatusLabels = status_labels(loader);
    status_items(r, &labels)
}

/// A row of the language picker's menu.
#[derive(Debug, Clone, Copy, PartialEq, Eq)]
pub struct LanguageRow {
    pub choice: LanguageChoice,
    /// The language's name for itself.
    pub label: &'static str,
    /// The language is the one in use.
    pub checked: bool,
}

/// The row shows the choice.
pub open spec fn row_shows(row: LanguageRow, choice: LanguageChoice, current: LanguageChoice) -> bool {
    &&& row.choice == choice
    &&& row.label@ == choice.endonym_text()
    &&& row.checked == (choice == current)
}

/// The languages that a build for `target` offers, in the menu's order.
pub open spec fn offered_languages(target: Target) -> Seq<LanguageChoice> {
    LanguageChoice::ALL@.filter(|choice: LanguageChoice| choice.available(target))
}

/// The rows of the language picker: every language the build can draw, with the
/// one in use ticked.
pub fn draw_language_picker(current: LanguageChoice, target: Target) -> (rows: Vec<LanguageRow>)
    ensures
        rows@.len() == offered_languages(target).len(),
        forall|i: int|
            0 <= i < rows@.len() ==> row_shows(
                #[trigger] rows@[i],
                offered_languages(target)[i],
                current,
            ),
{
    let all: [LanguageChoice; 20] = LanguageChoice::ALL;
    let ghost keep = |choice: LanguageChoice| choice.available(target);
    let mut rows: Vec<LanguageRow> = Vec::new();
    let mut i: usize = 0;
    proof {
        reveal(Seq::filter);
    }
    while i < 20
        invariant
            i <= 20,
            all == LanguageChoice::ALL,
            keep == (|choice: LanguageChoice| choice.available(target)),
            rows@.len() == all@.take(i as int).filter(keep).len(),
            forall|j: int|
                0 <= j < rows@.len() ==> row_shows(
                    #[trigger] rows@[j],
                    all@.take(i as int).filter(keep)[j],
                    current,
                ),
        decreases 20 - i,
    {
        proof {
            reveal(Seq::filter);
            assert(all@.take(i + 1).drop_last() =~= all@.take(i as int));
            assert(all@.take(i + 1).last() == all@[i as int]);
        }
        let choice: LanguageChoice = all[i];
        if choice.is_available(target) {
            rows.push(
                LanguageRow { choice, label: choice.endonym(), checked: choice == current },
            );
        }
        i += 1;
    }
    proof {
        assert(all@.take(20) =~= all@);
    }
    rows
}

/// The command that choosing a row asks for.
pub fn choose_language_row(row: &LanguageRow) -> (command: UiCommand)
    ensures
        command == UiCommand::SetLanguage(row.choice),
{
    UiCommand::SetLanguage(row.choice)
}

/// The menu offers the language in use once, if the build can draw it at all, so
/// that one row is ticked.
pub proof fn the_language_in_use_is_offered_once(current: LanguageChoice, target: Target)
    requires
        current.available(target),
    ensures
        offered_languages(target).contains(current),
        offered_languages(target).no_duplicates(),
{
    let all = LanguageChoice::ALL@;
    let keep = |choice: LanguageChoice| choice.available(target);
    let k: int = place(current);
    assert(all[k] == current);
    all.lemma_filter_contains(keep, k);
    assert(all.no_duplicates()) by {
        assert forall|i: int, j: int|
            0 <= i < all.len() && 0 <= j < all.len() && i != j implies all[i] != all[j] by {
            assert(place(all[i]) == i);
            assert(place(all[j]) == j);
        }
    }
    lemma_filtered_once(all, keep);
}

/// Where the language stands in the menu's order.
spec fn place(choice: LanguageChoice) -> int {
    match choice {
        LanguageChoice::English => 0,
        LanguageChoice::Spanish => 1,
        LanguageChoice::Portuguese => 2,
        LanguageChoice::French => 3,
        LanguageChoice::ChineseSimplified => 4,
        LanguageChoice::Indonesian => 5,
        LanguageChoice::Russian => 6,
        LanguageChoice::Arabic => 7,
        LanguageChoice::Farsi => 8,
        LanguageChoice::Hindi => 9,
        LanguageChoice::German => 10,
        LanguageChoice::Italian => 11,
        LanguageChoice::Polish => 12,
        LanguageChoice::Turkish => 13,
        LanguageChoice::Vietnamese => 14,
        LanguageChoice::Mongolian => 15,
        LanguageChoice::Swahili => 16,
        LanguageChoice::Japanese => 17,
        LanguageChoice::Korean => 18,
        LanguageChoice::Ukrainian => 19,
    }
}

proof fn lemma_filtered_once<A>(list: Seq<A>, keep: spec_fn(A) -> bool)
    requires
        list.no_duplicates(),
    ensures
        list.filter(keep).no_duplicates(),
    decreases list.len(),
{
    reveal(Seq::filter);
    if list.len() > 0 {
        let rest = list.drop_last();
        lemma_filtered_once(rest, keep);
        let kept = rest.filter(keep);
        let all = list.filter(keep);
        assert forall|i: int, j: int|
            0 <= i < all.len() && 0 <= j < all.len() && i != j implies all[i] != all[j] by {
            let a = if i < j {
                i
            } else {
                j
            };
            let b = if i < j {
                j
            } else {
                i
            };
            if b == kept.len() {
                rest.lemma_filter_contains_rev(keep, kept[a]);
                let k = choose|k: int| 0 <= k < rest.len() && rest[k] == kept[a];
                assert(list[k] != list[list.len() - 1]);
            }
        }
    }
}

} // verus!
