//! The status bar, the language picker and the icon.
use crate::effects::{Notice, NoticeKind};
use crate::icon::{window_icon, IconPixels, Raster};
use crate::language::{LanguageChoice, Target};
use crate::status_bar::{
    bar, draw_language_picker, offered_languages, row_shows, shown, status_items, status_message,
    LanguageRow, MessageValue, Readings, ShownValue, StatusItem, StatusLabels, StatusMessage,
};
use crate::text::{decimal, with_commas};
use vstd::prelude::*;

verus! {

/// How many parts of the bar stand before the one about surfaces.
pub open spec fn before_faces(r: &Readings) -> int {
    if r.frame_counter_enabled {
        6
    } else {
        4
    }
}

/// How many parts of the bar stand before the one about clip planes.
pub open spec fn before_clip(r: &Readings) -> int {
    before_faces(r) + if r.debug_surface_chunks {
        2int
    } else {
        0
    }
}

/// How many parts of the bar stand before the one about points.
pub open spec fn before_points(r: &Readings) -> int {
    before_clip(r) + if r.debug_clip_planes {
        2int
    } else {
        0
    }
}

/// How many parts of the bar stand before the coordinates.
pub open spec fn before_coordinates(r: &Readings) -> int {
    before_points(r) + if r.debug_point_cloud_chunks {
        2int
    } else {
        0
    }
}

/// The bar begins with the application and how much is selected, shows each further
/// part exactly if it is asked for, and ends with the coordinates: one readout for an
/// axis, with the cursor's value only while the pointer is over the scene.
pub open spec fn reads_out(r: &Readings, items: Seq<StatusItem>) -> bool {
    let n = before_coordinates(r);
    &&& items.len() >= n >= 4
    &&& items[0] is Text
    &&& items[1] is Separator
    &&& items[2] == StatusItem::Selected(r.selected)
    &&& items[3] is Separator
    &&& r.frame_counter_enabled ==> items[4] is Text && items[5] is Separator
    &&& r.debug_surface_chunks ==> items[before_faces(r) + 1] is Separator
    &&& r.debug_surface_chunks && r.surface_stats is None ==> items[before_faces(r)] is Text
    &&& r.debug_surface_chunks && r.surface_stats is Some ==> {
        let item = items[before_faces(r)];
        &&& item is Faces
        &&& item->Faces_drawn@ == with_commas(decimal(r.surface_stats->0.drawn_faces as nat))
        &&& item->Faces_total@ == with_commas(decimal(r.surface_stats->0.total_faces as nat))
        &&& item->Faces_drawn_chunks == r.surface_stats->0.drawn_chunks
        &&& item->Faces_total_chunks == r.surface_stats->0.total_chunks
    }
    &&& r.debug_clip_planes && r.clip_distances is None ==> items[before_clip(r)] is Text
    &&& r.debug_clip_planes && r.clip_distances is Some ==> {
        let item = items[before_clip(r)];
        &&& item is Clip
        &&& item->Clip_near@ == r.clip_distances->0.near@
        &&& item->Clip_far@ == r.clip_distances->0.far@
        &&& item->Clip_delta@ == r.clip_distances->0.delta@
    }
    &&& r.debug_point_cloud_chunks && r.point_stats is None ==> items[before_points(r)] is Text
    &&& r.debug_point_cloud_chunks && r.point_stats is Some ==> {
        let item = items[before_points(r)];
        &&& item is Points
        &&& item->Points_drawn@ == with_commas(decimal(r.point_stats->0.drawn as nat))
        &&& item->Points_target@ == with_commas(decimal(r.point_stats->0.target as nat))
        &&& item->Points_total@ == with_commas(decimal(r.point_stats->0.total as nat))
        &&& item->Points_drawn_chunks == r.point_stats->0.drawn_chunks
        &&& item->Points_total_chunks == r.point_stats->0.total_chunks
    }
    &&& r.cursor is None || !r.pointer_inside || r.pointer_over_panel ==> items.len() == n
        + r.axis_names@.len()
    &&& r.cursor is Some && r.pointer_inside && !r.pointer_over_panel && r.cursor->0@.len()
        == r.axis_names@.len() ==> items.len() == n + r.axis_names@.len()
    &&& forall|i: int| n <= i < items.len() ==> #[trigger] items[i] is Coordinate
}

/// The bar reads out what is asked for, in its place.
pub proof fn the_bar_reads_out_what_is_asked_for(
    r: &Readings,
    labels: &StatusLabels,
    items: Vec<StatusItem>,
)
    requires
        call_ensures(status_items, (r, labels), items),
    ensures
        reads_out(r, items@),
        items@[0]->Text_0@ == r.app_name@ + " "@ + r.app_release@,
        r.frame_counter_enabled && r.frame_rate is Some ==> items@[4]->Text_0@
            == labels.frame_rate@ + ": "@ + r.frame_rate->0@,
        r.frame_counter_enabled && r.frame_rate is None ==> items@[4]->Text_0@
            == labels.frame_rate@ + ": "@ + "--"@,
        r.debug_surface_chunks && r.surface_stats is None ==> items@[before_faces(
            r,
        )]->Text_0@ == labels.no_faces@,
        r.debug_clip_planes && r.clip_distances is None ==> items@[before_clip(r)]->Text_0@
            == labels.no_clip@,
        r.debug_point_cloud_chunks && r.point_stats is None ==> items@[before_points(
            r,
        )]->Text_0@ == labels.no_points@,
{
    let all = bar(r, labels);
    let s = shown(items@);
    assert(s.len() == items@.len());
    assert forall|i: int| 0 <= i < items@.len() implies #[trigger] items@[i]@ == all[i] by {
        assert(s[i] == items@[i]@);
    }
    let n = before_coordinates(r);
    assert forall|i: int| n <= i < items@.len() implies #[trigger] items@[i] is Coordinate by {
        assert(items@[i]@ == all[i]);
        assert(all[i] is Coordinate);
    }
    assert(items@[0]@ == all[0]);
    assert(items@[1]@ == all[1]);
    assert(items@[2]@ == all[2]);
    assert(items@[3]@ == all[3]);
    if r.frame_counter_enabled {
        assert(items@[4]@ == all[4]);
        assert(items@[5]@ == all[5]);
    }
    if r.debug_surface_chunks {
        assert(items@[before_faces(r)]@ == all[before_faces(r)]);
        assert(items@[before_faces(r) + 1]@ == all[before_faces(r) + 1]);
    }
    if r.debug_clip_planes {
        assert(items@[before_clip(r)]@ == all[before_clip(r)]);
    }
    if r.debug_point_cloud_chunks {
        assert(items@[before_points(r)]@ == all[before_points(r)]);
    }
}

/// The coordinates stand under the names of their axes, in order, and are the cursor's
/// exactly while the pointer is over the scene.
pub proof fn coordinates_stand_under_their_axes(
    r: &Readings,
    labels: &StatusLabels,
    items: Vec<StatusItem>,
    i: int,
)
    requires
        call_ensures(status_items, (r, labels), items),
        0 <= i < r.axis_names@.len(),
        r.cursor is Some ==> r.cursor->0@.len() == r.axis_names@.len(),
    ensures
        ({
            let item = items@[before_coordinates(r) + i];
            let axis = r.axis_names@[i]@ + ": "@;
            &&& item is Coordinate
            &&& r.cursor is Some && r.pointer_inside && !r.pointer_over_panel
                ==> item->Coordinate_0@ == axis + with_commas(r.cursor->0@[i]@)
            &&& r.cursor is None || !r.pointer_inside || r.pointer_over_panel
                ==> item->Coordinate_0@ == axis + "--"@
        }),
{
    let all = bar(r, labels);
    let s = shown(items@);
    let k = before_coordinates(r) + i;
    assert(s.len() == items@.len());
    assert(all.len() == before_coordinates(r) + crate::status_bar::coordinates_part(r).len());
    assert(s[k] == items@[k]@);
    assert(all[k] == crate::status_bar::coordinates_part(r)[i]);
}

/// Only the parts with counts are messages of the catalogue, and each number that such
/// a part holds goes into it.
pub proof fn parts_with_counts_are_messages(item: &StatusItem, message: Option<StatusMessage>)
    requires
        call_ensures(status_message, (item,), message),
    ensures
        message is Some <==> item is Selected || item is Faces || item is Clip || item is Points,
        item is Selected ==> message->0.id@ == "status-selected"@ && message->0.values@[0].0@
            == "count"@,
        item is Faces ==> message->0.id@ == "status-faces"@ && message->0.values@[0].0@ == "drawn"@
            && message->0.values@[1].0@ == "total"@ && message->0.values@[0].1@
            == ShownValue::Text(item->Faces_drawn@) && message->0.values@[1].1@
            == ShownValue::Text(item->Faces_total@),
        item is Clip ==> message->0.id@ == "status-clip"@ && message->0.values@[0].1@
            == ShownValue::Text(item->Clip_near@) && message->0.values@[1].1@ == ShownValue::Text(
            item->Clip_far@,
        ) && message->0.values@[2].1@ == ShownValue::Text(item->Clip_delta@),
        item is Points ==> message->0.id@ == "status-points"@ && message->0.values@[0].1@
            == ShownValue::Text(item->Points_drawn@) && message->0.values@[1].1@
            == ShownValue::Text(item->Points_target@) && message->0.values@[2].1@
            == ShownValue::Text(item->Points_total@),
        item is Selected ==> message->0.values@.len() == 1 && message->0.values@[0].1
            == MessageValue::Number(item->Selected_0 as u64),
        item is Faces ==> message->0.values@.len() == 4 && message->0.values@[2].1
            == MessageValue::Number(item->Faces_drawn_chunks) && message->0.values@[3].1
            == MessageValue::Number(item->Faces_total_chunks),
        item is Clip ==> message->0.values@.len() == 3,
        item is Points ==> message->0.values@.len() == 5 && message->0.values@[3].1
            == MessageValue::Number(item->Points_drawn_chunks) && message->0.values@[4].1
            == MessageValue::Number(item->Points_total_chunks),
{
    if message is Some {
        let values = message->0.values@;
        let named = crate::status_bar::named_values(values);
        assert(named.len() == values.len());
        assert forall|i: int| 0 <= i < values.len() implies (#[trigger] named[i]).1
            == values[i].1@ && named[i].0 == values[i].0@ by {}
        if values.len() > 0 {
            assert(named[0].1 == values[0].1@);
        }
        if values.len() > 1 {
            assert(named[1].1 == values[1].1@);
        }
        if values.len() > 2 {
            assert(named[2].1 == values[2].1@);
        }
        if item is Selected {
            assert(named[0].1 == values[0].1@);
        }
        if item is Faces {
            assert(named[2].1 == values[2].1@);
            assert(named[3].1 == values[3].1@);
        }
        if item is Points {
            assert(named[3].1 == values[3].1@);
            assert(named[4].1 == values[4].1@);
        }
    }
}

/// The picker has a row for every language that the build can draw, and none for
/// another; the row of the one in use, and no other, is ticked.
pub proof fn the_picker_offers_what_can_be_drawn(
    current: LanguageChoice,
    target: Target,
    rows: Vec<LanguageRow>,
    choice: LanguageChoice,
    yes: bool,
    i: int,
)
    requires
        call_ensures(draw_language_picker, (current, target), rows),
        call_ensures(LanguageChoice::is_available, (choice, target), yes),
    ensures
        yes ==> exists|k: int|
            0 <= k < rows@.len() && (#[trigger] rows@[k]).choice == choice,
        0 <= i < rows@.len() ==> (rows@[i].checked <==> rows@[i].choice == current),
        0 <= i < rows@.len() && rows@[i].choice == choice ==> yes,
{
    let offered = offered_languages(target);
    if yes {
        crate::status_bar::the_language_in_use_is_offered_once(choice, target);
        let k = choose|k: int| 0 <= k < offered.len() && offered[k] == choice;
        assert(row_shows(rows@[k], offered[k], current));
    }
    if 0 <= i < rows@.len() {
        assert(row_shows(rows@[i], offered[i], current));
        LanguageChoice::ALL@.lemma_filter_pred(|c: LanguageChoice| c.available(target), i);
    }
}

/// The icon has the picture's sides and four bytes for each of its pixels, the last of
/// them the pixel's alpha; a drawing that could not be read is told of instead.
pub proof fn the_icon_is_the_picture(
    picture: Result<Raster, String>,
    icon: Result<IconPixels, Notice>,
)
    requires
        call_ensures(window_icon, (picture,), icon),
    ensures
        icon is Ok <==> picture is Ok,
        picture is Ok && picture->Ok_0.width <= u32::MAX ==> icon->Ok_0.width
            == picture->Ok_0.width,
        picture is Ok && picture->Ok_0.height <= u32::MAX ==> icon->Ok_0.height
            == picture->Ok_0.height,
        picture is Err ==> icon->Err_0.kind == NoticeKind::IconDrawingFailed && icon->Err_0.detail
            == picture->Err_0,
{
}

} // verus!
