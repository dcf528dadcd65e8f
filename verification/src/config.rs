//! Settings as they are stored, and what the application makes of them.
use crate::language::LanguageChoice;
use crate::model::ColorBits;
use crate::text::{same_text, text_of, trim, trimmed};
use vstd::prelude::*;

verus! {

/// A coordinate system that the user defined.
pub struct CoordinateSystem {
    pub name: String,
    /// Stands for the rest of the definition.
    pub definition: u64,
}

impl CoordinateSystem {
    /// A copy.
    pub fn copied(&self) -> (copy: CoordinateSystem)
        ensures
            copy == *self,
    {
        CoordinateSystem { name: self.name.clone(), definition: self.definition }
    }
}

/// The settings that are flags and whole numbers.
#[derive(Debug, Clone, Copy, PartialEq, Eq, Structural)]
pub struct Preferences {
    pub dark_mode: bool,
    pub show_console: bool,
    pub panel_chrome: u8,
    pub show_world_axis_gizmo: bool,
    pub show_scale_bar: bool,
    pub renderer_background_color: ColorBits,
    pub snap_poll_rate: u32,
    pub vsync_enabled: bool,
    pub frame_rate_cap: u32,
    pub resize_frame_rate_cap: u32,
    pub block_model_interaction_resolution_divisor: u32,
    pub show_block_model_boundary_highlights: bool,
    pub downscale_raster_previews: bool,
    pub frame_counter_enabled: bool,
    pub debug_surface_chunks: bool,
    pub debug_clip_planes: bool,
    pub debug_point_cloud_chunks: bool,
    pub plan_invert_vertical_look: bool,
    pub plan_invert_horizontal_look: bool,
    pub plan_zoom_towards_cursor: bool,
    pub fly_invert_vertical_look: bool,
    pub fly_invert_horizontal_look: bool,
}

/// `value`, kept between `low` and `high`.
pub open spec fn kept_between(value: u32, low: u32, high: u32) -> u32 {
    if value < low {
        low
    } else if value > high {
        high
    } else {
        value
    }
}

/// `value`, kept between `low` and `high`.
pub fn clamp(value: u32, low: u32, high: u32) -> (result: u32)
    requires
        low <= high,
    ensures
        result == kept_between(value, low, high),
{
    if value < low {
        low
    } else if value > high {
        high
    } else {
        value
    }
}

impl Preferences {
    /// The settings with every rate and divisor in its range.
    pub open spec fn in_range(self) -> Preferences {
        Preferences {
            snap_poll_rate: kept_between(self.snap_poll_rate, 5, 1000),
            frame_rate_cap: kept_between(self.frame_rate_cap, 20, 1000),
            resize_frame_rate_cap: kept_between(self.resize_frame_rate_cap, 20, 1000),
            block_model_interaction_resolution_divisor: kept_between(
                self.block_model_interaction_resolution_divisor,
                1,
                64,
            ),
            ..self
        }
    }

    /// The settings with every rate and divisor in its range.
    pub fn clamped(self) -> (result: Preferences)
        ensures
            result == self.in_range(),
    {
        Preferences {
            snap_poll_rate: clamp(self.snap_poll_rate, 5, 1000),
            frame_rate_cap: clamp(self.frame_rate_cap, 20, 1000),
            resize_frame_rate_cap: clamp(self.resize_frame_rate_cap, 20, 1000),
            block_model_interaction_resolution_divisor: clamp(
                self.block_model_interaction_resolution_divisor,
                1,
                64,
            ),
            ..self
        }
    }
}

/// Reading settings back changes nothing that reading them once did not.
pub proof fn clamping_twice_is_clamping_once(preferences: Preferences)
    ensures
        preferences.in_range().in_range() == preferences.in_range(),
{
}

/// The stored settings.
pub struct Config {
    /// The workspaces as the user arranged them, by number.
    pub workspace_order: Vec<u8>,
    pub coordinate_systems: Vec<CoordinateSystem>,
    pub mine_coordinate_system: Option<String>,
    pub language: LanguageChoice,
    pub preferences: Preferences,
    /// The ids of the stored delay products, in order.
    pub delay_products: Vec<u64>,
}

/// `list` with every value but its first occurrence left out.
pub open spec fn deduplicated(list: Seq<u8>) -> Seq<u8>
    decreases list.len(),
{
    if list.len() == 0 {
        Seq::empty()
    } else {
        let before = deduplicated(list.drop_last());
        if before.contains(list.last()) {
            before
        } else {
            before.push(list.last())
        }
    }
}

/// Leaving repetitions out loses no value and keeps none twice.
pub proof fn lemma_deduplicated(list: Seq<u8>)
    ensures
        deduplicated(list).no_duplicates(),
        forall|v: u8| deduplicated(list).contains(v) <==> list.contains(v),
    decreases list.len(),
{
    if list.len() > 0 {
        let rest = list.drop_last();
        let before = deduplicated(rest);
        lemma_deduplicated(rest);
        let all = deduplicated(list);
        assert forall|v: u8| all.contains(v) <==> list.contains(v) by {
            if list.contains(v) {
                let i = choose|i: int| 0 <= i < list.len() && list[i] == v;
                if i < rest.len() {
                    assert(rest[i] == v);
                    assert(rest.contains(v));
                }
                if before.contains(v) {
                    let k = choose|k: int| 0 <= k < before.len() && before[k] == v;
                    assert(all[k] == v);
                } else {
                    assert(all.last() == v);
                }
            }
            if all.contains(v) {
                let k = choose|k: int| 0 <= k < all.len() && all[k] == v;
                if k < before.len() {
                    assert(before[k] == v);
                    assert(rest.contains(v));
                    let i = choose|i: int| 0 <= i < rest.len() && rest[i] == v;
                    assert(list[i] == v);
                } else {
                    assert(list.last() == v);
                }
            }
        }
        assert(all.no_duplicates()) by {
            assert forall|i: int, j: int|
                0 <= i < all.len() && 0 <= j < all.len() && i != j implies all[i] != all[j] by {
                if i == before.len() {
                    assert(before.contains(before[j]));
                } else if j == before.len() {
                    assert(before.contains(before[i]));
                }
            }
        }
    }
}

fn holds_value(list: &Vec<u8>, value: u8) -> (yes: bool)
    ensures
        yes == list@.contains(value),
{
    let mut i: usize = 0;
    while i < list.len()
        invariant
            i <= list@.len(),
            forall|j: int| 0 <= j < i ==> list@[j] != value,
        decreases list.len() - i,
    {
        if list[i] == value {
            return true;
        }
        i += 1;
    }
    false
}

fn add_missing(order: &mut Vec<u8>, list: &Vec<u8>, Ghost(before): Ghost<Seq<u8>>)
    requires
        old(order)@ == deduplicated(before),
    ensures
        final(order)@ == deduplicated(before + list@),
{
    let mut i: usize = 0;
    proof {
        assert(before + list@.take(0) =~= before);
    }
    while i < list.len()
        invariant
            i <= list@.len(),
            order@ == deduplicated(before + list@.take(i as int)),
        decreases list.len() - i,
    {
        proof {
            let seen = before + list@.take(i + 1);
            assert(seen.drop_last() =~= before + list@.take(i as int));
            assert(seen.last() == list@[i as int]);
        }
        if !holds_value(order, list[i]) {
            order.push(list[i]);
        }
        i += 1;
    }
    proof {
        assert(list@.take(i as int) =~= list@);
    }
}

/// The order of the workspaces: as the user arranged them, with those that the
/// settings do not mention behind. All appear, each once.
pub fn workspace_order(stored: &Vec<u8>, all: &Vec<u8>) -> (order: Vec<u8>)
    requires
        all@.no_duplicates(),
        forall|i: int| 0 <= i < stored@.len() ==> all@.contains(#[trigger] stored@[i]),
    ensures
        order@ == deduplicated(stored@ + all@),
        order@.no_duplicates(),
        order@.len() == all@.len(),
        order@.to_set() == all@.to_set(),
{
    let mut order: Vec<u8> = Vec::new();
    add_missing(&mut order, stored, Ghost(Seq::<u8>::empty()));
    proof {
        assert(Seq::<u8>::empty() + stored@ =~= stored@);
    }
    add_missing(&mut order, all, Ghost(stored@));
    proof {
        let list = stored@ + all@;
        lemma_deduplicated(list);
        assert(order@.to_set() =~= all@.to_set()) by {
            assert forall|v: u8| order@.contains(v) <==> all@.contains(v) by {
                if list.contains(v) {
                    let i = choose|i: int| 0 <= i < list.len() && list[i] == v;
                    if i < stored@.len() {
                        assert(stored@[i] == v);
                    } else {
                        assert(all@[i - stored@.len()] == v);
                    }
                }
                if all@.contains(v) {
                    let i = choose|i: int| 0 <= i < all@.len() && all@[i] == v;
                    assert(list[stored@.len() + i] == v);
                }
            }
        }
        order@.unique_seq_to_set();
        all@.unique_seq_to_set();
    }
    order
}

/// A definition has a name that is not blank.
pub open spec fn named(definition: CoordinateSystem) -> bool {
    trimmed(definition.name@).len() > 0
}

/// The definitions that have a name, in order.
pub fn named_definitions(definitions: &Vec<CoordinateSystem>) -> (result: Vec<CoordinateSystem>)
    ensures
        result@ == definitions@.filter(|d: CoordinateSystem| named(d)),
{
    let ghost keep = |d: CoordinateSystem| named(d);
    let mut result: Vec<CoordinateSystem> = Vec::new();
    let mut i: usize = 0;
    proof {
        reveal(Seq::filter);
    }
    while i < definitions.len()
        invariant
            i <= definitions@.len(),
            keep == (|d: CoordinateSystem| named(d)),
            result@ == definitions@.take(i as int).filter(keep),
        decreases definitions.len() - i,
    {
        proof {
            reveal(Seq::filter);
            assert(definitions@.take(i + 1).drop_last() =~= definitions@.take(i as int));
        }
        let inner: String = trim(definitions[i].name.as_str());
        if !inner.as_str().is_empty() {
            result.push(definitions[i].copied());
        }
        i += 1;
    }
    proof {
        assert(definitions@.take(i as int) =~= definitions@);
    }
    result
}

/// The definitions that resolve, in order.
pub open spec fn resolved(definitions: Seq<CoordinateSystem>, resolves: Seq<bool>) -> Seq<
    CoordinateSystem,
>
    decreases definitions.len(),
{
    if definitions.len() == 0 {
        Seq::empty()
    } else {
        let before = resolved(definitions.drop_last(), resolves);
        if resolves[definitions.len() - 1] {
            before.push(definitions.last())
        } else {
            before
        }
    }
}

/// The definitions that resolve. One that names a parent that is not in the
/// list, or itself, would fail on every use; the rest of the list still works.
pub fn resolved_definitions(definitions: &Vec<CoordinateSystem>, resolves: &Vec<bool>) -> (result: Vec<
    CoordinateSystem,
>)
    requires
        resolves@.len() == definitions@.len(),
    ensures
        result@ == resolved(definitions@, resolves@),
{
    let mut result: Vec<CoordinateSystem> = Vec::new();
    let mut i: usize = 0;
    while i < definitions.len()
        invariant
            i <= definitions@.len() == resolves@.len(),
            result@ == resolved(definitions@.take(i as int), resolves@),
        decreases definitions.len() - i,
    {
        proof {
            assert(definitions@.take(i + 1).drop_last() =~= definitions@.take(i as int));
        }
        if resolves[i] {
            result.push(definitions[i].copied());
        }
        i += 1;
    }
    proof {
        assert(definitions@.take(i as int) =~= definitions@);
    }
    result
}

/// Some definition has the name.
pub open spec fn defines(definitions: Seq<CoordinateSystem>, name: Seq<char>) -> bool {
    exists|i: int| 0 <= i < definitions.len() && (#[trigger] definitions[i]).name@ == name
}

/// `name`, if some definition has it.
pub fn known_system(name: &Option<String>, definitions: &Vec<CoordinateSystem>) -> (result: Option<
    String,
>)
    ensures
        text_of(result) == (match text_of(*name) {
            Some(n) if defines(definitions@, n) => Some(n),
            _ => None,
        }),
{
    match name {
        None => None,
        Some(n) => {
            let mut i: usize = 0;
            while i < definitions.len()
                invariant
                    i <= definitions@.len(),
                    text_of(*name) == Some(n@),
                    forall|j: int| 0 <= j < i ==> (#[trigger] definitions@[j]).name@ != n@,
                decreases definitions.len() - i,
            {
                if same_text(definitions[i].name.as_str(), n.as_str()) {
                    proof {
                        assert(definitions@[i as int].name@ == n@);
                        assert(defines(definitions@, n@));
                    }
                    return Some(n.clone());
                }
                i += 1;
            }
            None
        },
    }
}

/// Reading settings changes no choice of the user's: every flag, number and colour
/// but the four that have a range stays as it is stored.
pub proof fn choices_are_kept(p: Preferences)
    ensures
        p.in_range().dark_mode == p.dark_mode,
        p.in_range().show_console == p.show_console,
        p.in_range().panel_chrome == p.panel_chrome,
        p.in_range().show_world_axis_gizmo == p.show_world_axis_gizmo,
        p.in_range().show_scale_bar == p.show_scale_bar,
        p.in_range().renderer_background_color == p.renderer_background_color,
        p.in_range().vsync_enabled == p.vsync_enabled,
        p.in_range().show_block_model_boundary_highlights == p.show_block_model_boundary_highlights,
        p.in_range().downscale_raster_previews == p.downscale_raster_previews,
        p.in_range().frame_counter_enabled == p.frame_counter_enabled,
        p.in_range().debug_surface_chunks == p.debug_surface_chunks,
        p.in_range().debug_clip_planes == p.debug_clip_planes,
        p.in_range().debug_point_cloud_chunks == p.debug_point_cloud_chunks,
        p.in_range().plan_invert_vertical_look == p.plan_invert_vertical_look,
        p.in_range().plan_invert_horizontal_look == p.plan_invert_horizontal_look,
        p.in_range().plan_zoom_towards_cursor == p.plan_zoom_towards_cursor,
        p.in_range().fly_invert_vertical_look == p.fly_invert_vertical_look,
        p.in_range().fly_invert_horizontal_look == p.fly_invert_horizontal_look,
{
}

/// The four settings that have a range end up in it, as near to what is stored as
/// the range lets them: at it, or at the end of the range that it is beyond.
pub proof fn rates_are_kept_in_range(p: Preferences)
    ensures
        ranged(p.snap_poll_rate as int, p.in_range().snap_poll_rate as int, 5, 1000),
        ranged(p.frame_rate_cap as int, p.in_range().frame_rate_cap as int, 20, 1000),
        ranged(p.resize_frame_rate_cap as int, p.in_range().resize_frame_rate_cap as int, 20, 1000),
        ranged(
            p.block_model_interaction_resolution_divisor as int,
            p.in_range().block_model_interaction_resolution_divisor as int,
            1,
            64,
        ),
        5 <= p.snap_poll_rate <= 1000 ==> p.in_range().snap_poll_rate == p.snap_poll_rate,
        20 <= p.frame_rate_cap <= 1000 ==> p.in_range().frame_rate_cap == p.frame_rate_cap,
        20 <= p.resize_frame_rate_cap <= 1000 ==> p.in_range().resize_frame_rate_cap
            == p.resize_frame_rate_cap,
        1 <= p.block_model_interaction_resolution_divisor <= 64
            ==> p.in_range().block_model_interaction_resolution_divisor
            == p.block_model_interaction_resolution_divisor,
        20 <= p.in_range().frame_rate_cap <= 1000,
        20 <= p.in_range().resize_frame_rate_cap <= 1000,
        5 <= p.in_range().snap_poll_rate <= 1000,
        1 <= p.in_range().block_model_interaction_resolution_divisor <= 64,
        p.frame_rate_cap > 1000 ==> p.in_range().frame_rate_cap == 1000,
        p.frame_rate_cap < 20 ==> p.in_range().frame_rate_cap == 20,
        p.resize_frame_rate_cap > 1000 ==> p.in_range().resize_frame_rate_cap == 1000,
        p.resize_frame_rate_cap < 20 ==> p.in_range().resize_frame_rate_cap == 20,
        p.snap_poll_rate > 1000 ==> p.in_range().snap_poll_rate == 1000,
        p.snap_poll_rate < 5 ==> p.in_range().snap_poll_rate == 5,
{
}

/// `result` lies in the range, and no value of the range is nearer to `stored`.
pub open spec fn ranged(stored: int, result: int, low: int, high: int) -> bool {
    &&& low <= result <= high
    &&& forall|other: int|
        low <= other <= high ==> #[trigger] distance(stored, result) <= distance(stored, other)
}

/// How far two numbers are apart.
pub open spec fn distance(a: int, b: int) -> int {
    if a < b {
        b - a
    } else {
        a - b
    }
}

/// The workspaces stand as the user arranged them: one that is arranged before
/// another, or is arranged while the other is not, comes before it.
pub proof fn workspaces_stand_as_arranged(stored: Seq<u8>, all: Seq<u8>, i: int, j: int)
    requires
        stored.no_duplicates(),
        0 <= i < stored.len(),
    ensures
        i < deduplicated(stored + all).len(),
        deduplicated(stored + all)[i] == stored[i],
        0 <= j < all.len() ==> deduplicated(stored + all).contains(all[j]),
{
    let list = stored + all;
    lemma_deduplicated(list);
    lemma_deduplicated_prefix(stored, all);
    if 0 <= j < all.len() {
        assert(list[stored.len() + j] == all[j]);
        assert(list.contains(all[j]));
    }
}

/// What holds nothing twice is kept as it is, at the start of what follows from it.
proof fn lemma_deduplicated_prefix(first: Seq<u8>, more: Seq<u8>)
    requires
        first.no_duplicates(),
    ensures
        first.is_prefix_of(deduplicated(first + more)),
    decreases first.len() + more.len(),
{
    let list = first + more;
    if more.len() > 0 {
        lemma_deduplicated_prefix(first, more.drop_last());
        assert(list.drop_last() =~= first + more.drop_last());
        let before = deduplicated(list.drop_last());
        assert(first =~= before.subrange(0, first.len() as int));
        assert(first =~= deduplicated(list).subrange(0, first.len() as int));
    } else if first.len() > 0 {
        assert(list =~= first);
        let rest = first.drop_last();
        lemma_deduplicated_prefix(rest, Seq::<u8>::empty());
        assert(rest + Seq::<u8>::empty() =~= rest);
        lemma_deduplicated(rest);
        assert(!rest.contains(first.last())) by {
            if rest.contains(first.last()) {
                let k = choose|k: int| 0 <= k < rest.len() && rest[k] == first.last();
                assert(first[k] == first[first.len() - 1]);
            }
        }
        let before = deduplicated(rest);
        assert(rest =~= before.subrange(0, rest.len() as int));
        assert(before.len() == rest.len()) by {
            before.unique_seq_to_set();
            rest.unique_seq_to_set();
            assert(before.to_set() =~= rest.to_set());
        }
        assert(before =~= rest);
        assert(deduplicated(list) =~= first);
    } else {
        assert(list =~= Seq::<u8>::empty());
    }
}

/// Of the definitions, exactly those that resolve are kept, in their order.
pub proof fn definitions_that_resolve_are_kept(
    definitions: Seq<CoordinateSystem>,
    resolves: Seq<bool>,
    d: CoordinateSystem,
)
    requires
        resolves.len() == definitions.len(),
    ensures
        resolved(definitions, resolves).contains(d) <==> exists|i: int|
            0 <= i < definitions.len() && resolves[i] && #[trigger] definitions[i] == d,
        (forall|i: int| 0 <= i < resolves.len() ==> resolves[i]) ==> resolved(definitions, resolves)
            == definitions,
{
    lemma_resolved(definitions, resolves, d);
}

proof fn lemma_resolved(
    definitions: Seq<CoordinateSystem>,
    resolves: Seq<bool>,
    d: CoordinateSystem,
)
    requires
        definitions.len() <= resolves.len(),
    ensures
        resolved(definitions, resolves).contains(d) <==> exists|i: int|
            0 <= i < definitions.len() && resolves[i] && #[trigger] definitions[i] == d,
        (forall|i: int| 0 <= i < definitions.len() ==> resolves[i]) ==> resolved(
            definitions,
            resolves,
        ) == definitions,
    decreases definitions.len(),
{
    if definitions.len() > 0 {
        let rest = definitions.drop_last();
        let n = definitions.len() - 1;
        let before = resolved(rest, resolves);
        let all = resolved(definitions, resolves);
        lemma_resolved(rest, resolves, d);
        if before.contains(d) {
            let k = choose|k: int| 0 <= k < before.len() && before[k] == d;
            assert(all[k] == d);
            let i = choose|i: int| 0 <= i < rest.len() && resolves[i] && #[trigger] rest[i] == d;
            assert(definitions[i] == d);
        }
        if resolves[n] && definitions[n] == d {
            assert(all.last() == d);
        }
        if all.contains(d) && !before.contains(d) {
            let k = choose|k: int| 0 <= k < all.len() && all[k] == d;
            if k < before.len() {
                assert(before[k] == d);
            }
            assert(resolves[n] && definitions[n] == d);
        }
        if exists|i: int|
            0 <= i < definitions.len() && resolves[i] && #[trigger] definitions[i] == d {
            let i = choose|i: int|
                0 <= i < definitions.len() && resolves[i] && #[trigger] definitions[i] == d;
            if i < n {
                assert(rest[i] == d);
            }
        }
        if forall|i: int| 0 <= i < definitions.len() ==> resolves[i] {
            assert(resolves[n]);
            assert(all =~= definitions);
        }
    }
}

} // verus!
