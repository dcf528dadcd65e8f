//! Orders, sets and settings.
use incline_design::config::{
    clamp, known_system, named_definitions, resolved_definitions, workspace_order,
    CoordinateSystem,
};
use incline_design::items::{kind_membership_changed, SaveToken};
use incline_design::model::{
    find_item, item_epochs, item_ids, mark_saved, mark_snapshot_saved, membership_changed,
    DrillHoleDetail, ItemState, OpenItem, SceneEntityId, SectionKind,
};
use incline_design::order::display_order;
use incline_design::project::{same_texts, Document, Folders, Layer, ObjectRow, ProjectStore};
use incline_design::sets::UniqueList;

fn item(id: u64, epoch: u64) -> OpenItem<DrillHoleDetail> {
    OpenItem {
        id,
        name: String::new(),
        name_rank: 0,
        state: ItemState {
            epoch,
            saved_epoch: 0,
            loaded: false,
            deferred: false,
            style: 0,
            source_name: String::new(),
            folder: None,
            section: SectionKind::DrillHoles,
            summary: None,
        },
        detail: DrillHoleDetail { holes: 0, fields: 0 },
    }
}

#[test]
fn equal_keys_keep_their_order() {
    assert_eq!(display_order(&vec![(2, 0), (1, 5), (2, 0), (1, 4)]), vec![3, 1, 0, 2]);
    assert_eq!(display_order(&vec![]), Vec::<usize>::new());
}

#[test]
fn a_set_holds_a_value_once() {
    let mut set: UniqueList<SceneEntityId> = UniqueList::new();
    assert!(set.insert(SceneEntityId::Object(1)));
    assert!(!set.insert(SceneEntityId::Object(1)));
    assert!(set.insert(SceneEntityId::Raster(1)));
    assert_eq!(set.len(), 2);
    assert!(set.remove(SceneEntityId::Object(1)));
    assert!(!set.remove(SceneEntityId::Object(1)));
    assert!(!set.contains(SceneEntityId::Object(1)));
    assert!(set.contains(SceneEntityId::Raster(1)));
}

#[test]
fn workspaces_appear_once_each() {
    assert_eq!(workspace_order(&vec![3, 1, 3], &vec![0, 1, 2, 3]), vec![3, 1, 0, 2]);
    assert_eq!(workspace_order(&vec![], &vec![0, 1]), vec![0, 1]);
    assert_eq!(clamp(4, 5, 9), 5);
    assert_eq!(clamp(10, 5, 9), 9);
    assert_eq!(clamp(7, 5, 9), 7);
}

#[test]
fn definitions_need_a_name_and_a_parent() {
    let system = |name: &str| CoordinateSystem { name: name.to_string(), definition: 0 };
    let named = named_definitions(&vec![system(" "), system("a"), system(""), system(" b")]);
    assert_eq!(named.len(), 2);
    let usable = resolved_definitions(&named, &vec![false, true]);
    assert_eq!(usable[0].name, " b");
    assert_eq!(known_system(&Some(" b".to_string()), &usable).as_deref(), Some(" b"));
    assert_eq!(known_system(&Some("a".to_string()), &usable), None);
    assert_eq!(known_system(&None, &usable), None);
}

#[test]
fn membership_is_compared_by_id() {
    assert!(!membership_changed(&vec![1, 2], &vec![(2, 9), (1, 0)]));
    assert!(membership_changed(&vec![1, 2], &vec![(1, 0)]));
    assert!(membership_changed(&vec![1, 2], &vec![(1, 0), (3, 0)]));
    let items = vec![item(1, 4), item(2, 5)];
    assert_eq!(item_ids(&items), vec![1, 2]);
    assert_eq!(item_epochs(&items), vec![(1, 4), (2, 5)]);
    assert!(!kind_membership_changed(&items, &vec![(1, 0), (2, 0)]));
    assert!(kind_membership_changed(&items, &SaveToken::new().drill_holes));
    assert_eq!(find_item(&items, 2), Some(1));
    assert_eq!(find_item(&items, 3), None);
}

#[test]
fn a_snapshot_counts_for_the_items_it_held() {
    let mut items = vec![item(1, 4), item(2, 5), item(3, 6)];
    mark_snapshot_saved(&mut items, &vec![(1, 4), (2, 3), (9, 9)]);
    let dirty: Vec<bool> = items.iter().map(|item| item.state.is_dirty()).collect();
    assert_eq!(dirty, vec![false, true, true]);
    assert_eq!(items[1].state.saved_epoch, 3);
    mark_saved(&mut items);
    assert!(items.iter().all(|item| !item.state.is_dirty()));
}

#[test]
fn objects_are_loaded_with_their_layer() {
    let mut document = Document::new();
    document.objects.push(ObjectRow { id: 1, layer: 5 });
    assert!(!document.has_loaded_object(1));
    assert!(!document.holds_renderables());
    document.layers.push(Layer {
        id: 5,
        name: "l".to_string(),
        name_rank: 0,
        loaded: true,
        folder: None,
        section: SectionKind::Designs,
    });
    assert!(document.has_loaded_object(1));
    assert!(document.holds_renderables());
    assert!(!document.has_loaded_object(2));
    document.layers[0].loaded = false;
    assert!(!document.has_loaded_object(1));
}

#[test]
fn a_store_without_projects_has_no_active_one() {
    let mut store = ProjectStore::new();
    assert!(!store.has_active_project());
    store.active_index = Some(3);
    assert!(store.active_project().is_none());
    assert_eq!(store.project_index_for_runtime_id(1), None);
    let empty = ProjectStore::new();
    assert_ne!(store.composite_key(), empty.composite_key());
    assert_eq!(ProjectStore::new().composite_key(), empty.composite_key());
}

#[test]
fn folders_are_compared_section_by_section() {
    let mut folders = Folders::new();
    folders.point_clouds.push("scan".to_string());
    let copy = folders.copied();
    assert!(same_texts(
        copy.names(SectionKind::PointClouds),
        folders.names(SectionKind::PointClouds)
    ));
    assert!(!same_texts(
        copy.names(SectionKind::PointClouds),
        folders.names(SectionKind::Rasters)
    ));
}
