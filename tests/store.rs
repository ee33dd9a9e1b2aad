use vroomgine::business::BusinessInsert;
use vroomgine::category::BusinessCategory;
use vroomgine::overpass::OverpassElement;
use vroomgine::store::{
    wrote_record, BusinessRepository, CreateUserBusinessRequest, StoreError, UpsertOutcome,
};
use vroomgine::tags::Tags;

const U1: u128 = 0x0000_0000_0000_4000_8000_0000_0000_0001;

fn tags_of(pairs: &[(&str, &str)]) -> Tags {
    let mut tags = Tags::new();
    for (k, v) in pairs {
        tags.insert(k.to_string(), v.to_string());
    }
    tags
}

fn element(id: i64, lat: Option<i32>, lon: Option<i32>, pairs: &[(&str, &str)]) -> OverpassElement {
    OverpassElement {
        element_type: "node".to_string(),
        id,
        lat_e7: lat,
        lon_e7: lon,
        tags: Some(tags_of(pairs)),
    }
}

fn request(id: u128, name: &str, categories: Vec<BusinessCategory>) -> CreateUserBusinessRequest {
    CreateUserBusinessRequest {
        id,
        name: Some(name.to_string()),
        name_en: None,
        address: Some("Street 1".to_string()),
        latitude_e7: 420_000_000,
        longitude_e7: 230_000_000,
        categories,
        specializations: None,
        city: Some("Sofia".to_string()),
        logo_map_url: None,
    }
}

#[test]
fn sync_of_parking_element_creates_unregistered_record() {
    let mut store = BusinessRepository::new();
    let elements = vec![element(100, Some(1), Some(2), &[("amenity", "parking")])];
    assert_eq!(store.sync_from_overpass_elements(elements), 1);
    assert_eq!(store.len(), 1);
    let b = store.get_business_by_osm_id(100).unwrap();
    assert!(!b.is_registered);
    assert_eq!(b.categories, vec![BusinessCategory::Parking]);
    assert_eq!(b.osm_id, Some(100));
    assert_eq!((b.latitude_e7, b.longitude_e7), (1, 2));
    assert!(b.created_at <= b.updated_at);
}

#[test]
fn register_into_empty_store_returns_registered_record() {
    let mut store = BusinessRepository::new();
    let b = store
        .sync_user_business(request(U1, "Wash", vec![BusinessCategory::CarWash]))
        .unwrap();
    assert!(b.is_registered);
    assert_eq!(b.id, U1);
    assert_eq!((b.latitude_e7, b.longitude_e7), (420_000_000, 230_000_000));
    assert_eq!(b.osm_id, None);
    assert_eq!(b.specializations, Some(vec![]));
    assert_eq!(b.to_response().categories, vec!["CarWash".to_string()]);
    assert_eq!(store.len(), 1);
}

#[test]
fn elements_without_position_count_zero_and_write_nothing() {
    let mut store = BusinessRepository::new();
    let elements = vec![
        element(1, None, Some(2), &[("amenity", "fuel")]),
        element(2, Some(1), None, &[("amenity", "fuel")]),
        element(3, None, None, &[("amenity", "fuel")]),
    ];
    assert_eq!(store.sync_from_overpass_elements(elements), 0);
    assert_eq!(store.len(), 0);
}

#[test]
fn non_car_elements_are_skipped() {
    let mut store = BusinessRepository::new();
    let elements = vec![
        element(1, Some(1), Some(1), &[("amenity", "bench")]),
        element(2, Some(1), Some(1), &[("shop", "tyres")]),
    ];
    assert_eq!(store.sync_from_overpass_elements(elements), 1);
    assert!(store.get_business_by_osm_id(1).is_none());
    assert!(store.get_business_by_osm_id(2).is_some());
}

#[test]
fn second_sync_updates_unregistered_record() {
    let mut store = BusinessRepository::new();
    let first = vec![element(5, Some(1), Some(1), &[("amenity", "fuel"), ("name", "Old")])];
    assert_eq!(store.sync_from_overpass_elements(first), 1);
    let id = store.get_business_by_osm_id(5).unwrap().id;
    let second = vec![element(5, Some(3), Some(4), &[("shop", "tyres"), ("name", "New")])];
    assert_eq!(store.sync_from_overpass_elements(second), 1);
    assert_eq!(store.len(), 1);
    let b = store.get_business_by_osm_id(5).unwrap();
    assert_eq!(b.id, id);
    assert_eq!(b.name.as_deref(), Some("New"));
    assert_eq!(b.categories, vec![BusinessCategory::TireShop]);
    assert_eq!((b.latitude_e7, b.longitude_e7), (3, 4));
    assert!(!b.is_registered);
}

#[test]
fn registered_record_is_not_touched_by_later_sync() {
    let mut store = BusinessRepository::new();
    let pass = vec![element(8, Some(1), Some(1), &[("amenity", "car_wash"), ("name", "Feed")])];
    assert_eq!(store.sync_from_overpass_elements(pass), 1);
    let synced = store.get_business_by_osm_id(8).unwrap();
    let mut req = request(synced.id, "Claimed", vec![BusinessCategory::CarWash, BusinessCategory::DetailingStudio]);
    req.specializations = Some(vec!["hand wash".to_string()]);
    let registered = store.sync_user_business(req).unwrap();
    assert!(registered.is_registered);
    assert_eq!(registered.osm_id, Some(8));
    let changed = vec![element(8, Some(9), Some(9), &[("amenity", "fuel"), ("name", "Feed again")])];
    assert_eq!(store.sync_from_overpass_elements(changed), 0);
    let after = store.get_business_by_osm_id(8).unwrap();
    assert_eq!(format!("{:?}", after), format!("{:?}", registered));
    assert_eq!(after.name.as_deref(), Some("Claimed"));
}

#[test]
fn second_registration_replaces_first() {
    let mut store = BusinessRepository::new();
    let mut first = request(U1, "First", vec![BusinessCategory::Tuning]);
    first.logo_map_url = Some("logo-1".to_string());
    first.name_en = Some("First EN".to_string());
    store.sync_user_business(first).unwrap();
    let mut second = request(U1, "Second", vec![BusinessCategory::RimsShop, BusinessCategory::Mobile, BusinessCategory::RimsShop]);
    second.latitude_e7 = -5;
    second.address = None;
    let b = store.sync_user_business(second).unwrap();
    assert_eq!(store.len(), 1);
    assert!(b.is_registered);
    assert_eq!(b.name.as_deref(), Some("Second"));
    assert_eq!(b.name_en, None);
    assert_eq!(b.address, None);
    assert_eq!(b.logo_map_url, None);
    assert_eq!(b.latitude_e7, -5);
    assert_eq!(b.categories, vec![BusinessCategory::Mobile, BusinessCategory::RimsShop]);
    let stored = store.get_business_by_id(U1).unwrap();
    assert_eq!(format!("{:?}", stored), format!("{:?}", b));
}

#[test]
fn register_at_keeps_creation_time_and_orders_update() {
    let mut store = BusinessRepository::new();
    store.sync_user_business_at(&request(U1, "A", vec![]), 1_000).unwrap();
    let b = store.sync_user_business_at(&request(U1, "B", vec![]), 500).unwrap();
    assert_eq!(b.created_at, 1_000);
    assert_eq!(b.updated_at, 1_000);
    let c = store.sync_user_business_at(&request(U1, "C", vec![]), 2_000).unwrap();
    assert_eq!((c.created_at, c.updated_at), (1_000, 2_000));
}

fn insert(osm_id: i64, categories: Vec<BusinessCategory>) -> BusinessInsert {
    BusinessInsert {
        osm_id,
        name: Some("N".to_string()),
        name_en: None,
        address: None,
        latitude_e7: 0,
        longitude_e7: 0,
        categories,
        city: None,
    }
}

#[test]
fn upsert_reports_each_outcome() {
    let mut store = BusinessRepository::new();
    let c = insert(40, vec![BusinessCategory::Parking]);
    assert_eq!(store.upsert_business(&c, 11, 100), Ok(UpsertOutcome::Inserted(11)));
    assert_eq!(store.upsert_business(&c, 12, 200), Ok(UpsertOutcome::Updated(11)));
    assert_eq!(store.get_business_by_id(11).unwrap().updated_at, 200);
    assert_eq!(store.upsert_business(&insert(41, vec![]), 11, 300), Err(StoreError::DuplicateId));
    assert_eq!(store.len(), 1);
    store.sync_user_business_at(&request(11, "Mine", vec![]), 400).unwrap();
    assert_eq!(store.upsert_business(&c, 13, 500), Ok(UpsertOutcome::Unchanged(11)));
    assert_eq!(store.get_business_by_id(11).unwrap().name.as_deref(), Some("Mine"));
}

#[test]
fn only_unregistered_records_can_be_deleted() {
    let mut store = BusinessRepository::new();
    store.upsert_business(&insert(1, vec![]), 21, 0).unwrap();
    store.sync_user_business_at(&request(22, "Kept", vec![]), 0).unwrap();
    assert!(!store.delete_business(22));
    assert!(!store.delete_business(99));
    assert!(store.delete_business(21));
    assert_eq!(store.len(), 1);
    assert!(store.get_business_by_id(21).is_none());
    assert!(store.get_business_by_id(22).is_some());
}

#[test]
fn batch_counts_each_write() {
    let mut store = BusinessRepository::new();
    let elements = vec![
        element(1, Some(1), Some(1), &[("amenity", "fuel")]),
        element(2, None, Some(1), &[("amenity", "fuel")]),
        element(1, Some(2), Some(2), &[("amenity", "fuel")]),
        element(3, Some(1), Some(1), &[("name", "Nothing")]),
        element(4, Some(1), Some(1), &[("craft", "car_repair")]),
    ];
    assert_eq!(store.sync_from_overpass_elements(elements), 3);
    assert_eq!(store.len(), 2);
}

#[test]
fn update_time_never_goes_back() {
    let mut store = BusinessRepository::new();
    let c = insert(60, vec![BusinessCategory::Parking]);
    store.upsert_business(&c, 31, 100).unwrap();
    store.upsert_business(&c, 32, 300).unwrap();
    assert_eq!(store.upsert_business(&c, 33, 200), Ok(UpsertOutcome::Updated(31)));
    let b = store.get_business_by_id(31).unwrap();
    assert_eq!((b.created_at, b.updated_at), (100, 300));
    let r = store.sync_user_business_at(&request(31, "Mine", vec![]), 250).unwrap();
    assert_eq!((r.created_at, r.updated_at), (100, 300));
}

#[test]
fn sync_with_given_ids_uses_them_in_order() {
    let mut store = BusinessRepository::new();
    let elements = vec![
        element(1, Some(1), Some(1), &[("amenity", "fuel")]),
        element(2, None, Some(1), &[("amenity", "fuel")]),
        element(3, Some(1), Some(1), &[("shop", "car")]),
        element(4, Some(1), Some(1), &[("shop", "car")]),
    ];
    let ids = vec![500, 501, 502, 500];
    let times = vec![10, 20, 30, 40];
    assert_eq!(store.sync_elements_with(elements, &ids, &times), 2);
    assert_eq!(store.len(), 2);
    assert_eq!(store.get_business_by_id(500).unwrap().osm_id, Some(1));
    assert_eq!(store.get_business_by_id(502).unwrap().created_at, 30);
    assert!(store.get_business_by_osm_id(4).is_none());
}

#[test]
fn only_writes_count() {
    assert!(wrote_record(&Ok(UpsertOutcome::Inserted(1))));
    assert!(wrote_record(&Ok(UpsertOutcome::Updated(1))));
    assert!(!wrote_record(&Ok(UpsertOutcome::Unchanged(1))));
    assert!(!wrote_record(&Err(StoreError::DuplicateId)));
}
