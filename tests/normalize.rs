use vroomgine::api::{SyncRequest, SyncResponse};
use vroomgine::business::{Business, BusinessInsert};
use vroomgine::category::BusinessCategory;
use vroomgine::overpass::{OverpassElement, OverpassQuery};
use vroomgine::tags::Tags;

fn tags_of(pairs: &[(&str, &str)]) -> Tags {
    let mut tags = Tags::new();
    for (k, v) in pairs {
        tags.insert(k.to_string(), v.to_string());
    }
    tags
}

#[test]
fn full_address_is_joined_in_order() {
    let tags = tags_of(&[
        ("amenity", "fuel"),
        ("name", "Shell"),
        ("name:en", "Shell Station"),
        ("addr:country", "BG"),
        ("addr:postcode", "1000"),
        ("addr:housenumber", "12"),
        ("addr:street", "Vitosha"),
        ("addr:city", "Sofia"),
    ]);
    let b = BusinessInsert::from_osm_element(77, 426_977_000, 233_219_000, &tags);
    assert_eq!(b.osm_id, 77);
    assert_eq!(b.name.as_deref(), Some("Shell"));
    assert_eq!(b.name_en.as_deref(), Some("Shell Station"));
    assert_eq!(b.address.as_deref(), Some("Vitosha 12, Sofia, 1000, BG"));
    assert_eq!(b.city.as_deref(), Some("Sofia"));
    assert_eq!(b.latitude_e7, 426_977_000);
    assert_eq!(b.longitude_e7, 233_219_000);
    assert_eq!(b.categories, vec![BusinessCategory::GasStation]);
}

#[test]
fn street_without_number_stands_alone() {
    let tags = tags_of(&[("addr:street", "Tsarigradsko"), ("addr:postcode", "1784")]);
    let b = BusinessInsert::from_osm_element(1, 0, 0, &tags);
    assert_eq!(b.address.as_deref(), Some("Tsarigradsko, 1784"));
}

#[test]
fn number_without_street_is_dropped() {
    let tags = tags_of(&[("addr:housenumber", "5"), ("addr:country", "BG")]);
    let b = BusinessInsert::from_osm_element(1, 0, 0, &tags);
    assert_eq!(b.address.as_deref(), Some("BG"));
}

#[test]
fn no_address_components_means_no_address() {
    let tags = tags_of(&[("amenity", "parking"), ("city", "Plovdiv")]);
    let b = BusinessInsert::from_osm_element(1, 0, 0, &tags);
    assert_eq!(b.address, None);
    assert_eq!(b.city.as_deref(), Some("Plovdiv"));
    assert_eq!(b.name, None);
    assert_eq!(b.name_en, None);
}

#[test]
fn addr_city_wins_over_city() {
    let tags = tags_of(&[("city", "Plovdiv"), ("addr:city", "Varna")]);
    let b = BusinessInsert::from_osm_element(1, 0, 0, &tags);
    assert_eq!(b.city.as_deref(), Some("Varna"));
    assert_eq!(b.address.as_deref(), Some("Varna"));
}

#[test]
fn element_without_latitude_yields_no_candidate() {
    let e = OverpassElement {
        element_type: "node".to_string(),
        id: 5,
        lat_e7: None,
        lon_e7: Some(10),
        tags: Some(tags_of(&[("amenity", "fuel")])),
    };
    assert!(e.to_candidate().is_none());
}

#[test]
fn element_without_tags_yields_no_candidate() {
    let e = OverpassElement {
        element_type: "node".to_string(),
        id: 5,
        lat_e7: Some(1),
        lon_e7: Some(10),
        tags: None,
    };
    assert!(e.to_candidate().is_none());
}

#[test]
fn element_with_position_and_car_tags_yields_candidate() {
    let e = OverpassElement {
        element_type: "node".to_string(),
        id: 9,
        lat_e7: Some(420_000_000),
        lon_e7: Some(230_000_000),
        tags: Some(tags_of(&[("shop", "car"), ("name", "Auto Plaza")])),
    };
    let c = e.to_candidate().unwrap();
    assert_eq!(c.osm_id, 9);
    assert_eq!(c.latitude_e7, 420_000_000);
    assert_eq!(c.longitude_e7, 230_000_000);
    assert_eq!(c.categories, vec![BusinessCategory::CarDealer]);
    assert_eq!(c.name.as_deref(), Some("Auto Plaza"));
}

#[test]
fn car_query_names_country_and_timeout() {
    let q = OverpassQuery::car_related_businesses("RO");
    assert_eq!(q.timeout, 50);
    assert!(q.query.starts_with("[out:json][timeout:50];\narea[\"ISO3166-1\"=\"RO\"][admin_level=2]"));
    assert!(q.query.contains("node[\"service\"=\"vehicle_inspection\"](area.searchArea);"));
    assert!(q.query.ends_with("out skel qt;"));
}

#[test]
fn custom_query_keeps_text_and_timeout() {
    let q = OverpassQuery::custom("[out:json];node(1);out;".to_string(), 7);
    assert_eq!(q.query, "[out:json];node(1);out;");
    assert_eq!(q.timeout, 7);
}

#[test]
fn form_body_percent_encodes_query() {
    let q = OverpassQuery::custom("a b=\"c\"~ж".to_string(), 1);
    assert_eq!(q.form_body(), "data=a%20b%3D%22c%22~%D0%B6");
}

#[test]
fn sync_request_defaults_to_bulgaria() {
    assert_eq!(SyncRequest { country_code: None }.country_code_or_default(), "BG");
    assert_eq!(
        SyncRequest { country_code: Some("GR".to_string()) }.country_code_or_default(),
        "GR"
    );
}

#[test]
fn sync_response_reports_count() {
    let r = SyncResponse::new(42);
    assert_eq!(r.businesses_synced, 42);
    assert_eq!(r.message, "Successfully synced 42 businesses");
    assert_eq!(SyncResponse::new(0).message, "Successfully synced 0 businesses");
}

fn sample_business() -> Business {
    Business {
        id: 7,
        osm_id: Some(3),
        name: Some("Shiny Wheels".to_string()),
        name_en: None,
        address: Some("Main St 1, Sofia".to_string()),
        latitude_e7: 1,
        longitude_e7: 2,
        categories: vec![BusinessCategory::CarWash, BusinessCategory::DetailingStudio],
        specializations: Some(vec!["ceramic".to_string()]),
        created_at: 10,
        updated_at: 20,
        logo_map_url: Some("https://logo".to_string()),
        is_registered: true,
        city: Some("Sofia".to_string()),
        average_reviews_x100: 450,
        review_count: 12,
    }
}

#[test]
fn response_nests_blocks_and_names_categories() {
    let r = sample_business().to_response();
    assert_eq!(r.id, 7);
    assert_eq!(r.name.as_deref(), Some("Shiny Wheels"));
    assert_eq!(r.location.address.as_deref(), Some("Main St 1, Sofia"));
    assert_eq!(r.location.city.as_deref(), Some("Sofia"));
    assert_eq!((r.location.latitude_e7, r.location.longitude_e7), (1, 2));
    assert_eq!(r.categories, vec!["CarWash".to_string(), "DetailingStudio".to_string()]);
    assert_eq!(r.specializations, Some(vec!["ceramic".to_string()]));
    assert_eq!(r.media.map_logo.as_deref(), Some("https://logo"));
    assert!(r.is_registered);
    assert_eq!(r.rating.average_reviews_x100, 450);
    assert_eq!(r.rating.num_reviews, 12);
}

#[test]
fn search_term_matches_name_address_or_category() {
    let b = sample_business();
    assert!(b.matches_search_term("shiny"));
    assert!(b.matches_search_term("MAIN ST"));
    assert!(b.matches_search_term("detailing"));
    assert!(!b.matches_search_term("tyres"));
}

#[test]
fn duplicate_keeps_every_field() {
    let b = sample_business();
    let c = b.duplicate();
    assert_eq!(format!("{:?}", b), format!("{:?}", c));
}
