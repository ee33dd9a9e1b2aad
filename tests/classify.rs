use vroomgine::category::{names_car_wash, BusinessCategory};
use vroomgine::tags::Tags;

fn tags_of(pairs: &[(&str, &str)]) -> Tags {
    let mut tags = Tags::new();
    for (k, v) in pairs {
        tags.insert(k.to_string(), v.to_string());
    }
    tags
}

#[test]
fn fuel_amenity_is_gas_station() {
    let tags = tags_of(&[("amenity", "fuel")]);
    assert_eq!(BusinessCategory::from_osm_tags(&tags), vec![BusinessCategory::GasStation]);
}

#[test]
fn tyres_and_car_repair_are_sorted() {
    let tags = tags_of(&[("shop", "tyres"), ("craft", "car_repair")]);
    assert_eq!(
        BusinessCategory::from_osm_tags(&tags),
        vec![BusinessCategory::CarRepair, BusinessCategory::TireShop]
    );
}

#[test]
fn name_without_phrase_yields_nothing() {
    let tags = tags_of(&[("name", "Quick AutoWash")]);
    assert!(BusinessCategory::from_osm_tags(&tags).is_empty());
    assert!(!BusinessCategory::is_car_related_osm_element(&tags));
}

#[test]
fn unknown_values_are_not_car_related() {
    let tags = tags_of(&[
        ("amenity", "bench"),
        ("shop", "bakery"),
        ("craft", "carpenter"),
        ("service", "laundry"),
        ("automotive", "museum"),
        ("name", "Corner Bakery"),
    ]);
    assert!(BusinessCategory::from_osm_tags(&tags).is_empty());
    assert!(!BusinessCategory::is_car_related_osm_element(&tags));
}

#[test]
fn empty_tags_are_not_car_related() {
    let tags = Tags::new();
    assert!(BusinessCategory::from_osm_tags(&tags).is_empty());
    assert!(!BusinessCategory::is_car_related_osm_element(&tags));
}

#[test]
fn insertion_order_does_not_matter() {
    let a = tags_of(&[("automotive", "fuel"), ("shop", "wheels"), ("amenity", "parking")]);
    let b = tags_of(&[("amenity", "parking"), ("automotive", "fuel"), ("shop", "wheels")]);
    let ra = BusinessCategory::from_osm_tags(&a);
    let rb = BusinessCategory::from_osm_tags(&b);
    assert_eq!(ra, rb);
    assert_eq!(
        ra,
        vec![BusinessCategory::Parking, BusinessCategory::GasStation, BusinessCategory::RimsShop]
    );
    assert_eq!(BusinessCategory::from_osm_tags(&a), ra);
}

#[test]
fn later_value_replaces_earlier() {
    let tags = tags_of(&[("amenity", "bench"), ("amenity", "charging_station")]);
    assert_eq!(
        BusinessCategory::from_osm_tags(&tags),
        vec![BusinessCategory::ElectricVehicleChargingStation]
    );
    assert_eq!(tags.get("amenity").map(|s| s.as_str()), Some("charging_station"));
}

#[test]
fn car_wash_found_by_name_case_insensitively() {
    let tags = tags_of(&[("name", "Sunny CAR WASH Center")]);
    assert_eq!(BusinessCategory::from_osm_tags(&tags), vec![BusinessCategory::CarWash]);
}

#[test]
fn car_wash_found_by_localized_name() {
    let tags = tags_of(&[("name", "Автомивка Слънце")]);
    assert_eq!(BusinessCategory::from_osm_tags(&tags), vec![BusinessCategory::CarWash]);
}

#[test]
fn car_wash_found_by_key() {
    let tags = tags_of(&[("car_wash", "yes")]);
    assert_eq!(BusinessCategory::from_osm_tags(&tags), vec![BusinessCategory::CarWash]);
}

#[test]
fn car_wash_from_several_sources_appears_once() {
    let tags = tags_of(&[
        ("amenity", "car_wash"),
        ("service", "car_wash"),
        ("automotive", "car_wash"),
        ("name", "Car Wash"),
    ]);
    assert_eq!(BusinessCategory::from_osm_tags(&tags), vec![BusinessCategory::CarWash]);
}

#[test]
fn every_table_entry_maps() {
    let cases: Vec<(&str, &str, BusinessCategory)> = vec![
        ("amenity", "fuel", BusinessCategory::GasStation),
        ("amenity", "charging_station", BusinessCategory::ElectricVehicleChargingStation),
        ("amenity", "car_wash", BusinessCategory::CarWash),
        ("amenity", "car_rental", BusinessCategory::CarRental),
        ("amenity", "parking", BusinessCategory::Parking),
        ("amenity", "parking_space", BusinessCategory::Parking),
        ("shop", "car_repair", BusinessCategory::CarRepair),
        ("shop", "car_parts", BusinessCategory::CarRepair),
        ("shop", "car", BusinessCategory::CarDealer),
        ("shop", "tyres", BusinessCategory::TireShop),
        ("shop", "wheels", BusinessCategory::RimsShop),
        ("craft", "car_repair", BusinessCategory::CarRepair),
        ("craft", "automotive", BusinessCategory::CarRepair),
        ("service", "vehicle_inspection", BusinessCategory::CarInspectionStation),
        ("service", "car_wash", BusinessCategory::CarWash),
        ("automotive", "car_wash", BusinessCategory::CarWash),
        ("automotive", "car_repair", BusinessCategory::CarRepair),
        ("automotive", "fuel", BusinessCategory::GasStation),
    ];
    for (k, v, c) in cases {
        let tags = tags_of(&[(k, v)]);
        assert_eq!(BusinessCategory::from_osm_tags(&tags), vec![c], "{}={}", k, v);
        assert!(BusinessCategory::is_car_related_osm_element(&tags));
    }
}

#[test]
fn value_under_wrong_key_is_ignored() {
    let tags = tags_of(&[("craft", "tyres"), ("service", "fuel")]);
    assert!(BusinessCategory::from_osm_tags(&tags).is_empty());
}

#[test]
fn all_keys_contribute() {
    let tags = tags_of(&[
        ("amenity", "car_rental"),
        ("shop", "car"),
        ("craft", "automotive"),
        ("service", "vehicle_inspection"),
        ("automotive", "fuel"),
        ("name", "Mega car wash"),
    ]);
    assert_eq!(
        BusinessCategory::from_osm_tags(&tags),
        vec![
            BusinessCategory::CarWash,
            BusinessCategory::CarRepair,
            BusinessCategory::GasStation,
            BusinessCategory::CarDealer,
            BusinessCategory::CarRental,
            BusinessCategory::CarInspectionStation,
        ]
    );
}

#[test]
fn display_names() {
    assert_eq!(BusinessCategory::CarWash.display_name(), "CarWash");
    assert_eq!(
        BusinessCategory::ElectricVehicleChargingStation.display_name(),
        "ElectricVehicleChargingStation"
    );
    assert_eq!(BusinessCategory::CarInspectionStation.display_name(), "CarInspectionStation");
    assert_eq!(BusinessCategory::Tuning.display_name(), "Tuning");
}

#[test]
fn canonical_categories_sorts_and_dedups() {
    let found = vec![
        BusinessCategory::TireShop,
        BusinessCategory::CarWash,
        BusinessCategory::TireShop,
        BusinessCategory::Mobile,
    ];
    assert_eq!(
        vroomgine::category::canonical_categories(&found),
        vec![BusinessCategory::CarWash, BusinessCategory::Mobile, BusinessCategory::TireShop]
    );
}

#[test]
fn car_wash_phrase_needs_lowercase_input() {
    assert!(names_car_wash("joe's car wash"));
    assert!(names_car_wash("автомивка"));
    assert!(!names_car_wash("Car Wash"));
    assert!(!names_car_wash("carwash"));
}
