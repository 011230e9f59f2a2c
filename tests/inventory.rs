use vehicle_inventory::column::{distinct_query, parse_column, Column};
use vehicle_inventory::error::VehicleError;
use vehicle_inventory::levenshtein::levenshtein;
use vehicle_inventory::qr_builder::{create_qr_for_id, qr_directory, qr_for_existing, qr_path_for, qr_url_for};
use vehicle_inventory::repository::{find_by_id, require_exists, single_record};
use vehicle_inventory::search::{distinct_values, fuzzy_search};
use vehicle_inventory::store::VehicleStore;
use vehicle_inventory::text::{chars_of, decimal, same_text};
use vehicle_inventory::vehicle::Vehicle;

fn vehicle(vehicle_type: &str, manufacturer: &str, model: &str, price: &str, data: &str) -> Vehicle {
    Vehicle::new(
        vehicle_type.to_string(),
        manufacturer.to_string(),
        model.to_string(),
        price.to_string(),
        data.to_string(),
    )
}

fn stored(id: i32, model: &str) -> Vehicle {
    vehicle("car", "Acme", model, "1", "{}").with_id(Some(id))
}

#[test]
fn create_update_delete_scenario() {
    let mut store = VehicleStore::new();
    let list = store
        .add_vehicle(&vehicle("car", "Acme", "Zephyr", "1000", "{}"))
        .unwrap();
    assert_eq!(list.len(), 1);
    let id = list[0].id.unwrap();
    assert!(id > 0);
    assert_eq!(list[0].vehicle_type, "car");
    assert_eq!(list[0].manufacturer, "Acme");
    assert_eq!(list[0].model, "Zephyr");
    assert_eq!(list[0].price, "1000");
    assert_eq!(list[0].data, "{}");

    let list = store.update_vehicle(id, &vehicle("car", "Acme", "Zephyr II", "1000", "{}"));
    assert_eq!(list.len(), 1);
    let found = store.get_vehicle_info(id).unwrap();
    assert_eq!(found.model, "Zephyr II");
    assert_eq!(found.id, Some(id));

    store.delete_vehicle(id);
    assert!(matches!(store.get_vehicle_info(id), Err(VehicleError::NotFound)));
}

#[test]
fn create_then_list_has_one_new_record() {
    let mut store = VehicleStore::new();
    store.add_vehicle(&vehicle("car", "Acme", "A", "1", "x")).unwrap();
    store.add_vehicle(&vehicle("truck", "Bolt", "B", "2", "y")).unwrap();
    let before = store.get_vehicles();
    let after = store
        .add_vehicle(&vehicle("bike", "Cog", "C", "3", "z").with_id(Some(1)))
        .unwrap();
    assert_eq!(after.len(), before.len() + 1);
    let fresh: Vec<&Vehicle> = after
        .iter()
        .filter(|v| !before.iter().any(|b| b.id == v.id))
        .collect();
    assert_eq!(fresh.len(), 1);
    assert_eq!(fresh[0].model, "C");
    assert_eq!(fresh[0].vehicle_type, "bike");
    assert_eq!(fresh[0].id, Some(3));
    let mut ids: Vec<i32> = after.iter().map(|v| v.id.unwrap()).collect();
    ids.sort();
    ids.dedup();
    assert_eq!(ids.len(), after.len());
}

#[test]
fn insert_returns_increasing_ids() {
    let mut store = VehicleStore::new();
    assert_eq!(store.insert(&vehicle("a", "b", "c", "d", "e")).unwrap(), 1);
    assert_eq!(store.insert(&vehicle("a", "b", "c", "d", "e")).unwrap(), 2);
    assert_eq!(store.delete(1), 1);
    assert_eq!(store.insert(&vehicle("a", "b", "c", "d", "e")).unwrap(), 3);
}

#[test]
fn lookup_of_absent_id_is_not_found() {
    let mut store = VehicleStore::new();
    assert!(matches!(store.get_vehicle_info(1), Err(VehicleError::NotFound)));
    store.add_vehicle(&vehicle("car", "Acme", "Zephyr", "1000", "{}")).unwrap();
    assert!(matches!(store.get_vehicle_info(2), Err(VehicleError::NotFound)));
    assert!(matches!(store.get_vehicle_info(-7), Err(VehicleError::NotFound)));
    assert!(store.get_vehicle_info(1).is_ok());
}

#[test]
fn duplicate_ids_are_an_integrity_fault() {
    let rows = vec![stored(4, "Civic"), stored(5, "Accord"), stored(4, "Civic Type R")];
    assert!(matches!(find_by_id(&rows, 4), Err(VehicleError::DataIntegrityFault)));
    assert_eq!(find_by_id(&rows, 5).unwrap().model, "Accord");
    assert!(matches!(find_by_id(&rows, 6), Err(VehicleError::NotFound)));
}

#[test]
fn single_record_decides_by_count() {
    assert!(matches!(single_record(vec![]), Err(VehicleError::NotFound)));
    assert_eq!(single_record(vec![stored(1, "Civic")]).unwrap().model, "Civic");
    assert!(matches!(
        single_record(vec![stored(1, "Civic"), stored(1, "Civic")]),
        Err(VehicleError::DataIntegrityFault)
    ));
}

#[test]
fn distinct_values_whitelist() {
    let mut store = VehicleStore::new();
    store.add_vehicle(&vehicle("car", "Acme", "Zephyr", "1000", "{}")).unwrap();
    store.add_vehicle(&vehicle("truck", "Acme", "Hauler", "2000", "{}")).unwrap();
    store.add_vehicle(&vehicle("car", "Bolt", "Spark", "900", "{}")).unwrap();
    let types = store.search_unique_cols_vehicles("vehicle_type").unwrap();
    assert_eq!(types, vec!["car".to_string(), "truck".to_string()]);
    let makers = store.search_unique_cols_vehicles("manufacturer").unwrap();
    assert_eq!(makers, vec!["Acme".to_string(), "Bolt".to_string()]);
    assert!(matches!(
        store.search_unique_cols_vehicles("sql_injection; drop table x"),
        Err(VehicleError::InvalidColumn)
    ));
    assert!(matches!(store.search_unique_cols_vehicles("id"), Err(VehicleError::InvalidColumn)));
}

#[test]
fn distinct_query_is_built_only_for_whitelisted_columns() {
    assert_eq!(distinct_query("vehicle_type").unwrap(), "SELECT DISTINCT vehicle_type FROM vehicles");
    assert_eq!(distinct_query("data").unwrap(), "SELECT DISTINCT data FROM vehicles");
    assert!(matches!(
        distinct_query("sql_injection; drop table x"),
        Err(VehicleError::InvalidColumn)
    ));
    assert!(matches!(distinct_query("Model"), Err(VehicleError::InvalidColumn)));
    assert!(matches!(distinct_query(""), Err(VehicleError::InvalidColumn)));
}

#[test]
fn parse_column_accepts_each_whitelisted_name() {
    assert_eq!(parse_column("vehicle_type").unwrap(), Column::VehicleType);
    assert_eq!(parse_column("manufacturer").unwrap(), Column::Manufacturer);
    assert_eq!(parse_column("model").unwrap(), Column::Model);
    assert_eq!(parse_column("price").unwrap(), Column::Price);
    assert_eq!(parse_column("data").unwrap(), Column::Data);
    assert_eq!(Column::Price.as_str(), "price");
    assert!(parse_column("model ").is_err());
}

#[test]
fn distinct_values_over_records() {
    let rows = vec![stored(1, "Civic"), stored(2, "Civic"), stored(3, "Accord")];
    assert_eq!(
        distinct_values(&rows, Column::Model),
        vec!["Civic".to_string(), "Accord".to_string()]
    );
    assert_eq!(distinct_values(&rows, Column::Manufacturer), vec!["Acme".to_string()]);
    assert!(distinct_values(&vec![], Column::Data).is_empty());
}

#[test]
fn fuzzy_search_ranks_closest() {
    let mut store = VehicleStore::new();
    for model in ["Civic", "Accord", "Civic Type R"] {
        store.add_vehicle(&vehicle("car", "Honda", model, "1", "{}")).unwrap();
    }
    let found = store.fuzzy_search_vehicles("Civc");
    assert_eq!(found.len(), 3);
    let accord = found.iter().position(|v| v.model == "Accord").unwrap();
    let civic = found.iter().position(|v| v.model == "Civic").unwrap();
    assert!(civic < accord);
    assert_eq!(found[0].model, "Civic");
}

#[test]
fn fuzzy_search_returns_at_most_ten_closest() {
    let mut store = VehicleStore::new();
    let models = [
        "aaaa", "aaab", "aabb", "abbb", "bbbb", "aaa", "aa", "a", "", "aaaaa", "zzzzzzzz", "aaaz",
    ];
    for model in models {
        store.add_vehicle(&vehicle("car", "Acme", model, "1", "{}")).unwrap();
    }
    let query = "aaaa";
    let found = store.fuzzy_search_vehicles(query);
    assert_eq!(found.len(), 10);
    let worst = found.iter().map(|v| levenshtein(&v.model, query)).max().unwrap();
    for model in models {
        if !found.iter().any(|v| v.model == model) {
            assert!(levenshtein(model, query) >= worst);
        }
    }
    for pair in found.windows(2) {
        assert!(levenshtein(&pair[0].model, query) <= levenshtein(&pair[1].model, query));
    }
    assert!(!found.iter().any(|v| v.model == "zzzzzzzz"));
}

#[test]
fn fuzzy_search_with_small_limit() {
    let rows = vec![stored(1, "Accord"), stored(2, "Civic"), stored(3, "Civic Type R")];
    let found = fuzzy_search(&rows, "Civic", 1);
    assert_eq!(found.len(), 1);
    assert_eq!(found[0].id, Some(2));
    assert!(fuzzy_search(&rows, "Civic", 0).is_empty());
    assert!(fuzzy_search(&vec![], "Civic", 10).is_empty());
}

#[test]
fn levenshtein_values() {
    assert_eq!(levenshtein("kitten", "sitting"), 3);
    assert_eq!(levenshtein("", "abc"), 3);
    assert_eq!(levenshtein("abc", ""), 3);
    assert_eq!(levenshtein("", ""), 0);
    assert_eq!(levenshtein("Civc", "Civic"), 1);
    assert_eq!(levenshtein("Civc", "Accord"), 6);
    assert_eq!(levenshtein("flaw", "lawn"), 2);
    assert_eq!(levenshtein("über", "uber"), 1);
}

#[test]
fn text_helpers() {
    assert_eq!(chars_of("añb"), vec!['a', 'ñ', 'b']);
    assert!(same_text("model", "model"));
    assert!(!same_text("model", "modal"));
    assert!(!same_text("model", "models"));
}

#[test]
fn artifact_for_missing_record_is_not_found() {
    let mut store = VehicleStore::new();
    assert!(matches!(store.generate_qr_vehicle(1), Err(VehicleError::NotFound)));
    store.add_vehicle(&vehicle("car", "Acme", "Zephyr", "1000", "{}")).unwrap();
    assert!(matches!(store.generate_qr_vehicle(2), Err(VehicleError::NotFound)));
}

#[test]
fn artifact_for_stored_record() {
    let mut store = VehicleStore::new();
    store.add_vehicle(&vehicle("car", "Acme", "Zephyr", "1000", "{}")).unwrap();
    let first = store.generate_qr_vehicle(1).unwrap();
    assert_eq!(first.path, "./results/qr_codes/id_1.png");
    assert_eq!(first.payload, "local.cymn.com:8080/1");
    assert!(first.width > 0 && first.height > 0);
    assert_eq!(first.pixels.len(), (first.width * first.height) as usize);
    assert!(first.pixels.iter().any(|p| *p == 0));
    assert!(first.pixels.iter().any(|p| *p == 255));
    let second = store.generate_qr_vehicle(1).unwrap();
    assert_eq!(second.path, first.path);
    assert_eq!(second.payload, first.payload);
    assert_eq!(second.pixels, first.pixels);
}

#[test]
fn artifact_links_and_paths() {
    assert_eq!(qr_url_for(42), "local.cymn.com:8080/42");
    assert_eq!(qr_url_for(-5), "local.cymn.com:8080/-5");
    assert_eq!(qr_path_for(0), "./results/qr_codes/id_0.png");
    assert_eq!(qr_path_for(2147483647), "./results/qr_codes/id_2147483647.png");
    assert_eq!(qr_directory(), "./results/qr_codes");
    let a = create_qr_for_id(7).unwrap();
    let b = create_qr_for_id(8).unwrap();
    assert_ne!(a.path, b.path);
    assert_ne!(a.payload, b.payload);
}

#[test]
fn existence_check_from_rows() {
    assert!(require_exists(&vec![true]).is_ok());
    assert!(matches!(require_exists(&vec![false]), Err(VehicleError::NotFound)));
    assert!(matches!(require_exists(&vec![]), Err(VehicleError::NotFound)));
}

#[test]
fn update_of_absent_id_changes_nothing() {
    let mut store = VehicleStore::new();
    store.add_vehicle(&vehicle("car", "Acme", "Zephyr", "1000", "{}")).unwrap();
    assert_eq!(store.update(9, &vehicle("van", "X", "Y", "0", "")), 0);
    let list = store.update_vehicle(9, &vehicle("van", "X", "Y", "0", ""));
    assert_eq!(list.len(), 1);
    assert_eq!(list[0].model, "Zephyr");
    assert_eq!(store.delete(9), 0);
    assert_eq!(store.get_vehicles().len(), 1);
}

#[test]
fn artifact_only_after_existence_check() {
    assert!(matches!(qr_for_existing(&vec![false], 3), Err(VehicleError::NotFound)));
    assert!(matches!(qr_for_existing(&vec![], 3), Err(VehicleError::NotFound)));
    let a = qr_for_existing(&vec![true], 3).unwrap();
    assert_eq!(a.path, "./results/qr_codes/id_3.png");
    assert_eq!(a.payload, "local.cymn.com:8080/3");
    assert_eq!(a.pixels, create_qr_for_id(3).unwrap().pixels);
}

#[test]
fn artifact_images_differ_by_link() {
    let a = create_qr_for_id(7).unwrap();
    let b = create_qr_for_id(8).unwrap();
    assert_eq!(a.width, a.height);
    assert_eq!(a.pixels.len(), (a.width * a.height) as usize);
    assert_ne!(a.pixels, b.pixels);
    let extreme = create_qr_for_id(i32::MIN).unwrap();
    assert_eq!(extreme.payload, "local.cymn.com:8080/-2147483648");
    assert_eq!(extreme.path, "./results/qr_codes/id_-2147483648.png");
}

#[test]
fn decimal_text_of_integers() {
    assert_eq!(decimal(0), "0");
    assert_eq!(decimal(9), "9");
    assert_eq!(decimal(10), "10");
    assert_eq!(decimal(1234), "1234");
    assert_eq!(decimal(-7), "-7");
    assert_eq!(decimal(i32::MAX), "2147483647");
    assert_eq!(decimal(i32::MIN), "-2147483648");
}
