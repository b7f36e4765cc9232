use ava_apartment_finder::api::ApartmentData;
use ava_apartment_finder::api::ApiApartment;
use ava_apartment_finder::api::AvaDate;
use ava_apartment_finder::api::FloorPlan;
use ava_apartment_finder::api::Furnished;
use ava_apartment_finder::api::LowestRent;
use ava_apartment_finder::api::Price;
use ava_apartment_finder::api::Rent;
use ava_apartment_finder::reconcile::App;

fn snapshot_unit(id: &str, bedroom: usize, price: u64) -> ApiApartment {
    ApiApartment {
        unit_id: id.to_string(),
        number: id.to_string(),
        furnished: Furnished::Unfurnished,
        floor_plan: FloorPlan {
            name: "plan".to_string(),
            low_resolution: "low".to_string(),
            high_resolution: "high".to_string(),
        },
        virtual_tour: None,
        bedroom,
        bathroom: 2,
        square_feet: 900,
        available_date: AvaDate { year: 2022, month: 10, day: 21, hour: 4, minute: 0, second: 0 },
        rent: Rent { applied_discount: 0, prices_per_movein_date: vec![] },
        lowest_rent: LowestRent {
            date: AvaDate { year: 2022, month: 10, day: 21, hour: 4, minute: 0, second: 0 },
            term_length: "8".to_string(),
            price: Price { price, net_effective_price: price },
        },
        promotions: vec![],
        extra: vec![],
    }
}

fn snapshot(units: Vec<ApiApartment>, listed: u64) -> ApartmentData {
    ApartmentData::from_units(&units, listed)
}

#[test]
fn test_scenario_added_changed_then_removed() {
    // Prior store {A: bed=2 price=4260}.
    let mut app = App::default();
    let first = app.compute_diff(&snapshot(vec![snapshot_unit("A", 2, 4260)], 100), 100);
    assert_eq!(first.added.len(), 1);
    assert!(first.removed.is_empty() && first.changed.is_empty());

    // New snapshot [A: price=4300, B: price=3900].
    let diff = app.compute_diff(
        &snapshot(vec![snapshot_unit("A", 2, 4300), snapshot_unit("B", 2, 3900)], 200),
        200,
    );
    assert_eq!(diff.added.len(), 1);
    assert_eq!(diff.added[0].unit_id, "B");
    assert_eq!(diff.changed.len(), 1);
    assert_eq!(diff.changed[0].old.lowest_rent.price.price, 4260);
    assert_eq!(diff.changed[0].new.lowest_rent.price.price, 4300);
    assert!(diff.removed.is_empty());
    // A keeps its first-seen time; B is stamped with this tick's time.
    assert_eq!(app.known_apartments[0].listed, 100);
    assert_eq!(app.known_apartments[1].listed, 200);

    // Next tick with snapshot [B] only: A is unlisted.
    let diff = app.compute_diff(&snapshot(vec![snapshot_unit("B", 2, 3900)], 300), 300);
    assert!(diff.added.is_empty());
    assert!(diff.changed.is_empty());
    assert_eq!(diff.removed.len(), 1);
    assert_eq!(diff.removed[0].inner.unit_id, "A");
    assert_eq!(diff.removed[0].unlisted, Some(300));
    assert_eq!(diff.removed[0].listed, 100);
}

#[test]
fn test_unlisted_accounting() {
    // X active with first_seen = 50, then absent at time 75.
    let mut app = App::default();
    app.compute_diff(&snapshot(vec![snapshot_unit("X", 2, 1000)], 50), 50);
    app.compute_diff(&snapshot(vec![], 75), 75);
    // The archived record is in the archive, not in the active map.
    assert!(app.known_apartments.is_empty());
    assert_eq!(app.unlisted_apartments.len(), 1);
    let archived = &app.unlisted_apartments[0];
    assert_eq!(archived.inner.unit_id, "X");
    assert_eq!(archived.listed, 50);
    assert_eq!(archived.unlisted, Some(75));
}

#[test]
fn test_idempotent_second_reconciliation_is_empty() {
    let units = || vec![snapshot_unit("A", 2, 4260), snapshot_unit("B", 1, 3900)];
    let mut app = App::default();
    app.compute_diff(&snapshot(units(), 10), 10);
    let second = app.compute_diff(&snapshot(units(), 20), 20);
    assert!(second.is_empty());
    assert!(second.added.is_empty() && second.removed.is_empty() && second.changed.is_empty());
}

#[test]
fn test_single_field_change_yields_exactly_one_changed() {
    let mut app = App::default();
    app.compute_diff(
        &snapshot(vec![snapshot_unit("A", 2, 4260), snapshot_unit("B", 2, 3900)], 10),
        10,
    );
    // Price of A changes from 4260 to 4300; everything else is equal.
    let diff = app.compute_diff(
        &snapshot(vec![snapshot_unit("A", 2, 4300), snapshot_unit("B", 2, 3900)], 20),
        20,
    );
    assert!(diff.added.is_empty());
    assert!(diff.removed.is_empty());
    assert_eq!(diff.changed.len(), 1);
    assert_eq!(diff.changed[0].new.unit_id, "A");
}

#[test]
fn test_partition_no_identifier_in_two_buckets() {
    let mut app = App::default();
    app.compute_diff(
        &snapshot(vec![snapshot_unit("A", 2, 4260), snapshot_unit("C", 2, 2000)], 10),
        10,
    );
    let diff = app.compute_diff(
        &snapshot(vec![snapshot_unit("A", 2, 4300), snapshot_unit("B", 2, 3900)], 20),
        20,
    );
    // A: changed only. B: added only. C: removed only.
    let added: Vec<&str> = diff.added.iter().map(|u| u.unit_id.as_str()).collect();
    let changed: Vec<&str> = diff.changed.iter().map(|c| c.new.unit_id.as_str()).collect();
    let removed: Vec<&str> = diff.removed.iter().map(|u| u.inner.unit_id.as_str()).collect();
    for id in ["A", "B", "C"] {
        let buckets = [added.contains(&id), changed.contains(&id), removed.contains(&id)];
        let count = buckets.iter().filter(|b| **b).count();
        assert!(count <= 1, "identifier {id} classified {count} times");
    }
    assert_eq!(added, vec!["B"]);
    assert_eq!(changed, vec!["A"]);
    assert_eq!(removed, vec!["C"]);
    // Unchanged units produce no diff entry at all.
    let diff = app.compute_diff(
        &snapshot(vec![snapshot_unit("A", 2, 4300), snapshot_unit("B", 2, 3900)], 30),
        30,
    );
    assert!(diff.is_empty());
}

#[test]
fn test_update_inner_keeps_lifecycle_metadata() {
    let mut app = App::default();
    app.compute_diff(&snapshot(vec![snapshot_unit("A", 2, 4260)], 10), 10);
    let mut unit = app.known_apartments.remove(0);
    unit.update_inner(snapshot_unit("A", 2, 9999));
    assert_eq!(unit.listed, 10);
    assert_eq!(unit.unlisted, None);
    assert_eq!(unit.inner.lowest_rent.price.price, 9999);
    assert_eq!(unit.id(), "A");
}
