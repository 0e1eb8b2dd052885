use assets::ids::{validate_uuid, AssetId};
use assets::models::{Building, Record, OptionalIDBuilding, OptionalIDRoom, OptionalIDStorey, Reservation};
use assets::service::{
    add_building, add_room, add_storey, delete_building, delete_room, delete_storey, get_all_rooms,
    get_all_storeys, get_building_by_id, get_room_by_id, get_storey_by_id, has_room_reservations,
    update_building, update_room, update_storey, AssetError,
};
use assets::store::{
    create_or_update_building, create_or_update_room, create_or_update_storey, delete_building_by_id,
    find_building_by_id, find_room_by_id, find_storey_by_id, get_buildings, get_rooms, get_storeys,
    has_rooms, has_storeys, rooms_by_storey, storeys_by_building, AssetStore,
};

fn text(id: AssetId) -> String {
    uuid::Uuid::from_u128(id.0).to_string()
}

fn building_body(id: Option<AssetId>, name: &str, address: &str) -> OptionalIDBuilding {
    OptionalIDBuilding { id, name: name.to_string(), address: address.to_string() }
}

fn storey_body(id: Option<AssetId>, name: &str, building_id: AssetId) -> OptionalIDStorey {
    OptionalIDStorey { id, name: name.to_string(), building_id }
}

fn room_body(id: Option<AssetId>, name: &str, storey_id: AssetId) -> OptionalIDRoom {
    OptionalIDRoom { id, name: name.to_string(), storey_id }
}

fn reservation(room_id: AssetId) -> Reservation {
    Reservation {
        id: AssetId(99),
        from: "2024-01-01".to_string(),
        to: "2024-01-02".to_string(),
        room_id,
    }
}

#[test]
fn util_test_successful_validation() {
    let test_input = "a4a443c6-0aad-4c1f-a623-e2c2dfc5780c".to_string();
    let uuid = validate_uuid(test_input);
    assert!(uuid.is_some());
}

#[test]
fn util_test_invalid_uuid() {
    let test_input = "invalid-uuid".to_string();
    let uuid = validate_uuid(test_input);
    assert!(uuid.is_none());
}

#[test]
fn validator_test_successful_validation() {
    let test_input = "a4a443c6-0aad-4c1f-a623-e2c2dfc5780c".to_string();
    let uuid = validate_uuid(test_input);
    assert!(uuid.is_some());
}

#[test]
fn validator_test_invalid_uuid() {
    let test_input = "invalid-uuid".to_string();
    let uuid = validate_uuid(test_input);
    assert!(uuid.is_none());
}

#[test]
fn uuid_value_is_read_big_endian() {
    let id = validate_uuid("a4a443c6-0aad-4c1f-a623-e2c2dfc5780c".to_string());
    assert_eq!(id, Some(AssetId(0xa4a443c6_0aad_4c1f_a623_e2c2dfc5780c)));
    let simple = validate_uuid("a4a443c60aad4c1fa623e2c2dfc5780c".to_string());
    assert_eq!(simple, id);
    assert_eq!(validate_uuid(String::new()), None);
}

#[test]
fn scenario_buildings_and_storeys_over_rest() {
    let mut store = AssetStore::new();
    let hq = add_building(&mut store, building_body(None, "HQ", "1 Main St")).unwrap();
    assert_eq!(hq.name, "HQ");
    assert_eq!(hq.address, "1 Main St");

    let found = get_building_by_id(&store, &text(hq.id)).unwrap();
    assert_eq!(found, hq);

    let dangling = AssetId(0x1234);
    let e = add_storey(&mut store, storey_body(None, "L1", dangling)).unwrap_err();
    assert_eq!(e, AssetError::UnprocessableReference);
    assert_eq!(e.status_code(), 422);

    assert_eq!(delete_building(&mut store, &text(hq.id)), Ok(()));

    let hq2 = add_building(&mut store, building_body(None, "HQ", "1 Main St")).unwrap();
    add_storey(&mut store, storey_body(None, "L1", hq2.id)).unwrap();
    let e = delete_building(&mut store, &text(hq2.id)).unwrap_err();
    assert_eq!(e, AssetError::HasChildren);
    assert_eq!(e.status_code(), 422);
}

#[test]
fn created_building_is_found_by_its_id() {
    let mut store = AssetStore::new();
    let b = create_or_update_building(&mut store, None, "Annex".to_string(), "2 Side St".to_string()).unwrap();
    assert_eq!(find_building_by_id(&store, b.id), Some(b.duplicate()));
    assert_eq!(get_buildings(&store), vec![b]);
}

#[test]
fn storey_with_missing_building_is_refused_and_not_stored() {
    let mut store = AssetStore::new();
    let missing = AssetId(7);
    let e = add_storey(&mut store, storey_body(Some(AssetId(8)), "L1", missing)).unwrap_err();
    assert_eq!(e, AssetError::UnprocessableReference);
    assert!(get_storeys(&store).is_empty());
    assert_eq!(find_storey_by_id(&store, AssetId(8)), None);
}

#[test]
fn building_delete_waits_for_its_storeys() {
    let mut store = AssetStore::new();
    let b = add_building(&mut store, building_body(None, "B", "A")).unwrap();
    let s1 = add_storey(&mut store, storey_body(None, "L1", b.id)).unwrap();
    let s2 = add_storey(&mut store, storey_body(None, "L2", b.id)).unwrap();
    assert!(has_storeys(&store, b.id));
    assert_eq!(delete_building(&mut store, &text(b.id)), Err(AssetError::HasChildren));
    assert_eq!(delete_storey(&mut store, &text(s1.id)), Ok(()));
    assert_eq!(delete_building(&mut store, &text(b.id)), Err(AssetError::HasChildren));
    assert_eq!(delete_storey(&mut store, &text(s2.id)), Ok(()));
    assert!(!has_storeys(&store, b.id));
    assert_eq!(delete_building(&mut store, &text(b.id)), Ok(()));
    assert_eq!(find_building_by_id(&store, b.id), None);
}

#[test]
fn storey_delete_waits_for_its_rooms() {
    let mut store = AssetStore::new();
    let b = add_building(&mut store, building_body(None, "B", "A")).unwrap();
    let s = add_storey(&mut store, storey_body(None, "L1", b.id)).unwrap();
    let r = add_room(&mut store, room_body(None, "R1", s.id)).unwrap();
    assert!(has_rooms(&store, s.id));
    assert_eq!(delete_storey(&mut store, &text(s.id)), Err(AssetError::HasChildren));
    assert_eq!(delete_room(&mut store, &text(r.id), Some(Vec::new())), Ok(()));
    assert!(!has_rooms(&store, s.id));
    assert_eq!(delete_storey(&mut store, &text(s.id)), Ok(()));
}

#[test]
fn upsert_with_new_id_keeps_that_id() {
    let mut store = AssetStore::new();
    let x = AssetId(0xabcdef);
    let b = create_or_update_building(&mut store, Some(x), "N".to_string(), "A".to_string()).unwrap();
    assert_eq!(b.id, x);
    assert_eq!(find_building_by_id(&store, x), Some(b));
    let s = create_or_update_storey(&mut store, Some(AssetId(5)), "L".to_string(), x).unwrap();
    assert_eq!(s.id, AssetId(5));
    let r = create_or_update_room(&mut store, Some(AssetId(6)), "R".to_string(), AssetId(5)).unwrap();
    assert_eq!(r.id, AssetId(6));
    assert_eq!(find_room_by_id(&store, AssetId(6)), Some(r));
}

#[test]
fn upsert_with_existing_id_replaces_in_place() {
    let mut store = AssetStore::new();
    let x = AssetId(1);
    create_or_update_building(&mut store, Some(x), "Old".to_string(), "A".to_string()).unwrap();
    let b = create_or_update_building(&mut store, Some(x), "New".to_string(), "B".to_string()).unwrap();
    assert_eq!(b, Building { id: x, name: "New".to_string(), address: "B".to_string() });
    assert_eq!(get_buildings(&store), vec![b]);
}

#[test]
fn put_with_mismatched_ids_touches_nothing() {
    let mut store = AssetStore::new();
    let b = add_building(&mut store, building_body(None, "B", "A")).unwrap();
    let other = AssetId(b.id.0 ^ 1);
    let e = update_building(&mut store, &text(b.id), building_body(Some(other), "C", "D")).unwrap_err();
    assert_eq!(e, AssetError::IdentifierConflict);
    assert_eq!(e.status_code(), 422);
    assert_eq!(get_buildings(&store), vec![b.duplicate()]);

    let s = add_storey(&mut store, storey_body(None, "L", b.id)).unwrap();
    let e = update_storey(&mut store, &text(s.id), storey_body(Some(other), "M", b.id)).unwrap_err();
    assert_eq!(e, AssetError::IdentifierConflict);
    let r = add_room(&mut store, room_body(None, "R", s.id)).unwrap();
    let e = update_room(&mut store, &text(r.id), room_body(Some(other), "Q", s.id)).unwrap_err();
    assert_eq!(e, AssetError::IdentifierConflict);
    assert_eq!(get_storeys(&store), vec![s]);
    assert_eq!(get_rooms(&store), vec![r]);
}

#[test]
fn put_replaces_or_creates_under_the_path_id() {
    let mut store = AssetStore::new();
    let b = add_building(&mut store, building_body(None, "B", "A")).unwrap();
    assert_eq!(update_building(&mut store, &text(b.id), building_body(Some(b.id), "C", "D")), Ok(()));
    assert_eq!(update_building(&mut store, &text(b.id), building_body(None, "E", "F")), Ok(()));
    let found = find_building_by_id(&store, b.id).unwrap();
    assert_eq!(found.name, "E");
    assert_eq!(found.address, "F");

    let fresh = AssetId(42);
    assert_eq!(update_storey(&mut store, &text(fresh), storey_body(None, "L", b.id)), Ok(()));
    let s = get_storey_by_id(&store, &text(fresh)).unwrap();
    assert_eq!(s.building_id, b.id);
    assert_eq!(update_room(&mut store, &text(AssetId(43)), room_body(None, "R", fresh)), Ok(()));
    assert_eq!(get_room_by_id(&store, &text(AssetId(43))).unwrap().storey_id, fresh);
}

#[test]
fn put_with_missing_parent_is_refused() {
    let mut store = AssetStore::new();
    let e = update_storey(&mut store, &text(AssetId(1)), storey_body(None, "L", AssetId(2))).unwrap_err();
    assert_eq!(e, AssetError::UnprocessableReference);
    let e = update_room(&mut store, &text(AssetId(1)), room_body(None, "R", AssetId(2))).unwrap_err();
    assert_eq!(e, AssetError::UnprocessableReference);
    let e = add_room(&mut store, room_body(None, "R", AssetId(2))).unwrap_err();
    assert_eq!(e, AssetError::UnprocessableReference);
    assert!(get_storeys(&store).is_empty());
    assert!(get_rooms(&store).is_empty());
}

#[test]
fn room_delete_consults_reservations() {
    let mut store = AssetStore::new();
    let b = add_building(&mut store, building_body(None, "B", "A")).unwrap();
    let s = add_storey(&mut store, storey_body(None, "L", b.id)).unwrap();
    let r = add_room(&mut store, room_body(None, "R", s.id)).unwrap();

    let booked = vec![reservation(AssetId(3)), reservation(r.id)];
    let e = delete_room(&mut store, &text(r.id), Some(booked)).unwrap_err();
    assert_eq!(e, AssetError::HasActiveReservations);
    assert_eq!(e.status_code(), 422);

    let e = delete_room(&mut store, &text(r.id), None).unwrap_err();
    assert_eq!(e, AssetError::DependencyUnavailable);
    assert_eq!(e.status_code(), 404);
    assert_eq!(find_room_by_id(&store, r.id), Some(r.duplicate()));

    let elsewhere = vec![reservation(AssetId(3))];
    assert_eq!(delete_room(&mut store, &text(r.id), Some(elsewhere)), Ok(()));
    assert_eq!(find_room_by_id(&store, r.id), None);
    assert_eq!(delete_room(&mut store, &text(r.id), Some(Vec::new())), Err(AssetError::NotFound));
}

#[test]
fn reservation_match_is_by_room() {
    let v = vec![reservation(AssetId(1)), reservation(AssetId(2))];
    assert!(has_room_reservations(&v, AssetId(2)));
    assert!(!has_room_reservations(&v, AssetId(3)));
    assert!(!has_room_reservations(&Vec::new(), AssetId(1)));
}

#[test]
fn malformed_and_unknown_ids() {
    let mut store = AssetStore::new();
    let e = get_building_by_id(&store, "nope").unwrap_err();
    assert_eq!(e, AssetError::MalformedInput);
    assert_eq!(e.status_code(), 400);
    assert_eq!(delete_building(&mut store, "nope"), Err(AssetError::MalformedInput));
    assert_eq!(delete_storey(&mut store, "nope"), Err(AssetError::MalformedInput));
    assert_eq!(delete_room(&mut store, "nope", None), Err(AssetError::MalformedInput));
    assert_eq!(update_building(&mut store, "nope", building_body(None, "B", "A")), Err(AssetError::MalformedInput));

    let e = get_storey_by_id(&store, &text(AssetId(5))).unwrap_err();
    assert_eq!(e, AssetError::NotFound);
    assert_eq!(e.status_code(), 404);
    assert_eq!(get_room_by_id(&store, &text(AssetId(5))), Err(AssetError::NotFound));
    assert_eq!(delete_building(&mut store, &text(AssetId(5))), Err(AssetError::NotFound));
    assert_eq!(delete_storey(&mut store, &text(AssetId(5))), Err(AssetError::NotFound));
    assert!(!delete_building_by_id(&mut store, AssetId(5)));
}

#[test]
fn listings_by_parent() {
    let mut store = AssetStore::new();
    let a = add_building(&mut store, building_body(None, "A", "a")).unwrap();
    let b = add_building(&mut store, building_body(None, "B", "b")).unwrap();
    let a1 = add_storey(&mut store, storey_body(None, "A1", a.id)).unwrap();
    let b1 = add_storey(&mut store, storey_body(None, "B1", b.id)).unwrap();
    let a2 = add_storey(&mut store, storey_body(None, "A2", a.id)).unwrap();
    assert_eq!(storeys_by_building(&store, a.id), vec![a1.duplicate(), a2.duplicate()]);
    assert_eq!(get_all_storeys(&store, Some(text(b.id))), Ok(vec![b1.duplicate()]));
    assert_eq!(get_all_storeys(&store, None), Ok(vec![a1.duplicate(), b1, a2.duplicate()]));
    assert_eq!(get_all_storeys(&store, Some("x".to_string())), Err(AssetError::MalformedInput));
    assert_eq!(get_all_storeys(&store, Some(text(AssetId(77)))), Ok(Vec::new()));

    let r = add_room(&mut store, room_body(None, "R", a1.id)).unwrap();
    assert_eq!(rooms_by_storey(&store, a1.id), vec![r.duplicate()]);
    assert!(rooms_by_storey(&store, a2.id).is_empty());
    assert_eq!(get_all_rooms(&store, Some(text(a1.id))), Ok(vec![r.duplicate()]));
    assert_eq!(get_all_rooms(&store, None), Ok(vec![r]));
    assert_eq!(get_all_rooms(&store, Some("y".to_string())), Err(AssetError::MalformedInput));
}

#[test]
fn every_error_has_its_status() {
    assert_eq!(AssetError::MalformedInput.status_code(), 400);
    assert_eq!(AssetError::UnprocessableReference.status_code(), 422);
    assert_eq!(AssetError::IdentifierConflict.status_code(), 422);
    assert_eq!(AssetError::HasChildren.status_code(), 422);
    assert_eq!(AssetError::HasActiveReservations.status_code(), 422);
    assert_eq!(AssetError::NotFound.status_code(), 404);
    assert_eq!(AssetError::StorageFailure.status_code(), 500);
    assert_eq!(AssetError::DependencyUnavailable.status_code(), 404);
}

#[test]
fn generated_ids_differ() {
    let mut store = AssetStore::new();
    let a = add_building(&mut store, building_body(None, "A", "a")).unwrap();
    let b = add_building(&mut store, building_body(None, "A", "a")).unwrap();
    assert_ne!(a.id, b.id);
    assert_eq!(get_buildings(&store).len(), 2);
}

#[test]
fn references_stay_good_through_a_mixed_sequence() {
    let mut store = AssetStore::new();
    let b = add_building(&mut store, building_body(None, "B", "A")).unwrap();
    let s = add_storey(&mut store, storey_body(None, "L", b.id)).unwrap();
    add_room(&mut store, room_body(None, "R", s.id)).unwrap();
    assert_eq!(delete_storey(&mut store, &text(s.id)), Err(AssetError::HasChildren));
    assert_eq!(update_room(&mut store, &text(AssetId(9)), room_body(None, "Q", AssetId(10))), Err(AssetError::UnprocessableReference));
    assert_eq!(delete_building(&mut store, &text(b.id)), Err(AssetError::HasChildren));
    for st in get_storeys(&store) {
        assert!(find_building_by_id(&store, st.building_id).is_some());
    }
    for r in get_rooms(&store) {
        assert!(find_storey_by_id(&store, r.storey_id).is_some());
    }
}

#[test]
fn building_needs_a_name() {
    let mut store = AssetStore::new();
    let e = add_building(&mut store, building_body(None, "", "1 Main St")).unwrap_err();
    assert_eq!(e, AssetError::MalformedInput);
    assert_eq!(e.status_code(), 400);
    assert!(get_buildings(&store).is_empty());
    let b = add_building(&mut store, building_body(None, "HQ", "1 Main St")).unwrap();
    let e = update_building(&mut store, &text(b.id), building_body(None, "", "2 Main St")).unwrap_err();
    assert_eq!(e, AssetError::MalformedInput);
    assert_eq!(find_building_by_id(&store, b.id), Some(b));
}

#[test]
fn uuid_text_forms() {
    let v = Some(AssetId(0xa4a443c6_0aad_4c1f_a623_e2c2dfc5780c));
    assert_eq!(validate_uuid("A4A443C6-0AAD-4C1F-A623-E2C2DFC5780C".to_string()), v);
    assert_eq!(validate_uuid("{a4a443c6-0aad-4c1f-a623-e2c2dfc5780c}".to_string()), v);
    assert_eq!(validate_uuid("urn:uuid:a4a443c6-0aad-4c1f-a623-e2c2dfc5780c".to_string()), v);
    assert_eq!(validate_uuid("URN:UUID:a4a443c6-0aad-4c1f-a623-e2c2dfc5780c".to_string()), v);
    assert_eq!(validate_uuid("a4a443c6-0aad-4c1f-a623-e2c2dfc5780g".to_string()), None);
    assert_eq!(validate_uuid("a4a443c60-aad-4c1f-a623-e2c2dfc5780c".to_string()), None);
    assert_eq!(validate_uuid("[a4a443c6-0aad-4c1f-a623-e2c2dfc5780c]".to_string()), None);
    assert_eq!(validate_uuid("urn:uid:-a4a443c6-0aad-4c1f-a623-e2c2dfc5780c".to_string()), None);
}

#[test]
fn id_conflict_is_reported_before_the_name() {
    let mut store = AssetStore::new();
    let b = add_building(&mut store, building_body(None, "HQ", "1 Main St")).unwrap();
    let other = AssetId(b.id.0 ^ 1);
    let e = update_building(&mut store, &text(b.id), building_body(Some(other), "", "x")).unwrap_err();
    assert_eq!(e, AssetError::IdentifierConflict);
    assert_eq!(find_building_by_id(&store, b.id), Some(b));
}
