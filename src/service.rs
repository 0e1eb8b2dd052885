use vstd::prelude::*;
use crate::ids::{uuid_of, validate_uuid, AssetId};
use crate::models::{Building, OptionalIDBuilding, OptionalIDRoom, OptionalIDStorey, Reservation, Room, Storey};
use crate::store::{
    create_or_update_building, create_or_update_room, create_or_update_storey, delete_building_by_id,
    delete_room_by_id, delete_storey_by_id, find_building_by_id, find_room_by_id, find_storey_by_id,
    get_rooms, get_storeys, has_rooms, has_storeys, rooms_by_storey, storeys_by_building, upsert_effect,
    AssetStore,
};
use crate::table::{
    children_of, has_child, has_key, lemma_child_removal, lemma_child_upsert, lemma_parent_removal,
    lemma_parent_upsert, lookup, removed, upserted,
};

verus! {

/// Why an operation on the hierarchy was refused.
#[derive(Clone, Copy, Debug, PartialEq, Eq, Structural)]
pub enum AssetError {
    /// A path or query identifier is not a UUID, or a body could not be read.
    MalformedInput,
    /// The parent named by the request does not exist.
    UnprocessableReference,
    /// The identifier in the body differs from the one in the path.
    IdentifierConflict,
    /// The row still has child rows.
    HasChildren,
    /// The room still has reservations.
    HasActiveReservations,
    /// No row has the identifier.
    NotFound,
    /// The storage layer refused the write.
    StorageFailure,
    /// A service the operation depends on could not be reached.
    DependencyUnavailable,
}

/// The HTTP status that reports an error.
pub open spec fn status_of(e: AssetError) -> u16 {
    match e {
        AssetError::MalformedInput => 400,
        AssetError::UnprocessableReference => 422,
        AssetError::IdentifierConflict => 422,
        AssetError::HasChildren => 422,
        AssetError::HasActiveReservations => 422,
        AssetError::NotFound => 404,
        AssetError::StorageFailure => 500,
        AssetError::DependencyUnavailable => 404,
    }
}

impl AssetError {
    /// The HTTP status that reports this error.
    pub fn status_code(&self) -> (r: u16)
        ensures
            r == status_of(*self),
    {
        match self {
            AssetError::MalformedInput => 400,
            AssetError::UnprocessableReference => 422,
            AssetError::IdentifierConflict => 422,
            AssetError::HasChildren => 422,
            AssetError::HasActiveReservations => 422,
            AssetError::NotFound => 404,
            AssetError::StorageFailure => 500,
            AssetError::DependencyUnavailable => 404,
        }
    }
}

/// The three tables of `a` and `b` hold the same rows.
pub open spec fn same_tables(a: AssetStore, b: AssetStore) -> bool {
    &&& a.buildings@ == b.buildings@
    &&& a.storeys@ == b.storeys@
    &&& a.rooms@ == b.rooms@
}

/// The outcome of a delete, decided before anything is removed: blocked rows
/// stay, unknown rows are reported as not found.
pub open spec fn removal_verdict(exists: bool, blocked: bool) -> Result<(), AssetError> {
    if blocked {
        Err(AssetError::HasChildren)
    } else if !exists {
        Err(AssetError::NotFound)
    } else {
        Ok(())
    }
}

/// A body identifier, where given, must equal the path identifier.
pub open spec fn ids_conflict(path_id: AssetId, body_id: Option<AssetId>) -> bool {
    body_id matches Some(b) && b != path_id
}

pub open spec fn building_row(id: AssetId, name: String, address: String) -> Building {
    Building { id, name, address }
}

pub open spec fn storey_row(id: AssetId, name: String, building_id: AssetId) -> Storey {
    Storey { id, name, building_id }
}

pub open spec fn room_row(id: AssetId, name: String, storey_id: AssetId) -> Room {
    Room { id, name, storey_id }
}

/// Some reservation is for the room `room_id`.
pub open spec fn reserved(reservations: Seq<Reservation>, room_id: AssetId) -> bool {
    exists|i: int| 0 <= i < reservations.len() && #[trigger] reservations[i].room_id == room_id
}

fn conflicting(path_id: AssetId, body_id: Option<AssetId>) -> (r: bool)
    ensures
        r == ids_conflict(path_id, body_id),
{
    match body_id {
        Some(b) => b != path_id,
        None => false,
    }
}

/// Whether any of the reservations is for the room `delete_room_id`.
pub fn has_room_reservations(reservations: &Vec<Reservation>, delete_room_id: AssetId) -> (r: bool)
    ensures
        r == reserved(reservations@, delete_room_id),
{
    let mut i: usize = 0;
    while i < reservations.len()
        invariant
            i <= reservations@.len(),
            forall|k: int| 0 <= k < i ==> #[trigger] reservations@[k].room_id != delete_room_id,
        decreases reservations@.len() - i,
    {
        if reservations[i].room_id == delete_room_id {
            return true;
        }
        i = i + 1;
    }
    false
}

/// Creates a building, or writes it under the identifier the body gives.
/// A building must have a non-empty name.
pub fn add_building(store: &mut AssetStore, body: OptionalIDBuilding) -> (r: Result<Building, AssetError>)
    requires
        old(store).wf(),
    ensures
        final(store).wf(),
        old(store).linked() ==> final(store).linked(),
        final(store).storeys@ == old(store).storeys@,
        final(store).rooms@ == old(store).rooms@,
        body.name@.len() == 0 ==> r == Err::<Building, AssetError>(AssetError::MalformedInput),
        match r {
            Ok(b) => body.name@.len() > 0 && upsert_effect(
                old(store).buildings@,
                final(store).buildings@,
                body.id,
                Some(b),
            ) && b.name == body.name && b.address == body.address,
            Err(e) => same_tables(*old(store), *final(store)) && ((e == AssetError::MalformedInput
                && body.name@.len() == 0) || (e == AssetError::StorageFailure && body.id is None
                && old(store).buildings@.len() > 0)),
        },
{
    if body.name.as_str().is_empty() {
        return Err(AssetError::MalformedInput);
    }
    match create_or_update_building(store, body.id, body.name, body.address) {
        Some(b) => {
            proof {
                if old(store).linked() {
                    lemma_parent_upsert(old(store).buildings@, old(store).storeys@, b);
                }
            }
            Ok(b)
        },
        None => Err(AssetError::StorageFailure),
    }
}

/// The building the path names.
pub fn get_building_by_id(store: &AssetStore, path_id: &str) -> (r: Result<Building, AssetError>)
    requires
        store.wf(),
    ensures
        match uuid_of(path_id@) {
            None => r == Err::<Building, AssetError>(AssetError::MalformedInput),
            Some(id) => match lookup(store.buildings@, id) {
                Some(b) => r == Ok::<Building, AssetError>(b),
                None => r == Err::<Building, AssetError>(AssetError::NotFound),
            },
        },
{
    match validate_uuid(path_id.to_owned()) {
        None => Err(AssetError::MalformedInput),
        Some(id) => match find_building_by_id(store, id) {
            Some(b) => Ok(b),
            None => Err(AssetError::NotFound),
        },
    }
}

/// Replaces the building the path names, or creates it under that
/// identifier. A building must have a non-empty name.
pub fn update_building(store: &mut AssetStore, path_id: &str, body: OptionalIDBuilding) -> (r: Result<(), AssetError>)
    requires
        old(store).wf(),
    ensures
        final(store).wf(),
        old(store).linked() ==> final(store).linked(),
        match uuid_of(path_id@) {
            None => r == Err::<(), AssetError>(AssetError::MalformedInput) && same_tables(*old(store), *final(store)),
            Some(id) => if ids_conflict(id, body.id) {
                r == Err::<(), AssetError>(AssetError::IdentifierConflict) && same_tables(*old(store), *final(store))
            } else if body.name@.len() == 0 {
                r == Err::<(), AssetError>(AssetError::MalformedInput) && same_tables(*old(store), *final(store))
            } else {
                &&& r == Ok::<(), AssetError>(())
                &&& final(store).buildings@ == upserted(old(store).buildings@, building_row(id, body.name, body.address))
                &&& final(store).storeys@ == old(store).storeys@
                &&& final(store).rooms@ == old(store).rooms@
            },
        },
{
    let id = match validate_uuid(path_id.to_owned()) {
        None => return Err(AssetError::MalformedInput),
        Some(id) => id,
    };
    if conflicting(id, body.id) {
        return Err(AssetError::IdentifierConflict);
    }
    if body.name.as_str().is_empty() {
        return Err(AssetError::MalformedInput);
    }
    let r = create_or_update_building(store, Some(id), body.name, body.address);
    proof {
        let b = r->Some_0;
        assert(b == building_row(id, body.name, body.address));
        if old(store).linked() {
            lemma_parent_upsert(old(store).buildings@, old(store).storeys@, b);
        }
    }
    Ok(())
}

/// Deletes the building the path names, unless storeys still belong to it.
pub fn delete_building(store: &mut AssetStore, path_id: &str) -> (r: Result<(), AssetError>)
    requires
        old(store).wf(),
    ensures
        final(store).wf(),
        old(store).linked() ==> final(store).linked(),
        match uuid_of(path_id@) {
            None => r == Err::<(), AssetError>(AssetError::MalformedInput) && same_tables(*old(store), *final(store)),
            Some(id) => {
                &&& r == removal_verdict(has_key(old(store).buildings@, id), has_child(old(store).storeys@, id))
                &&& r is Ok ==> final(store).buildings@ == removed(old(store).buildings@, id)
                    && final(store).storeys@ == old(store).storeys@ && final(store).rooms@ == old(store).rooms@
                &&& r is Err ==> same_tables(*old(store), *final(store))
            },
        },
{
    let id = match validate_uuid(path_id.to_owned()) {
        None => return Err(AssetError::MalformedInput),
        Some(id) => id,
    };
    if has_storeys(store, id) {
        return Err(AssetError::HasChildren);
    }
    if delete_building_by_id(store, id) {
        proof {
            if old(store).linked() {
                lemma_parent_removal(old(store).buildings@, old(store).storeys@, id);
            }
        }
        Ok(())
    } else {
        Err(AssetError::NotFound)
    }
}

/// Creates a storey, or writes it under the identifier the body gives,
/// provided its building exists.
pub fn add_storey(store: &mut AssetStore, body: OptionalIDStorey) -> (r: Result<Storey, AssetError>)
    requires
        old(store).wf(),
    ensures
        final(store).wf(),
        old(store).linked() ==> final(store).linked(),
        final(store).buildings@ == old(store).buildings@,
        final(store).rooms@ == old(store).rooms@,
        !has_key(old(store).buildings@, body.building_id) ==> r == Err::<Storey, AssetError>(
            AssetError::UnprocessableReference,
        ),
        match r {
            Ok(s) => has_key(old(store).buildings@, body.building_id) && upsert_effect(
                old(store).storeys@,
                final(store).storeys@,
                body.id,
                Some(s),
            ) && s.name == body.name && s.building_id == body.building_id,
            Err(e) => same_tables(*old(store), *final(store)) && ((e == AssetError::UnprocessableReference
                && !has_key(old(store).buildings@, body.building_id)) || (e == AssetError::StorageFailure
                && body.id is None && old(store).storeys@.len() > 0)),
        },
{
    if find_building_by_id(store, body.building_id).is_none() {
        return Err(AssetError::UnprocessableReference);
    }
    match create_or_update_storey(store, body.id, body.name, body.building_id) {
        Some(s) => {
            proof {
                if old(store).linked() {
                    lemma_child_upsert(old(store).buildings@, old(store).storeys@, s);
                    lemma_parent_upsert(old(store).storeys@, old(store).rooms@, s);
                }
            }
            Ok(s)
        },
        None => Err(AssetError::StorageFailure),
    }
}

/// The storey the path names.
pub fn get_storey_by_id(store: &AssetStore, path_id: &str) -> (r: Result<Storey, AssetError>)
    requires
        store.wf(),
    ensures
        match uuid_of(path_id@) {
            None => r == Err::<Storey, AssetError>(AssetError::MalformedInput),
            Some(id) => match lookup(store.storeys@, id) {
                Some(s) => r == Ok::<Storey, AssetError>(s),
                None => r == Err::<Storey, AssetError>(AssetError::NotFound),
            },
        },
{
    match validate_uuid(path_id.to_owned()) {
        None => Err(AssetError::MalformedInput),
        Some(id) => match find_storey_by_id(store, id) {
            Some(s) => Ok(s),
            None => Err(AssetError::NotFound),
        },
    }
}

/// Every storey, or those of the building the filter names.
pub fn get_all_storeys(store: &AssetStore, building_id: Option<String>) -> (r: Result<Vec<Storey>, AssetError>)
    ensures
        match building_id {
            None => r matches Ok(v) && v@ == store.storeys@,
            Some(f) => match uuid_of(f@) {
                None => r matches Err(e) && e == AssetError::MalformedInput,
                Some(id) => r matches Ok(v) && v@ == children_of(store.storeys@, id),
            },
        },
{
    match building_id {
        None => Ok(get_storeys(store)),
        Some(f) => match validate_uuid(f) {
            None => Err(AssetError::MalformedInput),
            Some(id) => Ok(storeys_by_building(store, id)),
        },
    }
}

/// Replaces the storey the path names, or creates it under that
/// identifier, provided its building exists.
pub fn update_storey(store: &mut AssetStore, path_id: &str, body: OptionalIDStorey) -> (r: Result<(), AssetError>)
    requires
        old(store).wf(),
    ensures
        final(store).wf(),
        old(store).linked() ==> final(store).linked(),
        match uuid_of(path_id@) {
            None => r == Err::<(), AssetError>(AssetError::MalformedInput) && same_tables(*old(store), *final(store)),
            Some(id) => if ids_conflict(id, body.id) {
                r == Err::<(), AssetError>(AssetError::IdentifierConflict) && same_tables(*old(store), *final(store))
            } else if !has_key(old(store).buildings@, body.building_id) {
                r == Err::<(), AssetError>(AssetError::UnprocessableReference) && same_tables(*old(store), *final(store))
            } else {
                &&& r == Ok::<(), AssetError>(())
                &&& final(store).storeys@ == upserted(old(store).storeys@, storey_row(id, body.name, body.building_id))
                &&& final(store).buildings@ == old(store).buildings@
                &&& final(store).rooms@ == old(store).rooms@
            },
        },
{
    let id = match validate_uuid(path_id.to_owned()) {
        None => return Err(AssetError::MalformedInput),
        Some(id) => id,
    };
    if conflicting(id, body.id) {
        return Err(AssetError::IdentifierConflict);
    }
    if find_building_by_id(store, body.building_id).is_none() {
        return Err(AssetError::UnprocessableReference);
    }
    let r = create_or_update_storey(store, Some(id), body.name, body.building_id);
    proof {
        let s = r->Some_0;
        assert(s == storey_row(id, body.name, body.building_id));
        if old(store).linked() {
            lemma_child_upsert(old(store).buildings@, old(store).storeys@, s);
            lemma_parent_upsert(old(store).storeys@, old(store).rooms@, s);
        }
    }
    Ok(())
}

/// Deletes the storey the path names, unless rooms still belong to it.
pub fn delete_storey(store: &mut AssetStore, path_id: &str) -> (r: Result<(), AssetError>)
    requires
        old(store).wf(),
    ensures
        final(store).wf(),
        old(store).linked() ==> final(store).linked(),
        match uuid_of(path_id@) {
            None => r == Err::<(), AssetError>(AssetError::MalformedInput) && same_tables(*old(store), *final(store)),
            Some(id) => {
                &&& r == removal_verdict(has_key(old(store).storeys@, id), has_child(old(store).rooms@, id))
                &&& r is Ok ==> final(store).storeys@ == removed(old(store).storeys@, id)
                    && final(store).buildings@ == old(store).buildings@ && final(store).rooms@ == old(store).rooms@
                &&& r is Err ==> same_tables(*old(store), *final(store))
            },
        },
{
    let id = match validate_uuid(path_id.to_owned()) {
        None => return Err(AssetError::MalformedInput),
        Some(id) => id,
    };
    if has_rooms(store, id) {
        return Err(AssetError::HasChildren);
    }
    if delete_storey_by_id(store, id) {
        proof {
            if old(store).linked() {
                lemma_child_removal(old(store).buildings@, old(store).storeys@, id);
                lemma_parent_removal(old(store).storeys@, old(store).rooms@, id);
            }
        }
        Ok(())
    } else {
        Err(AssetError::NotFound)
    }
}

/// Creates a room, or writes it under the identifier the body gives,
/// provided its storey exists.
pub fn add_room(store: &mut AssetStore, body: OptionalIDRoom) -> (r: Result<Room, AssetError>)
    requires
        old(store).wf(),
    ensures
        final(store).wf(),
        old(store).linked() ==> final(store).linked(),
        final(store).buildings@ == old(store).buildings@,
        final(store).storeys@ == old(store).storeys@,
        !has_key(old(store).storeys@, body.storey_id) ==> r == Err::<Room, AssetError>(
            AssetError::UnprocessableReference,
        ),
        match r {
            Ok(m) => has_key(old(store).storeys@, body.storey_id) && upsert_effect(
                old(store).rooms@,
                final(store).rooms@,
                body.id,
                Some(m),
            ) && m.name == body.name && m.storey_id == body.storey_id,
            Err(e) => same_tables(*old(store), *final(store)) && ((e == AssetError::UnprocessableReference
                && !has_key(old(store).storeys@, body.storey_id)) || (e == AssetError::StorageFailure
                && body.id is None && old(store).rooms@.len() > 0)),
        },
{
    if find_storey_by_id(store, body.storey_id).is_none() {
        return Err(AssetError::UnprocessableReference);
    }
    match create_or_update_room(store, body.id, body.name, body.storey_id) {
        Some(m) => {
            proof {
                if old(store).linked() {
                    lemma_child_upsert(old(store).storeys@, old(store).rooms@, m);
                }
            }
            Ok(m)
        },
        None => Err(AssetError::StorageFailure),
    }
}

/// The room the path names.
pub fn get_room_by_id(store: &AssetStore, path_id: &str) -> (r: Result<Room, AssetError>)
    requires
        store.wf(),
    ensures
        match uuid_of(path_id@) {
            None => r == Err::<Room, AssetError>(AssetError::MalformedInput),
            Some(id) => match lookup(store.rooms@, id) {
                Some(m) => r == Ok::<Room, AssetError>(m),
                None => r == Err::<Room, AssetError>(AssetError::NotFound),
            },
        },
{
    match validate_uuid(path_id.to_owned()) {
        None => Err(AssetError::MalformedInput),
        Some(id) => match find_room_by_id(store, id) {
            Some(m) => Ok(m),
            None => Err(AssetError::NotFound),
        },
    }
}

/// Every room, or those of the storey the filter names.
pub fn get_all_rooms(store: &AssetStore, storey_id: Option<String>) -> (r: Result<Vec<Room>, AssetError>)
    ensures
        match storey_id {
            None => r matches Ok(v) && v@ == store.rooms@,
            Some(f) => match uuid_of(f@) {
                None => r matches Err(e) && e == AssetError::MalformedInput,
                Some(id) => r matches Ok(v) && v@ == children_of(store.rooms@, id),
            },
        },
{
    match storey_id {
        None => Ok(get_rooms(store)),
        Some(f) => match validate_uuid(f) {
            None => Err(AssetError::MalformedInput),
            Some(id) => Ok(rooms_by_storey(store, id)),
        },
    }
}

/// Replaces the room the path names, or creates it under that identifier,
/// provided its storey exists.
pub fn update_room(store: &mut AssetStore, path_id: &str, body: OptionalIDRoom) -> (r: Result<(), AssetError>)
    requires
        old(store).wf(),
    ensures
        final(store).wf(),
        old(store).linked() ==> final(store).linked(),
        match uuid_of(path_id@) {
            None => r == Err::<(), AssetError>(AssetError::MalformedInput) && same_tables(*old(store), *final(store)),
            Some(id) => if ids_conflict(id, body.id) {
                r == Err::<(), AssetError>(AssetError::IdentifierConflict) && same_tables(*old(store), *final(store))
            } else if !has_key(old(store).storeys@, body.storey_id) {
                r == Err::<(), AssetError>(AssetError::UnprocessableReference) && same_tables(*old(store), *final(store))
            } else {
                &&& r == Ok::<(), AssetError>(())
                &&& final(store).rooms@ == upserted(old(store).rooms@, room_row(id, body.name, body.storey_id))
                &&& final(store).buildings@ == old(store).buildings@
                &&& final(store).storeys@ == old(store).storeys@
            },
        },
{
    let id = match validate_uuid(path_id.to_owned()) {
        None => return Err(AssetError::MalformedInput),
        Some(id) => id,
    };
    if conflicting(id, body.id) {
        return Err(AssetError::IdentifierConflict);
    }
    if find_storey_by_id(store, body.storey_id).is_none() {
        return Err(AssetError::UnprocessableReference);
    }
    let r = create_or_update_room(store, Some(id), body.name, body.storey_id);
    proof {
        let m = r->Some_0;
        assert(m == room_row(id, body.name, body.storey_id));
        if old(store).linked() {
            lemma_child_upsert(old(store).storeys@, old(store).rooms@, m);
        }
    }
    Ok(())
}

/// Deletes the room the path names. `reservations` is what the reservation
/// service reported, or `None` if it could not be reached; the room stays
/// while a reservation is for it, and stays when the service is unreachable.
pub fn delete_room(store: &mut AssetStore, path_id: &str, reservations: Option<Vec<Reservation>>) -> (r: Result<(), AssetError>)
    requires
        old(store).wf(),
    ensures
        final(store).wf(),
        old(store).linked() ==> final(store).linked(),
        r is Err ==> same_tables(*old(store), *final(store)),
        match uuid_of(path_id@) {
            None => r == Err::<(), AssetError>(AssetError::MalformedInput),
            Some(id) => match reservations {
                None => r == Err::<(), AssetError>(AssetError::DependencyUnavailable),
                Some(v) => if reserved(v@, id) {
                    r == Err::<(), AssetError>(AssetError::HasActiveReservations)
                } else if !has_key(old(store).rooms@, id) {
                    r == Err::<(), AssetError>(AssetError::NotFound)
                } else {
                    &&& r == Ok::<(), AssetError>(())
                    &&& final(store).rooms@ == removed(old(store).rooms@, id)
                    &&& final(store).buildings@ == old(store).buildings@
                    &&& final(store).storeys@ == old(store).storeys@
                },
            },
        },
{
    let id = match validate_uuid(path_id.to_owned()) {
        None => return Err(AssetError::MalformedInput),
        Some(id) => id,
    };
    match reservations {
        None => Err(AssetError::DependencyUnavailable),
        Some(v) => {
            if has_room_reservations(&v, id) {
                return Err(AssetError::HasActiveReservations);
            }
            if delete_room_by_id(store, id) {
                proof {
                    if old(store).linked() {
                        lemma_child_removal(old(store).storeys@, old(store).rooms@, id);
                    }
                }
                Ok(())
            } else {
                Err(AssetError::NotFound)
            }
        },
    }
}

} // verus!
