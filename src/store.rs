use vstd::prelude::*;
use crate::ids::{AssetId, new_asset_id};
use crate::models::{Building, Record, Room, Storey};
use crate::table::{children_of, has_child, has_key, lookup, parents_present, removed, upserted, Table};

verus! {

/// The three tables of the hierarchy.
pub struct AssetStore {
    pub buildings: Table<Building>,
    pub storeys: Table<Storey>,
    pub rooms: Table<Room>,
}

impl AssetStore {
    /// Every table keeps its keys unique.
    pub open spec fn wf(&self) -> bool {
        self.buildings.wf() && self.storeys.wf() && self.rooms.wf()
    }

    /// Every storey's building exists, and every room's storey exists.
    pub open spec fn linked(&self) -> bool {
        parents_present(self.buildings@, self.storeys@) && parents_present(self.storeys@, self.rooms@)
    }

    /// A store with three empty tables.
    pub fn new() -> (r: Self)
        ensures
            r.wf(),
            r.linked(),
            r.buildings@.len() == 0,
            r.storeys@.len() == 0,
            r.rooms@.len() == 0,
    {
        AssetStore { buildings: Table::new(), storeys: Table::new(), rooms: Table::new() }
    }
}

/// What a create-or-update leaves behind in a table. With an identifier
/// given, the row is written under exactly that identifier. Without one, a
/// fresh identifier is drawn; should it collide with a stored key, the write
/// is refused as a primary-key violation and nothing changes.
pub open spec fn upsert_effect<R: Record>(
    before: Seq<R>,
    after: Seq<R>,
    id: Option<AssetId>,
    r: Option<R>,
) -> bool {
    match r {
        Some(row) => {
            &&& after == upserted(before, row)
            &&& match id {
                Some(x) => row.key() == x,
                None => !has_key(before, row.key()),
            }
        },
        None => id is None && after == before,
    }
}

/// Writes `row` under its key. Where `keyed` is false the key was drawn at
/// random and the write is refused if it is already taken.
pub fn write_row<R: Record>(table: &mut Table<R>, row: R, keyed: bool) -> (r: Option<R>)
    requires
        old(table).wf(),
    ensures
        final(table).wf(),
        keyed ==> r == Some(row) && final(table)@ == upserted(old(table)@, row),
        !keyed ==> match r {
            Some(x) => x == row && !has_key(old(table)@, row.key()) && final(table)@ == upserted(
                old(table)@,
                row,
            ),
            None => has_key(old(table)@, row.key()) && final(table)@ == old(table)@,
        },
{
    if !keyed && table.contains(row.id()) {
        return None;
    }
    let copy = row.duplicate();
    table.upsert(row);
    Some(copy)
}

/// Every building.
pub fn get_buildings(store: &AssetStore) -> (r: Vec<Building>)
    ensures
        r@ == store.buildings@,
{
    store.buildings.list_all()
}

/// The building with identifier `id`, if any.
pub fn find_building_by_id(store: &AssetStore, id: AssetId) -> (r: Option<Building>)
    requires
        store.wf(),
    ensures
        r == lookup(store.buildings@, id),
{
    store.buildings.find(id)
}

/// Writes a building under `id`, or under a fresh identifier when `id` is
/// absent, and returns the row as stored.
pub fn create_or_update_building(
    store: &mut AssetStore,
    id: Option<AssetId>,
    building_name: String,
    building_address: String,
) -> (r: Option<Building>)
    requires
        old(store).wf(),
    ensures
        final(store).wf(),
        upsert_effect(old(store).buildings@, final(store).buildings@, id, r),
        r is None ==> id is None && old(store).buildings@.len() > 0,
        r matches Some(b) ==> b.name == building_name && b.address == building_address,
        final(store).storeys@ == old(store).storeys@,
        final(store).rooms@ == old(store).rooms@,
{
    let keyed = id.is_some();
    let key = match id {
        Some(x) => x,
        None => new_asset_id(),
    };
    let row = Building { id: key, name: building_name, address: building_address };
    write_row(&mut store.buildings, row, keyed)
}

/// Removes the building with identifier `id`; true iff there was one.
pub fn delete_building_by_id(store: &mut AssetStore, id: AssetId) -> (r: bool)
    requires
        old(store).wf(),
    ensures
        final(store).wf(),
        r == has_key(old(store).buildings@, id),
        final(store).buildings@ == removed(old(store).buildings@, id),
        final(store).storeys@ == old(store).storeys@,
        final(store).rooms@ == old(store).rooms@,
{
    store.buildings.delete(id)
}

/// Whether some storey belongs to the building `id`.
pub fn has_storeys(store: &AssetStore, id: AssetId) -> (r: bool)
    ensures
        r == has_child(store.storeys@, id),
{
    store.storeys.exists_with_parent(id)
}

/// Every storey.
pub fn get_storeys(store: &AssetStore) -> (r: Vec<Storey>)
    ensures
        r@ == store.storeys@,
{
    store.storeys.list_all()
}

/// The storeys of the building `id`.
pub fn storeys_by_building(store: &AssetStore, id: AssetId) -> (r: Vec<Storey>)
    ensures
        r@ == children_of(store.storeys@, id),
{
    store.storeys.list_by_parent(id)
}

/// The storey with identifier `id`, if any.
pub fn find_storey_by_id(store: &AssetStore, id: AssetId) -> (r: Option<Storey>)
    requires
        store.wf(),
    ensures
        r == lookup(store.storeys@, id),
{
    store.storeys.find(id)
}

/// Writes a storey under `id`, or under a fresh identifier when `id` is
/// absent, and returns the row as stored. The building is not checked here.
pub fn create_or_update_storey(
    store: &mut AssetStore,
    id: Option<AssetId>,
    storey_name: String,
    storey_building_id: AssetId,
) -> (r: Option<Storey>)
    requires
        old(store).wf(),
    ensures
        final(store).wf(),
        upsert_effect(old(store).storeys@, final(store).storeys@, id, r),
        r is None ==> id is None && old(store).storeys@.len() > 0,
        r matches Some(s) ==> s.name == storey_name && s.building_id == storey_building_id,
        final(store).buildings@ == old(store).buildings@,
        final(store).rooms@ == old(store).rooms@,
{
    let keyed = id.is_some();
    let key = match id {
        Some(x) => x,
        None => new_asset_id(),
    };
    let row = Storey { id: key, name: storey_name, building_id: storey_building_id };
    write_row(&mut store.storeys, row, keyed)
}

/// Removes the storey with identifier `id`; true iff there was one.
pub fn delete_storey_by_id(store: &mut AssetStore, id: AssetId) -> (r: bool)
    requires
        old(store).wf(),
    ensures
        final(store).wf(),
        r == has_key(old(store).storeys@, id),
        final(store).storeys@ == removed(old(store).storeys@, id),
        final(store).buildings@ == old(store).buildings@,
        final(store).rooms@ == old(store).rooms@,
{
    store.storeys.delete(id)
}

/// Whether some room belongs to the storey `id`.
pub fn has_rooms(store: &AssetStore, id: AssetId) -> (r: bool)
    ensures
        r == has_child(store.rooms@, id),
{
    store.rooms.exists_with_parent(id)
}

/// Every room.
pub fn get_rooms(store: &AssetStore) -> (r: Vec<Room>)
    ensures
        r@ == store.rooms@,
{
    store.rooms.list_all()
}

/// The rooms of the storey `id`.
pub fn rooms_by_storey(store: &AssetStore, id: AssetId) -> (r: Vec<Room>)
    ensures
        r@ == children_of(store.rooms@, id),
{
    store.rooms.list_by_parent(id)
}

/// The room with identifier `id`, if any.
pub fn find_room_by_id(store: &AssetStore, id: AssetId) -> (r: Option<Room>)
    requires
        store.wf(),
    ensures
        r == lookup(store.rooms@, id),
{
    store.rooms.find(id)
}

/// Writes a room under `id`, or under a fresh identifier when `id` is
/// absent, and returns the row as stored. The storey is not checked here.
pub fn create_or_update_room(
    store: &mut AssetStore,
    id: Option<AssetId>,
    room_name: String,
    room_storey_id: AssetId,
) -> (r: Option<Room>)
    requires
        old(store).wf(),
    ensures
        final(store).wf(),
        upsert_effect(old(store).rooms@, final(store).rooms@, id, r),
        r is None ==> id is None && old(store).rooms@.len() > 0,
        r matches Some(m) ==> m.name == room_name && m.storey_id == room_storey_id,
        final(store).buildings@ == old(store).buildings@,
        final(store).storeys@ == old(store).storeys@,
{
    let keyed = id.is_some();
    let key = match id {
        Some(x) => x,
        None => new_asset_id(),
    };
    let row = Room { id: key, name: room_name, storey_id: room_storey_id };
    write_row(&mut store.rooms, row, keyed)
}

/// Removes the room with identifier `id`; true iff there was one.
pub fn delete_room_by_id(store: &mut AssetStore, id: AssetId) -> (r: bool)
    requires
        old(store).wf(),
    ensures
        final(store).wf(),
        r == has_key(old(store).rooms@, id),
        final(store).rooms@ == removed(old(store).rooms@, id),
        final(store).buildings@ == old(store).buildings@,
        final(store).storeys@ == old(store).storeys@,
{
    store.rooms.delete(id)
}

} // verus!
