use vstd::prelude::*;
use crate::ids::AssetId;

verus! {

/// A row of one of the three tables: it has a primary key and, below the
/// root level, a reference to its parent row.
pub trait Record: Sized {
    /// The primary key of the row.
    spec fn key(&self) -> AssetId;

    /// The row's parent reference; `None` for a root-level row.
    spec fn link(&self) -> Option<AssetId>;

    fn id(&self) -> (r: AssetId)
        ensures
            r == self.key(),
    ;

    fn parent(&self) -> (r: Option<AssetId>)
        ensures
            r == self.link(),
    ;

    fn duplicate(&self) -> (r: Self)
        ensures
            r == *self,
    ;
}

/// A building: the root of the hierarchy.
#[derive(Debug, PartialEq, Eq)]
pub struct Building {
    pub id: AssetId,
    pub name: String,
    pub address: String,
}

/// A building as a request body gives it: the identifier may be left out.
#[derive(Debug, PartialEq, Eq)]
pub struct OptionalIDBuilding {
    pub id: Option<AssetId>,
    pub name: String,
    pub address: String,
}

/// A storey of a building.
#[derive(Debug, PartialEq, Eq)]
pub struct Storey {
    pub id: AssetId,
    pub name: String,
    pub building_id: AssetId,
}

/// A storey as a request body gives it: the identifier may be left out.
#[derive(Debug, PartialEq, Eq)]
pub struct OptionalIDStorey {
    pub id: Option<AssetId>,
    pub name: String,
    pub building_id: AssetId,
}

/// A room on a storey.
#[derive(Debug, PartialEq, Eq)]
pub struct Room {
    pub id: AssetId,
    pub name: String,
    pub storey_id: AssetId,
}

/// A room as a request body gives it: the identifier may be left out.
#[derive(Debug, PartialEq, Eq)]
pub struct OptionalIDRoom {
    pub id: Option<AssetId>,
    pub name: String,
    pub storey_id: AssetId,
}

/// A reservation of a room, as the reservation service reports it.
#[derive(Debug, PartialEq, Eq)]
pub struct Reservation {
    pub id: AssetId,
    pub from: String,
    pub to: String,
    pub room_id: AssetId,
}

impl Record for Building {
    open spec fn key(&self) -> AssetId {
        self.id
    }

    open spec fn link(&self) -> Option<AssetId> {
        None
    }

    fn id(&self) -> (r: AssetId) {
        self.id
    }

    fn parent(&self) -> (r: Option<AssetId>) {
        None
    }

    fn duplicate(&self) -> (r: Self) {
        Building { id: self.id, name: self.name.clone(), address: self.address.clone() }
    }
}

impl Record for Storey {
    open spec fn key(&self) -> AssetId {
        self.id
    }

    open spec fn link(&self) -> Option<AssetId> {
        Some(self.building_id)
    }

    fn id(&self) -> (r: AssetId) {
        self.id
    }

    fn parent(&self) -> (r: Option<AssetId>) {
        Some(self.building_id)
    }

    fn duplicate(&self) -> (r: Self) {
        Storey { id: self.id, name: self.name.clone(), building_id: self.building_id }
    }
}

impl Record for Room {
    open spec fn key(&self) -> AssetId {
        self.id
    }

    open spec fn link(&self) -> Option<AssetId> {
        Some(self.storey_id)
    }

    fn id(&self) -> (r: AssetId) {
        self.id
    }

    fn parent(&self) -> (r: Option<AssetId>) {
        Some(self.storey_id)
    }

    fn duplicate(&self) -> (r: Self) {
        Room { id: self.id, name: self.name.clone(), storey_id: self.storey_id }
    }
}

} // verus!
