use vstd::prelude::*;
use crate::ids::AssetId;
use crate::models::{Building, Record, Storey};
use crate::service::{removal_verdict, AssetError};
use crate::store::upsert_effect;
use crate::table::{
    has_child, has_key, lemma_lookup_after_upsert, lemma_no_child_after_removal, lookup, removed_all,
    unique_keys,
};

verus! {

/// A building that a create-or-update returned is what a lookup of its
/// identifier then finds.
pub proof fn lemma_find_after_create(before: Seq<Building>, after: Seq<Building>, id: Option<AssetId>, b: Building)
    requires
        unique_keys(before),
        upsert_effect(before, after, id, Some(b)),
    ensures
        lookup(after, b.id) == Some(b),
{
    lemma_lookup_after_upsert(before, b);
}

/// A create-or-update given an identifier that no row has yet appends a row
/// under exactly that identifier.
pub proof fn lemma_keyed_insert<R: Record>(before: Seq<R>, after: Seq<R>, x: AssetId, row: R)
    requires
        unique_keys(before),
        !has_key(before, x),
        upsert_effect(before, after, Some(x), Some(row)),
    ensures
        row.key() == x,
        after == before.push(row),
        lookup(after, x) == Some(row),
{
    lemma_lookup_after_upsert(before, row);
}

/// A building with storeys cannot be deleted; once each of its storeys has
/// been deleted, the delete of an existing building succeeds.
pub proof fn lemma_building_delete_after_storeys(
    buildings: Seq<Building>,
    storeys: Seq<Storey>,
    id: AssetId,
    deleted: Seq<AssetId>,
)
    requires
        unique_keys(storeys),
        has_key(buildings, id),
        forall|i: int|
            0 <= i < storeys.len() && #[trigger] storeys[i].building_id == id ==> deleted.contains(storeys[i].id),
    ensures
        has_child(storeys, id) ==> removal_verdict(has_key(buildings, id), has_child(storeys, id)) == Err::<
            (),
            AssetError,
        >(AssetError::HasChildren),
        removal_verdict(has_key(buildings, id), has_child(removed_all(storeys, deleted), id)) == Ok::<
            (),
            AssetError,
        >(()),
{
    assert forall|i: int| 0 <= i < storeys.len() && #[trigger] storeys[i].link() == Some(id) implies deleted.contains(
        storeys[i].key(),
    ) by {
        assert(storeys[i].building_id == id);
    }
    lemma_no_child_after_removal(storeys, id, deleted);
}

} // verus!
