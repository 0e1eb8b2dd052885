use vstd::prelude::*;
use crate::ids::AssetId;
use crate::models::Record;

verus! {

/// No two rows share a primary key.
pub open spec fn unique_keys<R: Record>(rows: Seq<R>) -> bool {
    forall|i: int, j: int|
        0 <= i < rows.len() && 0 <= j < rows.len() && #[trigger] rows[i].key() == #[trigger] rows[j].key()
            ==> i == j
}

/// Some row has primary key `id`.
pub open spec fn has_key<R: Record>(rows: Seq<R>, id: AssetId) -> bool {
    exists|i: int| 0 <= i < rows.len() && #[trigger] rows[i].key() == id
}

/// The position of the row with primary key `id`, where there is one.
pub open spec fn position_of<R: Record>(rows: Seq<R>, id: AssetId) -> int {
    choose|i: int| 0 <= i < rows.len() && #[trigger] rows[i].key() == id
}

/// The row with primary key `id`, if any.
pub open spec fn lookup<R: Record>(rows: Seq<R>, id: AssetId) -> Option<R> {
    if has_key(rows, id) {
        Some(rows[position_of(rows, id)])
    } else {
        None
    }
}

/// Some row refers to `parent`.
pub open spec fn has_child<R: Record>(rows: Seq<R>, parent: AssetId) -> bool {
    exists|i: int| 0 <= i < rows.len() && #[trigger] rows[i].link() == Some(parent)
}

/// Whether a row refers to `parent`.
pub open spec fn refers_to<R: Record>(parent: AssetId) -> spec_fn(R) -> bool {
    |r: R| r.link() == Some(parent)
}

/// The rows that refer to `parent`, in table order.
pub open spec fn children_of<R: Record>(rows: Seq<R>, parent: AssetId) -> Seq<R> {
    rows.filter(refers_to(parent))
}

/// The table after writing `row` under its key: the row of that key is
/// replaced in place, or `row` is appended when the key is new.
pub open spec fn upserted<R: Record>(rows: Seq<R>, row: R) -> Seq<R> {
    if has_key(rows, row.key()) {
        rows.update(position_of(rows, row.key()), row)
    } else {
        rows.push(row)
    }
}

/// The table after removing the row with key `id`, if there is one.
pub open spec fn removed<R: Record>(rows: Seq<R>, id: AssetId) -> Seq<R> {
    if has_key(rows, id) {
        rows.remove(position_of(rows, id))
    } else {
        rows
    }
}

/// With unique keys, the row found at a position holding `id` is the one
/// `lookup` gives.
pub proof fn lemma_lookup_at<R: Record>(rows: Seq<R>, i: int)
    requires
        unique_keys(rows),
        0 <= i < rows.len(),
    ensures
        has_key(rows, rows[i].key()),
        position_of(rows, rows[i].key()) == i,
        lookup(rows, rows[i].key()) == Some(rows[i]),
{
    let id = rows[i].key();
    assert(has_key(rows, id));
    let j = position_of(rows, id);
    assert(rows[j].key() == id);
}

/// The table after removing, one after the other, the rows with the keys of
/// `ids`.
pub open spec fn removed_all<R: Record>(rows: Seq<R>, ids: Seq<AssetId>) -> Seq<R>
    decreases ids.len(),
{
    if ids.len() == 0 {
        rows
    } else {
        removed(removed_all(rows, ids.drop_last()), ids.last())
    }
}

/// Writing a row keeps keys unique, and the row is then found under its key.
pub proof fn lemma_lookup_after_upsert<R: Record>(rows: Seq<R>, row: R)
    requires
        unique_keys(rows),
    ensures
        unique_keys(upserted(rows, row)),
        lookup(upserted(rows, row), row.key()) == Some(row),
{
    let id = row.key();
    let after = upserted(rows, row);
    if has_key(rows, id) {
        let p = position_of(rows, id);
        assert(rows[p].key() == id);
        assert forall|a: int, b: int|
            0 <= a < after.len() && 0 <= b < after.len() && #[trigger] after[a].key() == #[trigger] after[b].key()
                implies a == b by {
            if a != p && b != p {
                assert(rows[a].key() == rows[b].key());
            } else if a == p && b != p {
                assert(rows[b].key() == rows[p].key());
            } else if b == p && a != p {
                assert(rows[a].key() == rows[p].key());
            }
        }
        lemma_lookup_at(after, p);
    } else {
        let n = rows.len() as int;
        assert forall|a: int, b: int|
            0 <= a < after.len() && 0 <= b < after.len() && #[trigger] after[a].key() == #[trigger] after[b].key()
                implies a == b by {
            if a == n && b != n {
                assert(rows[b].key() == id);
            } else if b == n && a != n {
                assert(rows[a].key() == id);
            } else if a != n && b != n {
                assert(rows[a].key() == rows[b].key());
            }
        }
        lemma_lookup_at(after, n);
    }
}

/// Removing a row keeps keys unique, and every row left was there before
/// and has another key.
pub proof fn lemma_removed<R: Record>(rows: Seq<R>, id: AssetId)
    requires
        unique_keys(rows),
    ensures
        unique_keys(removed(rows, id)),
        forall|j: int|
            0 <= j < removed(rows, id).len() ==> rows.contains(#[trigger] removed(rows, id)[j])
                && removed(rows, id)[j].key() != id,
{
    let after = removed(rows, id);
    if has_key(rows, id) {
        let p = position_of(rows, id);
        assert(rows[p].key() == id);
        assert forall|j: int| 0 <= j < after.len() implies rows.contains(#[trigger] after[j]) && after[j].key() != id by {
            let k = if j < p { j } else { j + 1 };
            assert(after[j] == rows[k]);
            assert(k != p);
        }
        assert forall|a: int, b: int|
            0 <= a < after.len() && 0 <= b < after.len() && #[trigger] after[a].key() == #[trigger] after[b].key()
                implies a == b by {
            let a2 = if a < p { a } else { a + 1 };
            let b2 = if b < p { b } else { b + 1 };
            assert(after[a] == rows[a2]);
            assert(after[b] == rows[b2]);
        }
    } else {
        assert forall|j: int| 0 <= j < after.len() implies rows.contains(#[trigger] after[j]) && after[j].key() != id by {
            assert(after[j] == rows[j]);
        }
    }
}

/// After removing the rows with the keys of `ids`, keys stay unique and no
/// row left has one of those keys.
pub proof fn lemma_removed_all<R: Record>(rows: Seq<R>, ids: Seq<AssetId>)
    requires
        unique_keys(rows),
    ensures
        unique_keys(removed_all(rows, ids)),
        forall|j: int|
            0 <= j < removed_all(rows, ids).len() ==> rows.contains(#[trigger] removed_all(rows, ids)[j])
                && !ids.contains(removed_all(rows, ids)[j].key()),
    decreases ids.len(),
{
    if ids.len() > 0 {
        let prev_ids = ids.drop_last();
        let last = ids.last();
        let prev = removed_all(rows, prev_ids);
        lemma_removed_all(rows, prev_ids);
        lemma_removed(prev, last);
        let after = removed(prev, last);
        assert(after == removed_all(rows, ids));
        assert forall|j: int| 0 <= j < after.len() implies rows.contains(#[trigger] after[j]) && !ids.contains(after[j].key()) by {
            assert(prev.contains(after[j]));
            let k = choose|k: int| 0 <= k < prev.len() && prev[k] == after[j];
            assert(rows.contains(prev[k]));
            assert(!prev_ids.contains(prev[k].key()));
            let key = after[j].key();
            if ids.contains(key) {
                let i = choose|i: int| 0 <= i < ids.len() && ids[i] == key;
                if i < ids.len() - 1 {
                    assert(prev_ids[i] == key);
                } else {
                    assert(key == last);
                }
            }
        }
    }
}

/// Once every row that refers to `parent` has been removed, none refers to
/// it.
pub proof fn lemma_no_child_after_removal<R: Record>(rows: Seq<R>, parent: AssetId, ids: Seq<AssetId>)
    requires
        unique_keys(rows),
        forall|i: int| 0 <= i < rows.len() && #[trigger] rows[i].link() == Some(parent) ==> ids.contains(rows[i].key()),
    ensures
        !has_child(removed_all(rows, ids), parent),
{
    let after = removed_all(rows, ids);
    lemma_removed_all(rows, ids);
    if has_child(after, parent) {
        let j = choose|j: int| 0 <= j < after.len() && #[trigger] after[j].link() == Some(parent);
        assert(rows.contains(after[j]));
        let k = choose|k: int| 0 <= k < rows.len() && rows[k] == after[j];
        assert(rows[k].link() == Some(parent));
    }
}

/// Every row of `children` that refers to a parent refers to a row of
/// `parents`.
pub open spec fn parents_present<P: Record, C: Record>(parents: Seq<P>, children: Seq<C>) -> bool {
    forall|i: int|
        0 <= i < children.len() && (#[trigger] children[i].link()) is Some ==> has_key(
            parents,
            children[i].link()->Some_0,
        )
}

/// Writing a row keeps every key that was there.
pub proof fn lemma_upsert_keeps_keys<R: Record>(rows: Seq<R>, row: R, k: AssetId)
    requires
        has_key(rows, k),
    ensures
        has_key(upserted(rows, row), k),
{
    let after = upserted(rows, row);
    let i = choose|i: int| 0 <= i < rows.len() && #[trigger] rows[i].key() == k;
    if has_key(rows, row.key()) {
        let p = position_of(rows, row.key());
        assert(rows[p].key() == row.key());
        assert(after[i].key() == k);
    } else {
        assert(after[i] == rows[i]);
    }
}

/// Rewriting a parent table keeps its children's references good.
pub proof fn lemma_parent_upsert<P: Record, C: Record>(parents: Seq<P>, children: Seq<C>, row: P)
    requires
        parents_present(parents, children),
    ensures
        parents_present(upserted(parents, row), children),
{
    assert forall|i: int| 0 <= i < children.len() && (#[trigger] children[i].link()) is Some implies has_key(
        upserted(parents, row),
        children[i].link()->Some_0,
    ) by {
        lemma_upsert_keeps_keys(parents, row, children[i].link()->Some_0);
    }
}

/// Writing a child whose parent exists keeps every reference good.
pub proof fn lemma_child_upsert<P: Record, C: Record>(parents: Seq<P>, children: Seq<C>, row: C)
    requires
        parents_present(parents, children),
        row.link() is Some ==> has_key(parents, row.link()->Some_0),
    ensures
        parents_present(parents, upserted(children, row)),
{
    let after = upserted(children, row);
    assert forall|j: int| 0 <= j < after.len() && (#[trigger] after[j].link()) is Some implies has_key(
        parents,
        after[j].link()->Some_0,
    ) by {
        if has_key(children, row.key()) {
            let p = position_of(children, row.key());
            if j != p {
                assert(after[j] == children[j]);
            }
        } else if j < children.len() {
            assert(after[j] == children[j]);
        }
    }
}

/// Removing a row keeps every other key.
pub proof fn lemma_removed_keeps_keys<R: Record>(rows: Seq<R>, id: AssetId, k: AssetId)
    requires
        unique_keys(rows),
        has_key(rows, k),
        k != id,
    ensures
        has_key(removed(rows, id), k),
{
    let i = choose|i: int| 0 <= i < rows.len() && #[trigger] rows[i].key() == k;
    if has_key(rows, id) {
        let p = position_of(rows, id);
        assert(rows[p].key() == id);
        let after = removed(rows, id);
        if i < p {
            assert(after[i] == rows[i]);
        } else {
            assert(i != p);
            assert(after[i - 1] == rows[i]);
        }
    }
}

/// Removing a parent that no child refers to keeps every reference good.
pub proof fn lemma_parent_removal<P: Record, C: Record>(parents: Seq<P>, children: Seq<C>, id: AssetId)
    requires
        unique_keys(parents),
        parents_present(parents, children),
        !has_child(children, id),
    ensures
        parents_present(removed(parents, id), children),
{
    assert forall|i: int| 0 <= i < children.len() && (#[trigger] children[i].link()) is Some implies has_key(
        removed(parents, id),
        children[i].link()->Some_0,
    ) by {
        let k = children[i].link()->Some_0;
        if k == id {
            assert(children[i].link() == Some(id));
        }
        lemma_removed_keeps_keys(parents, id, k);
    }
}

/// Removing a child keeps every remaining reference good.
pub proof fn lemma_child_removal<P: Record, C: Record>(parents: Seq<P>, children: Seq<C>, id: AssetId)
    requires
        unique_keys(children),
        parents_present(parents, children),
    ensures
        parents_present(parents, removed(children, id)),
{
    lemma_removed(children, id);
    let after = removed(children, id);
    assert forall|j: int| 0 <= j < after.len() && (#[trigger] after[j].link()) is Some implies has_key(
        parents,
        after[j].link()->Some_0,
    ) by {
        assert(children.contains(after[j]));
        let k = choose|k: int| 0 <= k < children.len() && children[k] == after[j];
        assert(children[k].link() is Some);
    }
}

/// Rows of one kind, keyed by a unique identifier.
pub struct Table<R> {
    rows: Vec<R>,
}

impl<R: Record> View for Table<R> {
    type V = Seq<R>;

    closed spec fn view(&self) -> Seq<R> {
        self.rows@
    }
}

impl<R: Record> Table<R> {
    /// Keys are unique.
    pub open spec fn wf(&self) -> bool {
        unique_keys(self@)
    }

    pub fn new() -> (r: Self)
        ensures
            r.wf(),
            r@ == Seq::<R>::empty(),
    {
        Table { rows: Vec::new() }
    }

    fn index_of(&self, id: AssetId) -> (r: Option<usize>)
        requires
            self.wf(),
        ensures
            match r {
                Some(i) => i < self@.len() && self@[i as int].key() == id && position_of(self@, id) == i,
                None => !has_key(self@, id),
            },
    {
        let mut i: usize = 0;
        while i < self.rows.len()
            invariant
                i <= self.rows@.len(),
                self@ == self.rows@,
                self.wf(),
                forall|k: int| 0 <= k < i ==> #[trigger] self.rows@[k].key() != id,
            decreases self.rows@.len() - i,
        {
            if self.rows[i].id() == id {
                proof {
                    lemma_lookup_at(self@, i as int);
                }
                return Some(i);
            }
            i = i + 1;
        }
        None
    }

    /// The row with key `id`, if any.
    pub fn find(&self, id: AssetId) -> (r: Option<R>)
        requires
            self.wf(),
        ensures
            r == lookup(self@, id),
    {
        match self.index_of(id) {
            Some(i) => {
                proof {
                    lemma_lookup_at(self@, i as int);
                }
                Some(self.rows[i].duplicate())
            },
            None => None,
        }
    }

    /// Whether some row has key `id`.
    pub fn contains(&self, id: AssetId) -> (r: bool)
        requires
            self.wf(),
        ensures
            r == has_key(self@, id),
    {
        self.index_of(id).is_some()
    }

    /// Whether some row refers to `parent`.
    pub fn exists_with_parent(&self, parent: AssetId) -> (r: bool)
        ensures
            r == has_child(self@, parent),
    {
        let mut i: usize = 0;
        while i < self.rows.len()
            invariant
                i <= self.rows@.len(),
                self@ == self.rows@,
                forall|k: int| 0 <= k < i ==> #[trigger] self.rows@[k].link() != Some(parent),
            decreases self.rows@.len() - i,
        {
            if self.rows[i].parent() == Some(parent) {
                return true;
            }
            i = i + 1;
        }
        false
    }

    /// Every row, in table order.
    pub fn list_all(&self) -> (r: Vec<R>)
        ensures
            r@ == self@,
    {
        let mut out: Vec<R> = Vec::new();
        let mut i: usize = 0;
        while i < self.rows.len()
            invariant
                i <= self.rows@.len(),
                self@ == self.rows@,
                out@ == self.rows@.subrange(0, i as int),
            decreases self.rows@.len() - i,
        {
            out.push(self.rows[i].duplicate());
            i = i + 1;
            assert(out@ =~= self.rows@.subrange(0, i as int));
        }
        assert(out@ =~= self.rows@);
        out
    }

    /// The rows that refer to `parent`, in table order.
    pub fn list_by_parent(&self, parent: AssetId) -> (r: Vec<R>)
        ensures
            r@ == children_of(self@, parent),
    {
        let ghost pred = refers_to::<R>(parent);
        let mut out: Vec<R> = Vec::new();
        let mut i: usize = 0;
        while i < self.rows.len()
            invariant
                i <= self.rows@.len(),
                self@ == self.rows@,
                pred == refers_to::<R>(parent),
                out@ == self.rows@.subrange(0, i as int).filter(pred),
            decreases self.rows@.len() - i,
        {
            let ghost before = self.rows@.subrange(0, i as int);
            let ghost out_before = out@;
            let p = self.rows[i].parent();
            assert(pred(self.rows@[i as int]) == (self.rows@[i as int].link() == Some(parent)));
            if p == Some(parent) {
                out.push(self.rows[i].duplicate());
            }
            proof {
                let after = self.rows@.subrange(0, i as int + 1);
                assert(after.len() == i as int + 1);
                assert(after.drop_last() =~= before);
                assert(after.last() == self.rows@[i as int]);
                reveal(Seq::filter);
                assert(after.filter(pred) == if pred(after.last()) {
                    before.filter(pred).push(after.last())
                } else {
                    before.filter(pred)
                });
            }
            i = i + 1;
        }
        assert(self.rows@.subrange(0, self.rows@.len() as int) =~= self.rows@);
        out
    }

    /// Writes `row` under its key: replaces the row of that key in place, or
    /// appends `row` when the key is new.
    pub fn upsert(&mut self, row: R)
        requires
            old(self).wf(),
        ensures
            final(self).wf(),
            final(self)@ == upserted(old(self)@, row),
    {
        let ghost before = self@;
        match self.index_of(row.id()) {
            Some(i) => {
                self.rows.set(i, row);
            },
            None => {
                self.rows.push(row);
            },
        }
        proof {
            lemma_lookup_after_upsert(before, row);
            assert(self@ =~= upserted(before, row));
        }
    }

    /// Removes the row with key `id`; reports whether there was one.
    pub fn delete(&mut self, id: AssetId) -> (r: bool)
        requires
            old(self).wf(),
        ensures
            final(self).wf(),
            r == has_key(old(self)@, id),
            final(self)@ == removed(old(self)@, id),
    {
        let ghost before = self@;
        let r = match self.index_of(id) {
            Some(i) => {
                self.rows.remove(i);
                true
            },
            None => false,
        };
        proof {
            lemma_removed(before, id);
            assert(self@ =~= removed(before, id));
        }
        r
    }
}

} // verus!
