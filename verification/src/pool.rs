use vstd::prelude::*;
use crate::key::NULL_ID;

verus! {

/// The most entries that a pool takes.
pub const POOL_LIMIT: usize = 0xffff_fffe;

/// A table of stable handles, each leading to a slot number: a slot map
/// from handles to `usize`.
#[verifier::external_body]
pub struct HandleTable {
    inner: slotmap::SlotMap<slotmap::DefaultKey, usize>,
}

/// What a table of handles holds: for the number of each live handle, the
/// slot it leads to.
pub uninterp spec fn handles(table: HandleTable) -> Map<u64, usize>;

/// The number of the handle that a given number is read as: a handle's
/// version is always odd.
pub open spec fn canonical(id: u64) -> u64 {
    id | 0x1_0000_0000
}

/// The table without a handle.
pub open spec fn no_handles() -> Map<u64, usize> {
    Map::empty()
}

/// `SlotMap::new`: a fresh table holds nothing.
#[verifier::external_body]
fn table_new() -> (table: HandleTable)
    ensures
        handles(table) == no_handles(),
{
    HandleTable { inner: slotmap::SlotMap::new() }
}

/// `SlotMap::insert`, the new handle given by `KeyData::as_ffi`: the table
/// gains one entry, under a handle that it did not hold, which is not the
/// null handle and reads back as itself. The slot map must not be full.
#[verifier::external_body]
fn table_insert(table: &mut HandleTable, slot: usize) -> (id: u64)
    requires
        handles(*old(table)).dom().finite(),
        handles(*old(table)).len() < POOL_LIMIT,
    ensures
        !handles(*old(table)).contains_key(id),
        handles(*final(table)) == handles(*old(table)).insert(id, slot),
        id != NULL_ID,
        canonical(id) == id,
{
    slotmap::Key::data(&table.inner.insert(slot)).as_ffi()
}

/// `SlotMap::get`, the handle made by `KeyData::from_ffi`: the slot under
/// the handle that the number is read as, if the table holds it.
#[verifier::external_body]
fn table_get(table: &HandleTable, id: u64) -> (slot: Option<usize>)
    ensures
        slot == (if handles(*table).contains_key(canonical(id)) {
            Some(handles(*table)[canonical(id)])
        } else {
            None
        }),
{
    table.inner.get(slotmap::KeyData::from_ffi(id).into()).copied()
}

/// A pool of values under stable handles: values are added and looked up,
/// never removed.
pub struct Pool<V> {
    table: HandleTable,
    items: Vec<V>,
}

impl<V> Pool<V> {
    /// Every handle leads to a value of the pool.
    pub closed spec fn well_formed(&self) -> bool {
        &&& handles(self.table).dom().finite()
        &&& handles(self.table).len() == self.items@.len()
        &&& forall|id: u64| #[trigger]
            handles(self.table).contains_key(id) ==> handles(self.table)[id] < self.items@.len()
                && canonical(id) == id && id != NULL_ID
    }

    /// The values of the pool, each under the number of its handle.
    pub closed spec fn view(&self) -> Map<u64, V> {
        Map::new(
            |id: u64| handles(self.table).contains_key(id),
            |id: u64| self.items@[handles(self.table)[id] as int],
        )
    }

    /// The number of values.
    pub closed spec fn spec_len(&self) -> nat {
        self.items@.len()
    }

    /// The values in the order in which they came.
    pub closed spec fn items(&self) -> Seq<V> {
        self.items@
    }

    /// Each value under a handle is one of the values that came.
    pub proof fn lemma_items(&self)
        requires
            self.well_formed(),
        ensures
            self.items().len() == self.spec_len(),
            forall|id: u64| #[trigger]
                self@.contains_key(id) ==> exists|i: int|
                    0 <= i < self.items().len() && self.items()[i] == self@[id],
    {
        assert forall|id: u64| #[trigger] self@.contains_key(id) implies exists|i: int|
            0 <= i < self.items().len() && self.items()[i] == self@[id] by {
            let i = handles(self.table)[id] as int;
            assert(0 <= i < self.items().len() && self.items()[i] == self@[id]);
        }
    }

    /// What a lookup under a handle's number finds.
    pub open spec fn spec_get(&self, id: u64) -> Option<V> {
        if self@.contains_key(canonical(id)) {
            Some(self@[canonical(id)])
        } else {
            None
        }
    }

    pub fn new() -> (pool: Pool<V>)
        ensures
            pool.well_formed(),
            pool@ == Map::<u64, V>::empty(),
            pool.spec_len() == 0,
    {
        let pool = Pool { table: table_new(), items: Vec::new() };
        pool
    }

    pub fn len(&self) -> (n: usize)
        ensures
            n == self.spec_len(),
            n == self.items().len(),
    {
        self.items.len()
    }

    /// The value that came as number `i`, if that many came.
    pub fn item(&self, i: usize) -> (r: Option<&V>)
        ensures
            r == (if i < self.items().len() {
                Some(&self.items()[i as int])
            } else {
                None
            }),
    {
        if i < self.items.len() {
            Some(&self.items[i])
        } else {
            None
        }
    }

    /// Adds a value and hands out its handle's number, which led to nothing
    /// before and is not the null handle's.
    pub fn insert(&mut self, value: V) -> (id: u64)
        requires
            old(self).well_formed(),
            old(self).spec_len() < POOL_LIMIT,
        ensures
            final(self).well_formed(),
            !old(self)@.contains_key(id),
            final(self)@ == old(self)@.insert(id, value),
            final(self).spec_len() == old(self).spec_len() + 1,
            final(self).items() == old(self).items().push(value),
            id != NULL_ID,
            canonical(id) == id,
    {
        let slot: usize = self.items.len();
        let id = table_insert(&mut self.table, slot);
        self.items.push(value);
        id
    }

    /// The value under a handle's number, if the pool holds one. The null
    /// handle leads to none.
    pub fn get(&self, id: u64) -> (r: Option<&V>)
        requires
            self.well_formed(),
        ensures
            r == (match self.spec_get(id) {
                Some(v) => Some(&v),
                None => None,
            }),
            canonical(id) == NULL_ID ==> r is None,
    {
        match table_get(&self.table, id) {
            Some(slot) => Some(&self.items[slot]),
            None => None,
        }
    }
}

} // verus!
