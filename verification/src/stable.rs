//! The durable structures that the store is built on, and what is taken on trust of them.
//!
//! The contracts here are not proved. The memory that the structures live in is made here
//! and never handed out, so nothing but the structures writes to it, and a structure finds
//! in its region only what it left there itself. A call that writes aborts where the memory
//! cannot grow, as any allocation may.

use ic_stable_structures::memory_manager::{MemoryId, MemoryManager, VirtualMemory};
use ic_stable_structures::storable::Blob;
use ic_stable_structures::{Cell, StableBTreeMap, VectorMemory};
use vstd::prelude::*;

verus! {

/// The persisted scalar from which identifiers are issued: a `Cell` in a region of its own.
#[verifier::external_body]
pub struct Counter {
    cell: Cell<u64, VirtualMemory<VectorMemory>>,
}

/// The persisted ordered map from identifier to the stored form of a message: a
/// `StableBTreeMap` in a region of its own, its values `Blob`s of at most 1024 bytes.
#[verifier::external_body]
pub struct Records {
    map: StableBTreeMap<u64, Blob<1024>, VirtualMemory<VectorMemory>>,
}

/// The two structures of a store, as they come from the memory: the counter, if it could
/// be set up, and the map.
pub struct Parts {
    pub counter: Option<Counter>,
    pub records: Records,
}

/// The value that the counter holds.
pub uninterp spec fn counter_value(counter: Counter) -> u64;

/// What the map holds: the bytes stored under each identifier.
pub uninterp spec fn records_contents(records: Records) -> Map<u64, Seq<u8>>;

/// The contents of a map that holds nothing.
pub open spec fn no_records() -> Map<u64, Seq<u8>> {
    Map::empty()
}

/// The tag of the region that the counter lives in.
pub uninterp spec fn counter_region(counter: Counter) -> u8;

/// The tag of the region that the map lives in.
pub uninterp spec fn records_region(records: Records) -> u8;

/// `MemoryManager::init` over a new `VectorMemory`, then `Cell::init` and
/// `StableBTreeMap::init`, each on the region that `MemoryManager::get` gives for
/// `MemoryId::new` of its tag. The memory is new and empty, so both structures are set up
/// anew: the counter holds the value given, which the cell can always store, and the map
/// holds nothing. Each lives in the region of its tag. `MemoryId::new` refuses the tag 255,
/// and two structures in one region would overwrite each other.
#[verifier::external_body]
pub(crate) fn new_parts(counter_tag: u8, records_tag: u8, first: u64) -> (parts: Parts)
    requires
        counter_tag < 255,
        records_tag < 255,
        counter_tag != records_tag,
    ensures
        match parts.counter {
            Some(counter) => counter_value(counter) == first && counter_region(counter)
                == counter_tag,
            None => false,
        },
        records_contents(parts.records) == no_records(),
        records_region(parts.records) == records_tag,
{
    let regions = MemoryManager::init(VectorMemory::default());
    let cell = Cell::init(regions.get(MemoryId::new(counter_tag)), first).ok();
    let map = StableBTreeMap::init(regions.get(MemoryId::new(records_tag)));
    Parts { counter: cell.map(|cell| Counter { cell }), records: Records { map } }
}

/// `Cell::init` on the memory that `Cell::into_memory` hands back: the region holds the
/// cell that the counter wrote, so the cell is read from it and holds the same value, in
/// the same region. The default is not used.
#[verifier::external_body]
pub(crate) fn counter_reopened(counter: Counter, default: u64) -> (found: Option<Counter>)
    ensures
        match found {
            Some(reopened) => counter_value(reopened) == counter_value(counter)
                && counter_region(reopened) == counter_region(counter),
            None => false,
        },
{
    Cell::init(counter.cell.into_memory(), default).ok().map(|cell| Counter { cell })
}

/// `StableBTreeMap::init` on the memory that `StableBTreeMap::into_memory` hands back: the
/// region holds the map that was written, so the map is loaded from it and holds the same,
/// in the same region.
#[verifier::external_body]
pub(crate) fn records_reopened(records: Records) -> (reopened: Records)
    ensures
        records_contents(reopened) == records_contents(records),
        records_region(reopened) == records_region(records),
{
    Records { map: StableBTreeMap::init(records.map.into_memory()) }
}

/// `Cell::get`: the value that the counter holds.
#[verifier::external_body]
pub(crate) fn counter_get(counter: &Counter) -> (value: u64)
    ensures
        value == counter_value(*counter),
{
    *counter.cell.get()
}

/// `Cell::set`: the counter then holds the new value, and the one it held is handed back.
/// The write cannot fail: it fails only where the memory must grow and cannot, and a cell
/// that exists has a page, which eight bytes never outgrow.
#[verifier::external_body]
pub(crate) fn counter_set(counter: &mut Counter, value: u64) -> (previous: Option<u64>)
    ensures
        previous == Some(counter_value(*old(counter))),
        counter_value(*final(counter)) == value,
        counter_region(*final(counter)) == counter_region(*old(counter)),
{
    counter.cell.set(value).ok()
}

/// `StableBTreeMap::get`: a copy of the bytes stored under the key, if any are; the map is
/// left as it is.
#[verifier::external_body]
pub(crate) fn records_get(records: &Records, key: u64) -> (found: Option<Vec<u8>>)
    ensures
        match found {
            Some(bytes) => records_contents(*records).contains_key(key) && bytes@
                == records_contents(*records)[key],
            None => !records_contents(*records).contains_key(key),
        },
{
    records.map.get(&key).map(|blob| blob.as_slice().to_vec())
}

/// `StableBTreeMap::insert` of the `Blob` that `Blob::try_from` makes of the bytes: the map
/// then holds the bytes under the key, in place of what it held there, and all else that it
/// held, in the same region. `Blob::try_from` refuses more than 1024 bytes.
#[verifier::external_body]
pub(crate) fn records_insert(records: &mut Records, key: u64, bytes: &[u8])
    requires
        bytes@.len() <= 1024,
    ensures
        records_contents(*final(records)) == records_contents(*old(records)).insert(key, bytes@),
        records_region(*final(records)) == records_region(*old(records)),
{
    let blob = Blob::try_from(bytes).unwrap();
    records.map.insert(key, blob);
}

} // verus!
