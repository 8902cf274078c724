//! Persistent structures, kept in regions of one stable memory: the
//! identifier counter and the ordered map from identifier to encoded record.
use ic_stable_structures::memory_manager::{MemoryId, MemoryManager, VirtualMemory};
use ic_stable_structures::storable::Blob;
use ic_stable_structures::{Cell, DefaultMemoryImpl, StableBTreeMap};
use vstd::prelude::*;

verus! {

/// Region of the identifier counter; fixed for the life of the persisted data.
pub const COUNTER_REGION: u8 = 0;

/// Region of the record map; fixed for the life of the persisted data.
pub const RECORD_REGION: u8 = 1;

/// Largest value that the record map accepts, in bytes.
pub const MAX_VALUE_SIZE: usize = 2048;

/// The stable memory, split by region number into independent memories.
#[verifier::external_body]
pub struct Regions {
    manager: MemoryManager<DefaultMemoryImpl>,
}

/// A single persisted `u64`.
#[verifier::external_body]
pub struct IdCounter {
    cell: Cell<u64, VirtualMemory<DefaultMemoryImpl>>,
}

/// A persisted ordered map from `u64` keys to byte strings.
#[verifier::external_body]
pub struct RecordMap {
    map: StableBTreeMap<u64, Blob<2048>, VirtualMemory<DefaultMemoryImpl>>,
}

/// The value held by a counter.
pub uninterp spec fn counter_value(c: IdCounter) -> u64;

/// The entries held by a record map.
pub uninterp spec fn stored_bytes(m: RecordMap) -> Map<u64, Seq<u8>>;

impl Regions {
    /// Relies on `MemoryManager::init`, over the platform's default memory,
    /// which loads the region layout found there or lays out a new one.
    #[verifier::external_body]
    pub(crate) fn open() -> (r: Regions) {
        Regions { manager: MemoryManager::init(DefaultMemoryImpl::default()) }
    }
}

impl IdCounter {
    /// Relies on `MemoryManager::get` for the memory of `region` and on
    /// `Cell::new`, which writes the value 0 over that memory, or fails when
    /// the memory cannot grow. `MemoryId::new` refuses only 255.
    #[verifier::external_body]
    pub(crate) fn create(regions: &Regions, region: u8) -> (r: Option<IdCounter>)
        requires
            region != 255,
        ensures
            r matches Some(c) ==> counter_value(c) == 0,
    {
        match Cell::new(regions.manager.get(MemoryId::new(region)), 0) {
            Ok(cell) => Some(IdCounter { cell }),
            Err(_) => None,
        }
    }

    /// Relies on `MemoryManager::get` for the memory of `region` and on
    /// `Cell::init`, which loads the value persisted there, or writes 0 to an
    /// empty memory; it fails on a foreign layout version or a full memory.
    #[verifier::external_body]
    pub(crate) fn load(regions: &Regions, region: u8) -> (r: Option<IdCounter>)
        requires
            region != 255,
    {
        match Cell::init(regions.manager.get(MemoryId::new(region)), 0) {
            Ok(cell) => Some(IdCounter { cell }),
            Err(_) => None,
        }
    }

    /// Relies on `Cell::get`: the current value.
    #[verifier::external_body]
    pub(crate) fn get(&self) -> (r: u64)
        ensures
            r == counter_value(*self),
    {
        *self.cell.get()
    }

    /// Relies on `Cell::set`: the value is replaced, written through, and the
    /// previous one returned. It fails only when the memory must grow to hold
    /// the new value, and the memory of a created or loaded cell spans at
    /// least one 64 KiB page, which always holds the header and a `u64`.
    #[verifier::external_body]
    pub(crate) fn set(&mut self, v: u64) -> (r: u64)
        ensures
            r == counter_value(*old(self)),
            counter_value(*final(self)) == v,
    {
        self.cell.set(v).expect("a u64 fits in the cell's memory")
    }
}

impl RecordMap {
    /// Relies on `MemoryManager::get` for the memory of `region` and on
    /// `BTreeMap::new`, which lays out an empty map over that memory.
    #[verifier::external_body]
    pub(crate) fn create(regions: &Regions, region: u8) -> (r: RecordMap)
        requires
            region != 255,
        ensures
            forall|k: u64| !stored_bytes(r).contains_key(k),
    {
        RecordMap { map: StableBTreeMap::new(regions.manager.get(MemoryId::new(region))) }
    }

    /// Relies on `MemoryManager::get` for the memory of `region` and on
    /// `BTreeMap::init`, which loads the map persisted there, or lays out an
    /// empty one.
    #[verifier::external_body]
    pub(crate) fn load(regions: &Regions, region: u8) -> (r: RecordMap)
        requires
            region != 255,
    {
        RecordMap { map: StableBTreeMap::init(regions.manager.get(MemoryId::new(region))) }
    }

    /// Relies on `BTreeMap::get`: the value stored at `key`, if any.
    #[verifier::external_body]
    pub(crate) fn get(&self, key: u64) -> (r: Option<Vec<u8>>)
        ensures
            r is Some <==> stored_bytes(*self).contains_key(key),
            r matches Some(v) ==> v@ == stored_bytes(*self)[key],
    {
        self.map.get(&key).map(|b| b.as_slice().to_vec())
    }

    /// Relies on `BTreeMap::insert`: stores `value` at `key`, replacing and
    /// returning any previous value. `Blob::try_from` refuses only values
    /// longer than the blob's capacity.
    #[verifier::external_body]
    pub(crate) fn insert(&mut self, key: u64, value: &[u8]) -> (r: Option<Vec<u8>>)
        requires
            value@.len() <= MAX_VALUE_SIZE,
        ensures
            stored_bytes(*final(self)) == stored_bytes(*old(self)).insert(key, value@),
            r is Some <==> stored_bytes(*old(self)).contains_key(key),
            r matches Some(v) ==> v@ == stored_bytes(*old(self))[key],
    {
        self.map.insert(key, Blob::try_from(value).unwrap()).map(|b| b.as_slice().to_vec())
    }

    /// Relies on `BTreeMap::remove`: deletes the entry at `key` and returns
    /// its value, if any.
    #[verifier::external_body]
    pub(crate) fn remove(&mut self, key: u64) -> (r: Option<Vec<u8>>)
        ensures
            stored_bytes(*final(self)) == stored_bytes(*old(self)).remove(key),
            r is Some <==> stored_bytes(*old(self)).contains_key(key),
            r matches Some(v) ==> v@ == stored_bytes(*old(self))[key],
    {
        self.map.remove(&key).map(|b| b.as_slice().to_vec())
    }

    /// Relies on `BTreeMap::iter`, which yields every entry of the map, in
    /// key order.
    #[verifier::external_body]
    pub(crate) fn entries(&self) -> (r: Vec<(u64, Vec<u8>)>)
        ensures
            forall|i: int|
                0 <= i < r@.len() ==> stored_bytes(*self).contains_key(#[trigger] r@[i].0)
                    && stored_bytes(*self)[r@[i].0] == r@[i].1@,
            forall|k: u64| #[trigger]
                stored_bytes(*self).contains_key(k) ==> exists|i: int|
                    0 <= i < r@.len() && r@[i].0 == k,
    {
        self.map.iter().map(|(k, b)| (k, b.as_slice().to_vec())).collect()
    }
}

} // verus!
