//! The concurrent collections that interfaces and wires are built on.
//!
//! The collections come from `dashmap` and `crossbeam-queue`. What they hold is named by a spec
//! function for each kind of contents, and every operation on them goes through one of the
//! functions below, whose contracts state what the operation does to those contents. All of them
//! that change a collection ask for it exclusively, so nobody else can change it at the same time.
use crate::complete_lock::CompleteLock;
use crate::interface::Procedure;
use crate::message::MessageBuffer;
use crossbeam_queue::SegQueue;
use dashmap::{DashMap, DashSet};
use fxhash::FxHasher;
use nohash_hasher::NoHashHasher;
use std::hash::BuildHasherDefault;
use vstd::prelude::*;

verus! {

/// `dashmap::DashMap`, of which nothing is known but what the functions below say.
#[verifier::external_type_specification]
#[verifier::external_body]
#[verifier::reject_recursive_types(K)]
#[verifier::reject_recursive_types(V)]
#[verifier::reject_recursive_types(S)]
pub struct ExDashMap<K, V, S>(DashMap<K, V, S>);

/// `dashmap::DashSet`, of which nothing is known but what the functions below say.
#[verifier::external_type_specification]
#[verifier::external_body]
#[verifier::reject_recursive_types(K)]
#[verifier::reject_recursive_types(S)]
pub struct ExDashSet<K, S>(DashSet<K, S>);

/// `crossbeam_queue::SegQueue`, of which nothing is known but what the functions below say.
#[verifier::external_type_specification]
#[verifier::external_body]
#[verifier::reject_recursive_types(T)]
pub struct ExSegQueue<T>(SegQueue<T>);

/// `fxhash::FxHasher`, which only ever appears as a parameter of a collection.
#[verifier::external_type_specification]
#[verifier::external_body]
pub struct ExFxHasher(FxHasher);

/// `nohash_hasher::NoHashHasher`, which only ever appears as a parameter of a collection.
#[verifier::external_type_specification]
#[verifier::external_body]
#[verifier::reject_recursive_types(T)]
pub struct ExNoHashHasher<T>(NoHashHasher<T>);

/// `std::hash::BuildHasherDefault`, which only ever appears as a parameter of a collection.
#[verifier::external_type_specification]
#[verifier::external_body]
#[verifier::reject_recursive_types(H)]
pub struct ExBuildHasherDefault<H>(BuildHasherDefault<H>);

/// A concurrent map whose keys are identifiers, which serve as their own hashes.
pub type IntMap<V> = DashMap<u32, V, BuildHasherDefault<NoHashHasher<u32>>>;

/// A concurrent map from several identifiers to one.
pub type FxMap<K> = DashMap<K, u32, BuildHasherDefault<FxHasher>>;

/// A concurrent set of procedure and call indices.
pub type CallSet = DashSet<(u32, u32), BuildHasherDefault<FxHasher>>;

/// What a map from message identifiers to messages holds.
pub uninterp spec fn messages_of(map: IntMap<MessageBuffer>) -> Map<u32, MessageBuffer>;

/// What a map from message identifiers to creation locks holds.
pub uninterp spec fn locks_of(map: IntMap<CompleteLock>) -> Map<u32, CompleteLock>;

/// What a map from procedure indices to procedures holds.
pub uninterp spec fn procedures_of(map: IntMap<Procedure>) -> Map<u32, Procedure>;

/// What a map from procedure indices to call counters holds.
pub uninterp spec fn counters_of(map: IntMap<u32>) -> Map<u32, u32>;

/// What a map from message identifiers to the serial numbers of their locks holds.
pub uninterp spec fn serials_of(map: IntMap<u64>) -> Map<u32, u64>;

/// What a map from procedure indices, call indices and wire identifiers to message identifiers
/// holds.
pub uninterp spec fn call_buffers_of(map: FxMap<(u32, u32, u32)>) -> Map<(u32, u32, u32), u32>;

/// What a map from procedure and call indices to message identifiers holds.
pub uninterp spec fn responses_of(map: FxMap<(u32, u32)>) -> Map<(u32, u32), u32>;

/// What a set of procedure and call indices holds.
pub uninterp spec fn calls_of(set: CallSet) -> Set<(u32, u32)>;

/// What a queue of identifiers holds, oldest first.
pub uninterp spec fn identifiers_of(queue: SegQueue<u32>) -> Seq<u32>;

/// What a queue of outgoing messages holds, oldest first.
pub uninterp spec fn packets_of(queue: SegQueue<Vec<u8>>) -> Seq<Vec<u8>>;

/// The values that are kept in maps with identifiers as keys.
pub(crate) trait Stored: Sized {
    /// What a map with such values holds.
    spec fn stored(map: IntMap<Self>) -> Map<u32, Self>;
}

impl Stored for MessageBuffer {
    open spec fn stored(map: IntMap<Self>) -> Map<u32, Self> {
        messages_of(map)
    }
}

impl Stored for CompleteLock {
    open spec fn stored(map: IntMap<Self>) -> Map<u32, Self> {
        locks_of(map)
    }
}

impl Stored for Procedure {
    open spec fn stored(map: IntMap<Self>) -> Map<u32, Self> {
        procedures_of(map)
    }
}

impl Stored for u32 {
    open spec fn stored(map: IntMap<Self>) -> Map<u32, Self> {
        counters_of(map)
    }
}

impl Stored for u64 {
    open spec fn stored(map: IntMap<Self>) -> Map<u32, Self> {
        serials_of(map)
    }
}

/// The keys of maps from several identifiers to one.
pub(crate) trait FxKey: Sized + Eq + std::hash::Hash {
    /// What a map with such keys holds.
    spec fn indexed(map: FxMap<Self>) -> Map<Self, u32>;
}

impl FxKey for (u32, u32, u32) {
    open spec fn indexed(map: FxMap<Self>) -> Map<Self, u32> {
        call_buffers_of(map)
    }
}

impl FxKey for (u32, u32) {
    open spec fn indexed(map: FxMap<Self>) -> Map<Self, u32> {
        responses_of(map)
    }
}

/// The values that are kept in queues.
pub(crate) trait Queued: Sized {
    /// What a queue of such values holds, oldest first.
    spec fn queued(queue: SegQueue<Self>) -> Seq<Self>;
}

impl Queued for u32 {
    open spec fn queued(queue: SegQueue<Self>) -> Seq<Self> {
        identifiers_of(queue)
    }
}

impl Queued for Vec<u8> {
    open spec fn queued(queue: SegQueue<Self>) -> Seq<Self> {
        packets_of(queue)
    }
}

/// `DashMap::default`: a new map is empty.
#[verifier::external_body]
pub(crate) fn new_message_map() -> (map: IntMap<MessageBuffer>)
    ensures
        (messages_of(map) == Map::<u32, MessageBuffer>::empty()),
{
    DashMap::default()
}

/// `DashMap::default`: a new map is empty.
#[verifier::external_body]
pub(crate) fn new_lock_map() -> (map: IntMap<CompleteLock>)
    ensures
        (locks_of(map) == Map::<u32, CompleteLock>::empty()),
{
    DashMap::default()
}

/// `DashMap::default`: a new map is empty.
#[verifier::external_body]
pub(crate) fn new_procedure_map() -> (map: IntMap<Procedure>)
    ensures
        (procedures_of(map) == Map::<u32, Procedure>::empty()),
{
    DashMap::default()
}

/// `DashMap::default`: a new map is empty.
#[verifier::external_body]
pub(crate) fn new_counter_map() -> (map: IntMap<u32>)
    ensures
        (counters_of(map) == Map::<u32, u32>::empty()),
{
    DashMap::default()
}

/// `DashMap::default`: a new map is empty.
#[verifier::external_body]
pub(crate) fn new_serial_map() -> (map: IntMap<u64>)
    ensures
        (serials_of(map) == Map::<u32, u64>::empty()),
{
    DashMap::default()
}

/// `DashMap::default`: a new map is empty.
#[verifier::external_body]
pub(crate) fn new_call_buffer_map() -> (map: FxMap<(u32, u32, u32)>)
    ensures
        (call_buffers_of(map) == Map::<(u32, u32, u32), u32>::empty()),
{
    DashMap::default()
}

/// `DashMap::default`: a new map is empty.
#[verifier::external_body]
pub(crate) fn new_response_map() -> (map: FxMap<(u32, u32)>)
    ensures
        (responses_of(map) == Map::<(u32, u32), u32>::empty()),
{
    DashMap::default()
}

/// `DashMap::insert`: the key is mapped to the value from now on, and what it was mapped to
/// before is handed back.
#[verifier::external_body]
pub(crate) fn map_insert<V: Stored>(map: &mut IntMap<V>, key: u32, value: V) -> (previous: Option<
    V,
>)
    ensures
        (V::stored(*final(map)) == V::stored(*old(map)).insert(key, value)),
        (previous == (if V::stored(*old(map)).contains_key(key) {
            Some(V::stored(*old(map))[key])
        } else {
            None
        })),
{
    map.insert(key, value)
}

/// `DashMap::remove`: the key is mapped to nothing from now on, and what it was mapped to before
/// is handed back.
#[verifier::external_body]
pub(crate) fn map_remove<V: Stored>(map: &mut IntMap<V>, key: u32) -> (removed: Option<V>)
    ensures
        (V::stored(*final(map)) == V::stored(*old(map)).remove(key)),
        (removed == (if V::stored(*old(map)).contains_key(key) {
            Some(V::stored(*old(map))[key])
        } else {
            None
        })),
{
    map.remove(&key).map(|entry| entry.1)
}

/// `DashMap::get`: what the key is mapped to, copied.
#[verifier::external_body]
pub(crate) fn map_get<V: Stored + Copy>(map: &IntMap<V>, key: u32) -> (value: Option<V>)
    ensures
        (value == (if V::stored(*map).contains_key(key) {
            Some(V::stored(*map)[key])
        } else {
            None
        })),
{
    map.get(&key).map(|value| *value)
}

/// `DashMap::contains_key`: whether the key is mapped to anything.
#[verifier::external_body]
pub(crate) fn map_contains_key<V: Stored>(map: &IntMap<V>, key: u32) -> (found: bool)
    ensures
        found == V::stored(*map).contains_key(key),
{
    map.contains_key(&key)
}

/// `DashMap::iter`: every key with the value it is mapped to, each once, in no particular order.
#[verifier::external_body]
pub(crate) fn map_entries(map: &IntMap<u64>) -> (entries: Vec<(u32, u64)>)
    ensures
        (forall|i: int, j: int|
            0 <= i < j < entries@.len() ==> #[trigger] entries@[i].0 != #[trigger] entries@[j].0),
        (forall|key: u32, value: u64| #[trigger]
            entries@.contains((key, value)) <==> serials_of(*map).contains_pair(key, value)),
{
    map.iter().map(|entry| (*entry.key(), *entry.value())).collect()
}

/// `DashMap::insert`, for maps from several identifiers to one: the key is mapped to the value
/// from now on, and what it was mapped to before is handed back.
#[verifier::external_body]
pub(crate) fn index_insert<K: FxKey>(map: &mut FxMap<K>, key: K, value: u32) -> (previous: Option<
    u32,
>)
    ensures
        (K::indexed(*final(map)) == K::indexed(*old(map)).insert(key, value)),
        (previous == (if K::indexed(*old(map)).contains_key(key) {
            Some(K::indexed(*old(map))[key])
        } else {
            None
        })),
{
    map.insert(key, value)
}

/// `DashMap::remove`, for maps from several identifiers to one: the key is mapped to nothing from
/// now on, and what it was mapped to before is handed back.
#[verifier::external_body]
pub(crate) fn index_remove<K: FxKey>(map: &mut FxMap<K>, key: K) -> (removed: Option<u32>)
    ensures
        (K::indexed(*final(map)) == K::indexed(*old(map)).remove(key)),
        (removed == (if K::indexed(*old(map)).contains_key(key) {
            Some(K::indexed(*old(map))[key])
        } else {
            None
        })),
{
    map.remove(&key).map(|entry| entry.1)
}

/// `DashMap::get`, for maps from several identifiers to one: what the key is mapped to, copied.
#[verifier::external_body]
pub(crate) fn index_get<K: FxKey>(map: &FxMap<K>, key: K) -> (value: Option<u32>)
    ensures
        (value == (if K::indexed(*map).contains_key(key) {
            Some(K::indexed(*map)[key])
        } else {
            None
        })),
{
    map.get(&key).map(|value| *value)
}

/// `DashSet::default`: a new set is empty.
#[verifier::external_body]
pub(crate) fn new_call_set() -> (set: CallSet)
    ensures
        (calls_of(set) == Set::<(u32, u32)>::empty()),
{
    DashSet::default()
}

/// `DashSet::insert`: the item is in the set from now on.
#[verifier::external_body]
pub(crate) fn set_insert(set: &mut CallSet, item: (u32, u32)) -> (added: bool)
    ensures
        calls_of(*final(set)) == calls_of(*old(set)).insert(item),
        added == !calls_of(*old(set)).contains(item),
{
    set.insert(item)
}

/// `DashSet::remove`: the item is not in the set from now on, and it is handed back if it was.
#[verifier::external_body]
pub(crate) fn set_remove(set: &mut CallSet, item: (u32, u32)) -> (removed: Option<(u32, u32)>)
    ensures
        calls_of(*final(set)) == calls_of(*old(set)).remove(item),
        (removed == (if calls_of(*old(set)).contains(item) {
            Some(item)
        } else {
            None
        })),
{
    set.remove(&item)
}

/// `DashSet::contains`: whether the item is in the set.
#[verifier::external_body]
pub(crate) fn set_contains(set: &CallSet, item: (u32, u32)) -> (found: bool)
    ensures
        found == calls_of(*set).contains(item),
{
    set.contains(&item)
}

/// `DashSet::len`: the number of items in the set.
#[verifier::external_body]
pub(crate) fn set_len(set: &CallSet) -> (count: usize)
    ensures
        count == calls_of(*set).len(),
{
    set.len()
}

/// `DashSet::iter`: every item of the set, each once, in no particular order.
#[verifier::external_body]
pub(crate) fn set_items(set: &CallSet) -> (items: Vec<(u32, u32)>)
    ensures
        items@.no_duplicates(),
        items@.to_set() == calls_of(*set),
{
    set.iter().map(|item| *item).collect()
}

/// `SegQueue::new`: a new queue is empty.
#[verifier::external_body]
pub(crate) fn new_identifier_queue() -> (queue: SegQueue<u32>)
    ensures
        identifiers_of(queue) == Seq::<u32>::empty(),
{
    SegQueue::new()
}

/// `SegQueue::new`: a new queue is empty.
#[verifier::external_body]
pub(crate) fn new_packet_queue() -> (queue: SegQueue<Vec<u8>>)
    ensures
        packets_of(queue) == Seq::<Vec<u8>>::empty(),
{
    SegQueue::new()
}

/// `SegQueue::push`: the value becomes the newest of the queue.
#[verifier::external_body]
pub(crate) fn queue_push<T: Queued>(queue: &mut SegQueue<T>, value: T)
    ensures
        T::queued(*final(queue)) == T::queued(*old(queue)).push(value),
{
    queue.push(value);
}

/// `SegQueue::pop`: the oldest value of the queue is taken out of it, if there is one.
#[verifier::external_body]
pub(crate) fn queue_pop<T: Queued>(queue: &mut SegQueue<T>) -> (value: Option<T>)
    ensures
        (match value {
            Some(value) => {
                &&& T::queued(*old(queue)).len() > 0
                &&& value == T::queued(*old(queue))[0]
                &&& T::queued(*final(queue)) == T::queued(*old(queue)).skip(1)
            },
            None => {
                &&& T::queued(*old(queue)).len() == 0
                &&& T::queued(*final(queue)) == T::queued(*old(queue))
            },
        }),
{
    queue.pop()
}

} // verus!
