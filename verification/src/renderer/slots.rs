//! The slot-mapped node table of the in-memory backend.
//!
//! The table is a `slotmap::SlotMap`. Nothing in here is proved: each
//! function states what the slot map's source shows of the call it makes.
//! Keys cross this boundary as the 64-bit handles of `KeyData::as_ffi`.

use super::mock_dom::NodeData;
use vstd::prelude::*;

verus! {

/// A slot map from default keys to node records. The map is kept whole
/// behind this type, and is reached through the functions below only.
#[verifier::external_body]
pub struct NodeTable {
    slots: slotmap::SlotMap<slotmap::DefaultKey, NodeData>,
}

/// What a table holds: the handle of each live key with the record stored
/// under it.
pub uninterp spec fn table_entries(table: NodeTable) -> Map<u64, NodeData>;

/// How many slots a table has opened so far, the unused one at index 0
/// included. Slots are reused but never given back.
pub uninterp spec fn table_span(table: NodeTable) -> nat;

/// The handle of the key that `bits` stands for: `bits` with the lowest
/// bit of its upper half set, since the version of a key is kept odd.
pub open spec fn handle_of(bits: u64) -> u64 {
    bits | 0x1_0000_0000u64
}

/// `SlotMap::new`: an empty table that has opened its one unused slot.
#[verifier::external_body]
pub(crate) fn table_new() -> (table: NodeTable)
    ensures
        table_entries(table).dom() == Set::<u64>::empty(),
        table_span(table) == 1,
{
    NodeTable { slots: slotmap::SlotMap::new() }
}

/// `KeyData::from_ffi` followed by `KeyData::as_ffi`. The first keeps the
/// lower half of `bits` as the index and the upper half, made odd, as the
/// version; the second puts the two together again.
#[verifier::external_body]
pub(crate) fn handle_bits(bits: u64) -> (handle: u64)
    ensures
        handle == bits | 0x1_0000_0000u64,
{
    slotmap::KeyData::from_ffi(bits).as_ffi()
}

/// `SlotMap::len`: the number of live keys.
#[verifier::external_body]
pub(crate) fn table_len(table: &NodeTable) -> (len: usize)
    ensures
        len == table_entries(*table).dom().len(),
{
    table.slots.len()
}

/// `SlotMap::insert`, which panics once `u32::MAX` slots are open. The new
/// key is one the table did not hold, its handle reads back as itself, and
/// at most one more slot is opened.
#[verifier::external_body]
pub(crate) fn table_insert(table: &mut NodeTable, data: NodeData) -> (handle: u64)
    requires
        table_span(*old(table)) < u32::MAX,
    ensures
        handle_of(handle) == handle,
        !table_entries(*old(table)).contains_key(handle),
        table_entries(*final(table)) == table_entries(*old(table)).insert(handle, data),
        table_span(*old(table)) <= table_span(*final(table)) <= table_span(*old(table)) + 1,
{
    slotmap::Key::data(&table.slots.insert(data)).as_ffi()
}

/// `SlotMap::get` under the key that `bits` stands for.
#[verifier::external_body]
pub(crate) fn table_get(table: &NodeTable, bits: u64) -> (found: Option<&NodeData>)
    ensures
        found == (if table_entries(*table).contains_key(handle_of(bits)) {
            Some(&table_entries(*table)[handle_of(bits)])
        } else {
            None
        }),
{
    table.slots.get(slotmap::KeyData::from_ffi(bits).into())
}

/// `SlotMap::get_mut` under the key that `bits` stands for: what the caller
/// leaves in the record is what the table then holds under that key, and
/// nothing else changes.
#[verifier::external_body]
pub(crate) fn table_get_mut(table: &mut NodeTable, bits: u64) -> (found: Option<&mut NodeData>)
    ensures
        match found {
            Some(slot) => {
                &&& table_entries(*old(table)).contains_key(handle_of(bits))
                &&& *slot == table_entries(*old(table))[handle_of(bits)]
                &&& table_entries(*final(table)) == table_entries(*old(table)).insert(
                    handle_of(bits),
                    *final(slot),
                )
            },
            None => {
                &&& !table_entries(*old(table)).contains_key(handle_of(bits))
                &&& table_entries(*final(table)) == table_entries(*old(table))
            },
        },
        table_span(*final(table)) == table_span(*old(table)),
{
    table.slots.get_mut(slotmap::KeyData::from_ffi(bits).into())
}

/// `SlotMap::clear`: every key leaves, the opened slots stay.
#[verifier::external_body]
pub(crate) fn table_clear(table: &mut NodeTable)
    ensures
        table_entries(*final(table)).dom() == Set::<u64>::empty(),
        table_span(*final(table)) == table_span(*old(table)),
{
    table.slots.clear()
}

} // verus!
