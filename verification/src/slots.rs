//! Slot tables: generational key/value storage backed by `slotmap::SlotMap`.
//!
//! A key is the slot map's `KeyData` in its FFI form, a `u64` holding the slot's
//! version in the upper half and its index in the lower half. Slot maps only ever hand
//! out keys with an odd version; such keys are called canonical here, and only they
//! name entries. The contents of a table are named per value type, and every call the
//! library makes on a table states its effect over that name.
use vstd::prelude::*;
use slotmap::Key;
use crate::resource::{BufferResource, TextureResource};

verus! {

/// Storage for values of type `V`, addressed by generational keys.
#[verifier::external_body]
#[verifier::reject_recursive_types(V)]
pub struct SlotTable<V> {
    inner: slotmap::SlotMap<slotmap::DefaultKey, V>,
}

/// A key in FFI form is canonical when its version (the upper 32 bits) is odd.
pub open spec fn canonical_key(key: u64) -> bool {
    (key / 0x1_0000_0000) % 2 == 1
}

/// The key `slotmap` reserves as null: index `u32::MAX`, version 1.
pub open spec fn null_key() -> u64 {
    0x1_FFFF_FFFF
}

/// What a table of textures holds, by key.
pub uninterp spec fn texture_slots(table: SlotTable<TextureResource>) -> Map<u64, TextureResource>;

/// What a table of buffers holds, by key.
pub uninterp spec fn buffer_slots(table: SlotTable<BufferResource>) -> Map<u64, BufferResource>;

/// A table of textures.
pub type TextureTable = SlotTable<TextureResource>;

/// A table of buffers.
pub type BufferTable = SlotTable<BufferResource>;

/// `Key::null()` for the slot map's key type, in FFI form.
#[verifier::external_body]
pub(crate) fn slot_null_key() -> (r: u64)
    ensures
        r == null_key(),
{
    slotmap::DefaultKey::null().data().as_ffi()
}

// --- textures ----------------------------------------------------------------------------------

/// `SlotMap::new`: an empty table.
#[verifier::external_body]
pub(crate) fn texture_table_new() -> (r: TextureTable)
    ensures
        texture_slots(r).dom() == Set::<u64>::empty(),
{
    SlotTable { inner: slotmap::SlotMap::new() }
}

/// `SlotMap::len`: the number of entries.
#[verifier::external_body]
pub(crate) fn texture_table_len(table: &TextureTable) -> (r: usize)
    ensures
        r == texture_slots(*table).len(),
{
    table.inner.len()
}

/// `SlotMap::insert`: stores `value` under a fresh canonical key and returns the key. The
/// slot map reuses a vacant slot first; with none, it adds a slot after its sentinel and the
/// slots of its entries, and panics if it already has `u32::MAX` slots. So the table must
/// hold fewer than `u32::MAX - 1` entries.
#[verifier::external_body]
pub(crate) fn texture_table_insert(table: &mut TextureTable, value: TextureResource) -> (key: u64)
    requires
        texture_slots(*old(table)).len() + 1 < u32::MAX,
    ensures
        canonical_key(key),
        !texture_slots(*old(table)).contains_key(key),
        texture_slots(*final(table)) == texture_slots(*old(table)).insert(key, value),
{
    table.inner.insert(value).data().as_ffi()
}

/// `SlotMap::get`: the entry under a canonical key, if there is one.
#[verifier::external_body]
pub(crate) fn texture_table_get(table: &TextureTable, key: u64) -> (r: Option<&TextureResource>)
    requires
        canonical_key(key),
    ensures
        r is Some <==> texture_slots(*table).contains_key(key),
        r matches Some(v) ==> *v == texture_slots(*table)[key],
{
    table.inner.get(slotmap::KeyData::from_ffi(key).into())
}

/// `SlotMap::get_mut` followed by a store: overwrites the entry under a canonical key
/// with `value` and hands back the entry it held; without an entry the table is left as
/// it was and `value` is dropped.
#[verifier::external_body]
pub(crate) fn texture_table_overwrite(
    table: &mut TextureTable,
    key: u64,
    value: TextureResource,
) -> (r: Option<TextureResource>)
    requires
        canonical_key(key),
    ensures
        r is Some <==> texture_slots(*old(table)).contains_key(key),
        r matches Some(v) ==> v == texture_slots(*old(table))[key],
        texture_slots(*final(table)) == (if texture_slots(*old(table)).contains_key(key) {
            texture_slots(*old(table)).insert(key, value)
        } else {
            texture_slots(*old(table))
        }),
{
    match table.inner.get_mut(slotmap::KeyData::from_ffi(key).into()) {
        Some(slot) => Some(std::mem::replace(slot, value)),
        None => None,
    }
}

/// `SlotMap::remove`: takes the entry under a canonical key out of the table.
#[verifier::external_body]
pub(crate) fn texture_table_remove(table: &mut TextureTable, key: u64) -> (r: Option<TextureResource>)
    requires
        canonical_key(key),
    ensures
        r is Some <==> texture_slots(*old(table)).contains_key(key),
        r matches Some(v) ==> v == texture_slots(*old(table))[key],
        texture_slots(*final(table)) == texture_slots(*old(table)).remove(key),
{
    table.inner.remove(slotmap::KeyData::from_ffi(key).into())
}

// --- buffers -----------------------------------------------------------------------------------

/// `SlotMap::new`: an empty table.
#[verifier::external_body]
pub(crate) fn buffer_table_new() -> (r: BufferTable)
    ensures
        buffer_slots(r).dom() == Set::<u64>::empty(),
{
    SlotTable { inner: slotmap::SlotMap::new() }
}

/// `SlotMap::len`: the number of entries.
#[verifier::external_body]
pub(crate) fn buffer_table_len(table: &BufferTable) -> (r: usize)
    ensures
        r == buffer_slots(*table).len(),
{
    table.inner.len()
}

/// `SlotMap::insert`: stores `value` under a fresh canonical key and returns the key. The
/// slot map reuses a vacant slot first; with none, it adds a slot after its sentinel and the
/// slots of its entries, and panics if it already has `u32::MAX` slots. So the table must
/// hold fewer than `u32::MAX - 1` entries.
#[verifier::external_body]
pub(crate) fn buffer_table_insert(table: &mut BufferTable, value: BufferResource) -> (key: u64)
    requires
        buffer_slots(*old(table)).len() + 1 < u32::MAX,
    ensures
        canonical_key(key),
        !buffer_slots(*old(table)).contains_key(key),
        buffer_slots(*final(table)) == buffer_slots(*old(table)).insert(key, value),
{
    table.inner.insert(value).data().as_ffi()
}

/// `SlotMap::get`: the entry under a canonical key, if there is one.
#[verifier::external_body]
pub(crate) fn buffer_table_get(table: &BufferTable, key: u64) -> (r: Option<&BufferResource>)
    requires
        canonical_key(key),
    ensures
        r is Some <==> buffer_slots(*table).contains_key(key),
        r matches Some(v) ==> *v == buffer_slots(*table)[key],
{
    table.inner.get(slotmap::KeyData::from_ffi(key).into())
}

/// `SlotMap::remove`: takes the entry under a canonical key out of the table.
#[verifier::external_body]
pub(crate) fn buffer_table_remove(table: &mut BufferTable, key: u64) -> (r: Option<BufferResource>)
    requires
        canonical_key(key),
    ensures
        r is Some <==> buffer_slots(*old(table)).contains_key(key),
        r matches Some(v) ==> v == buffer_slots(*old(table))[key],
        buffer_slots(*final(table)) == buffer_slots(*old(table)).remove(key),
{
    table.inner.remove(slotmap::KeyData::from_ffi(key).into())
}

} // verus!
