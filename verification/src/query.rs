//! The documents that tell a document store what to find and what to
//! change: one for each operation that the query layer needs from it.
//!
//! A key record keeps its key under `apikey`, its usage under `checkLimit`,
//! its lifetime count under `totalCheck` and its switch under `status`. A
//! snapshot keeps its product under `product_id` and its time under
//! `timestamp`.

use crate::document::document_entries;
use crate::document::new_document;
use crate::document::set_entry;
use crate::document::spec_no_entries;
use crate::document::Datum;
use crate::document::Entry;
use crate::models::MAX_CHECK_LIMIT;
use bson::Document;
use vstd::prelude::*;

verus! {

/// The entries of a document with one entry.
pub open spec fn spec_single(key: Seq<char>, entry: Entry) -> Map<Seq<char>, Entry> {
    spec_no_entries().insert(key, entry)
}

/// The filter that finds the record of `apikey`.
pub open spec fn spec_key_filter(apikey: Seq<char>) -> Map<Seq<char>, Entry> {
    spec_single("apikey"@, Entry::Text(apikey))
}

/// The filter that finds the record of `apikey` where a unit may be
/// charged to it: switched on, and with a usage that is not at the ceiling
/// or beyond it.
pub open spec fn spec_charge_filter(apikey: Seq<char>) -> Map<Seq<char>, Entry> {
    spec_key_filter(apikey).insert("status"@, Entry::Boolean(true)).insert(
        "checkLimit"@,
        Entry::Document(
            spec_single(
                "$not"@,
                Entry::Document(spec_single("$gte"@, Entry::Int64(MAX_CHECK_LIMIT as i64))),
            ),
        ),
    )
}

/// The update that charges one unit: both counters go up by one.
pub open spec fn spec_charge_update() -> Map<Seq<char>, Entry> {
    spec_single(
        "$inc"@,
        Entry::Document(
            spec_single("checkLimit"@, Entry::Int32(1)).insert("totalCheck"@, Entry::Int32(1)),
        ),
    )
}

/// The filter of the reset sweep: every record with a usage other than
/// zero.
pub open spec fn spec_reset_filter() -> Map<Seq<char>, Entry> {
    spec_single("checkLimit"@, Entry::Document(spec_single("$ne"@, Entry::Int32(0))))
}

/// The update of the reset sweep: the usage becomes zero.
pub open spec fn spec_reset_update() -> Map<Seq<char>, Entry> {
    spec_single("$set"@, Entry::Document(spec_single("checkLimit"@, Entry::Int32(0))))
}

/// The filter that finds the snapshots of `product_id`.
pub open spec fn spec_product_filter(product_id: Seq<char>) -> Map<Seq<char>, Entry> {
    spec_single("product_id"@, Entry::Text(product_id))
}

/// The order that puts the newest snapshot first.
pub open spec fn spec_newest_first() -> Map<Seq<char>, Entry> {
    spec_single("timestamp"@, Entry::Int32(-1i32))
}

/// A document with one entry.
fn single(key: &str, value: Datum<'_>) -> (doc: Document)
    ensures
        document_entries(doc) == spec_single(key@, value.entry()),
{
    let mut doc = new_document();
    set_entry(&mut doc, key, value);
    doc
}

/// The filter that finds the record of `apikey`.
pub fn key_filter(apikey: &str) -> (filter: Document)
    ensures
        document_entries(filter) == spec_key_filter(apikey@),
{
    single("apikey", Datum::Text(apikey))
}

/// The filter of the conditional update that consumes one unit: it finds
/// the record of `apikey` only where the key is switched on and its usage is
/// below the ceiling, so that the store checks and charges in one step.
pub fn charge_filter(apikey: &str) -> (filter: Document)
    ensures
        document_entries(filter) == spec_charge_filter(apikey@),
{
    let ceiling = single("$gte", Datum::Int64(MAX_CHECK_LIMIT as i64));
    let below = single("$not", Datum::Document(ceiling));
    let mut filter = key_filter(apikey);
    set_entry(&mut filter, "status", Datum::Boolean(true));
    set_entry(&mut filter, "checkLimit", Datum::Document(below));
    filter
}

/// The update that charges one unit: both counters go up by one.
pub fn charge_update() -> (update: Document)
    ensures
        document_entries(update) == spec_charge_update(),
{
    let mut counters = single("checkLimit", Datum::Int32(1));
    set_entry(&mut counters, "totalCheck", Datum::Int32(1));
    single("$inc", Datum::Document(counters))
}

/// The filter of the reset sweep: every record with a usage other than
/// zero.
pub fn reset_filter() -> (filter: Document)
    ensures
        document_entries(filter) == spec_reset_filter(),
{
    single("checkLimit", Datum::Document(single("$ne", Datum::Int32(0))))
}

/// The update of the reset sweep: the usage becomes zero. Nothing else is
/// set.
pub fn reset_update() -> (update: Document)
    ensures
        document_entries(update) == spec_reset_update(),
{
    single("$set", Datum::Document(single("checkLimit", Datum::Int32(0))))
}

/// The filter that finds the snapshots of `product_id`.
pub fn product_filter(product_id: &str) -> (filter: Document)
    ensures
        document_entries(filter) == spec_product_filter(product_id@),
{
    single("product_id", Datum::Text(product_id))
}

/// The order that puts the newest snapshot first.
pub fn newest_first() -> (order: Document)
    ensures
        document_entries(order) == spec_newest_first(),
{
    single("timestamp", Datum::Int32(-1))
}

} // verus!
