//! The documents of the backing stores: what this library reads out of a
//! BSON document and what it writes into one.
//!
//! A document is known to the proofs by its entries alone, as
//! [`document_entries`] names them. The three functions that reach into a
//! document, [`lookup`], [`new_document`] and [`set_entry`], are taken on
//! trust; everything else here is proved from what they promise.

use crate::models::ApiKeyRecord;
use crate::models::ApiKeyRecordView;
use crate::models::Field;
use crate::models::FieldValue;
use crate::models::KeyState;
use crate::models::ProductSnapshot;
use crate::models::QuickStatus;
use crate::models::SnapshotView;
use bson::Bson;
use bson::Document;
use vstd::prelude::*;

verus! {

/// `bson::Document`: a map from keys to BSON values that keeps the order in
/// which its keys came. Nothing of its inside is known to the proofs.
#[verifier::external_type_specification]
#[verifier::external_body]
pub struct ExDocument(bson::Document);

/// What a document holds under one key, as far as this library reads it.
#[derive(Clone, Copy, Debug)]
pub enum Element<'a> {
    /// A binary64 number, as its IEEE 754 bit pattern.
    Double(u64),
    Int32(i32),
    Int64(i64),
    Boolean(bool),
    Text(&'a str),
    Document(&'a Document),
    /// A point in time, in milliseconds since the Unix epoch.
    DateTime(i64),
    /// A value of any other kind.
    Other,
}

/// What a document holds under one key, as a mathematical value.
pub enum Entry {
    Double(u64),
    Int32(i32),
    Int64(i64),
    Boolean(bool),
    Text(Seq<char>),
    Document(Map<Seq<char>, Entry>),
    DateTime(i64),
    Other,
}

/// The entries of a document, by key: what `bson::Document` holds, each
/// value as the [`Entry`] that stands for it. The order of the keys is not
/// part of it.
pub uninterp spec fn document_entries(doc: Document) -> Map<Seq<char>, Entry>;

impl<'a> Element<'a> {
    /// The entry that this element stands for.
    pub open spec fn entry(self) -> Entry {
        match self {
            Element::Double(bits) => Entry::Double(bits),
            Element::Int32(value) => Entry::Int32(value),
            Element::Int64(value) => Entry::Int64(value),
            Element::Boolean(value) => Entry::Boolean(value),
            Element::Text(text) => Entry::Text(text@),
            Element::Document(inner) => Entry::Document(document_entries(*inner)),
            Element::DateTime(millis) => Entry::DateTime(millis),
            Element::Other => Entry::Other,
        }
    }
}

/// The entry that an element stands for, where there is an element.
pub open spec fn spec_entry_of(element: Option<Element<'_>>) -> Option<Entry> {
    match element {
        Some(e) => Some(e.entry()),
        None => None,
    }
}

/// The entry of `entries` under `key`, if there is one.
pub open spec fn spec_entry(entries: Map<Seq<char>, Entry>, key: Seq<char>) -> Option<Entry> {
    if entries.contains_key(key) {
        Some(entries[key])
    } else {
        None
    }
}

/// `bson::Document::get`, with the `bson::Bson` that it finds told apart by
/// its variant. Taken on trust: a value is found exactly under the keys of
/// the document, and the element handed back stands for the entry stored
/// there, a double by its bit pattern, a date by
/// `bson::DateTime::timestamp_millis`, a text and an embedded document as
/// they are, and a value of any other variant as `Other`.
#[verifier::external_body]
pub(crate) fn lookup<'a>(doc: &'a Document, key: &str) -> (found: Option<Element<'a>>)
    ensures
        spec_entry_of(found) == spec_entry(document_entries(*doc), key@),
{
    Some(match doc.get(key)? {
        Bson::Double(v) => Element::Double(v.to_bits()),
        Bson::Int32(v) => Element::Int32(*v),
        Bson::Int64(v) => Element::Int64(*v),
        Bson::Boolean(v) => Element::Boolean(*v),
        Bson::String(v) => Element::Text(v.as_str()),
        Bson::Document(v) => Element::Document(v),
        Bson::DateTime(v) => Element::DateTime(v.timestamp_millis()),
        _ => Element::Other,
    })
}

/// The entries of a document that holds nothing.
pub open spec fn spec_no_entries() -> Map<Seq<char>, Entry> {
    Map::empty()
}

/// A value that this library writes into a document.
#[derive(Debug)]
pub enum Datum<'a> {
    Int32(i32),
    Int64(i64),
    Boolean(bool),
    Text(&'a str),
    Document(Document),
}

impl<'a> Datum<'a> {
    /// The entry that this value becomes.
    pub open spec fn entry(self) -> Entry {
        match self {
            Datum::Int32(value) => Entry::Int32(value),
            Datum::Int64(value) => Entry::Int64(value),
            Datum::Boolean(value) => Entry::Boolean(value),
            Datum::Text(text) => Entry::Text(text@),
            Datum::Document(inner) => Entry::Document(document_entries(inner)),
        }
    }
}

/// `bson::Document::new`. Taken on trust: the new document has no entry.
#[verifier::external_body]
pub(crate) fn new_document() -> (created: Document)
    ensures
        document_entries(created) == spec_no_entries(),
{
    Document::new()
}

/// `bson::Document::insert`, with the `bson::Bson` built from the kind of
/// the value. Taken on trust: afterwards the document holds the value under
/// the key, in place of what it held there, and every other entry as before.
#[verifier::external_body]
pub(crate) fn set_entry(doc: &mut Document, key: &str, value: Datum<'_>)
    ensures
        document_entries(*final(doc)) == document_entries(*old(doc)).insert(key@, value.entry()),
{
    doc.insert(
        key,
        match value {
            Datum::Int32(v) => Bson::Int32(v),
            Datum::Int64(v) => Bson::Int64(v),
            Datum::Boolean(v) => Bson::Boolean(v),
            Datum::Text(v) => Bson::String(v.to_string()),
            Datum::Document(v) => Bson::Document(v),
        },
    );
}

/// The counter that an entry stands for: the integer that it holds, and
/// zero where there is no entry, no integer, or an integer below zero.
pub open spec fn spec_count(entry: Option<Entry>) -> u64 {
    match entry {
        Some(Entry::Int32(value)) => if value >= 0 {
            value as u64
        } else {
            0
        },
        Some(Entry::Int64(value)) => if value >= 0 {
            value as u64
        } else {
            0
        },
        _ => 0,
    }
}

/// The number that an entry stands for: a double is a real number, an
/// integer of either width is an integer, and nothing else is a number.
pub open spec fn spec_number(entry: Option<Entry>) -> Option<FieldValue> {
    match entry {
        Some(Entry::Double(bits)) => Some(FieldValue::Real(bits)),
        Some(Entry::Int32(value)) => Some(FieldValue::Integer(value as i64)),
        Some(Entry::Int64(value)) => Some(FieldValue::Integer(value)),
        _ => None,
    }
}

/// The timestamp that an entry stands for: an integer of either width as it
/// is, a date by its milliseconds, and nothing else.
pub open spec fn spec_instant(entry: Option<Entry>) -> Option<i64> {
    match entry {
        Some(Entry::Int32(value)) => Some(value as i64),
        Some(Entry::Int64(value)) => Some(value),
        Some(Entry::DateTime(millis)) => Some(millis),
        _ => None,
    }
}

/// The key record that four entries stand for. A record needs a text as its
/// key and a boolean as its switch; its counters are read with
/// [`spec_count`].
pub open spec fn spec_api_key(
    key: Option<Entry>,
    usage: Option<Entry>,
    lifetime: Option<Entry>,
    status: Option<Entry>,
) -> Option<ApiKeyRecordView> {
    match (key, status) {
        (Some(Entry::Text(text)), Some(Entry::Boolean(enabled))) => Some(
            ApiKeyRecordView {
                key: text,
                state: KeyState {
                    usage_count: spec_count(usage),
                    lifetime_count: spec_count(lifetime),
                    enabled,
                },
            },
        ),
        _ => None,
    }
}

/// The key record that a document stands for: its key under `apikey`, its
/// counters under `checkLimit` and `totalCheck`, its switch under `status`.
pub open spec fn spec_decode_api_key(entries: Map<Seq<char>, Entry>) -> Option<ApiKeyRecordView> {
    spec_api_key(
        spec_entry(entries, "apikey"@),
        spec_entry(entries, "checkLimit"@),
        spec_entry(entries, "totalCheck"@),
        spec_entry(entries, "status"@),
    )
}

/// The quick status that the entries of a document stand for: under the
/// name of each field the number that the entry there stands for.
pub open spec fn spec_decode_quick_status(entries: Map<Seq<char>, Entry>) -> QuickStatus {
    QuickStatus {
        sell_price: spec_number(spec_entry(entries, Field::SellPrice.spec_name())),
        buy_price: spec_number(spec_entry(entries, Field::BuyPrice.spec_name())),
        sell_volume: spec_number(spec_entry(entries, Field::SellVolume.spec_name())),
        buy_volume: spec_number(spec_entry(entries, Field::BuyVolume.spec_name())),
        sell_orders: spec_number(spec_entry(entries, Field::SellOrders.spec_name())),
        buy_orders: spec_number(spec_entry(entries, Field::BuyOrders.spec_name())),
        sell_moving_week: spec_number(spec_entry(entries, Field::SellMovingWeek.spec_name())),
        buy_moving_week: spec_number(spec_entry(entries, Field::BuyMovingWeek.spec_name())),
    }
}

/// The quick status that an entry stands for: that of an embedded document,
/// and one without any number for anything else.
pub open spec fn spec_quick_status(entry: Option<Entry>) -> QuickStatus {
    match entry {
        Some(Entry::Document(entries)) => spec_decode_quick_status(entries),
        _ => QuickStatus::spec_empty(),
    }
}

/// The snapshot that three entries stand for. A snapshot needs a text as
/// its product and a timestamp.
pub open spec fn spec_snapshot(
    product: Option<Entry>,
    timestamp: Option<Entry>,
    quick_status: QuickStatus,
) -> Option<SnapshotView> {
    match (product, spec_instant(timestamp)) {
        (Some(Entry::Text(text)), Some(instant)) => Some(
            SnapshotView { product_id: text, timestamp: instant, quick_status },
        ),
        _ => None,
    }
}

/// The snapshot that a document stands for: its product under `product_id`,
/// its timestamp under `timestamp`, its numbers in the document under
/// `quick_status`.
pub open spec fn spec_decode_snapshot(entries: Map<Seq<char>, Entry>) -> Option<SnapshotView> {
    spec_snapshot(
        spec_entry(entries, "product_id"@),
        spec_entry(entries, "timestamp"@),
        spec_quick_status(spec_entry(entries, "quick_status"@)),
    )
}

/// The counter that an element stands for.
pub fn count_of(element: Option<Element<'_>>) -> (count: u64)
    ensures
        count == spec_count(spec_entry_of(element)),
{
    match element {
        Some(Element::Int32(value)) => if value >= 0 {
            value as u64
        } else {
            0
        },
        Some(Element::Int64(value)) => if value >= 0 {
            value as u64
        } else {
            0
        },
        _ => 0,
    }
}

/// The number that an element stands for, if it stands for one.
pub fn number_of(element: Option<Element<'_>>) -> (number: Option<FieldValue>)
    ensures
        number == spec_number(spec_entry_of(element)),
{
    match element {
        Some(Element::Double(bits)) => Some(FieldValue::Real(bits)),
        Some(Element::Int32(value)) => Some(FieldValue::Integer(value as i64)),
        Some(Element::Int64(value)) => Some(FieldValue::Integer(value)),
        _ => None,
    }
}

/// The timestamp that an element stands for, if it stands for one.
pub fn instant_of(element: Option<Element<'_>>) -> (instant: Option<i64>)
    ensures
        instant == spec_instant(spec_entry_of(element)),
{
    match element {
        Some(Element::Int32(value)) => Some(value as i64),
        Some(Element::Int64(value)) => Some(value),
        Some(Element::DateTime(millis)) => Some(millis),
        _ => None,
    }
}

/// The key record that four elements stand for, if they stand for one.
pub fn api_key_of(
    key: Option<Element<'_>>,
    usage: Option<Element<'_>>,
    lifetime: Option<Element<'_>>,
    status: Option<Element<'_>>,
) -> (record: Option<ApiKeyRecord>)
    ensures
        match record {
            Some(r) => spec_api_key(
                spec_entry_of(key),
                spec_entry_of(usage),
                spec_entry_of(lifetime),
                spec_entry_of(status),
            ) == Some(r@),
            None => spec_api_key(
                spec_entry_of(key),
                spec_entry_of(usage),
                spec_entry_of(lifetime),
                spec_entry_of(status),
            ) is None,
        },
{
    match (key, status) {
        (Some(Element::Text(text)), Some(Element::Boolean(enabled))) => Some(
            ApiKeyRecord {
                key: String::from_str(text),
                state: KeyState {
                    usage_count: count_of(usage),
                    lifetime_count: count_of(lifetime),
                    enabled,
                },
            },
        ),
        _ => None,
    }
}

/// The snapshot that two elements and a quick status stand for, if they
/// stand for one.
pub fn snapshot_of(
    product: Option<Element<'_>>,
    timestamp: Option<Element<'_>>,
    quick_status: QuickStatus,
) -> (snapshot: Option<ProductSnapshot>)
    ensures
        match snapshot {
            Some(s) => spec_snapshot(
                spec_entry_of(product),
                spec_entry_of(timestamp),
                quick_status,
            ) == Some(s@),
            None => spec_snapshot(
                spec_entry_of(product),
                spec_entry_of(timestamp),
                quick_status,
            ) is None,
        },
{
    match (product, instant_of(timestamp)) {
        (Some(Element::Text(text)), Some(instant)) => Some(
            ProductSnapshot {
                product_id: String::from_str(text),
                timestamp: instant,
                quick_status,
            },
        ),
        _ => None,
    }
}

/// Reads a key record out of a document of the key ledger. `None` where the
/// document has no text under `apikey` or no boolean under `status`.
pub fn decode_api_key(doc: &Document) -> (record: Option<ApiKeyRecord>)
    ensures
        match record {
            Some(r) => spec_decode_api_key(document_entries(*doc)) == Some(r@),
            None => spec_decode_api_key(document_entries(*doc)) is None,
        },
{
    let key = lookup(doc, "apikey");
    let usage = lookup(doc, "checkLimit");
    let lifetime = lookup(doc, "totalCheck");
    let status = lookup(doc, "status");
    api_key_of(key, usage, lifetime, status)
}

/// Reads the numbers of a quick status out of its document. A number that
/// the document lacks, or holds as anything but a number, is left out.
pub fn decode_quick_status(doc: &Document) -> (status: QuickStatus)
    ensures
        status == spec_decode_quick_status(document_entries(*doc)),
        forall|field: Field|
            status.spec_get(field) == spec_number(
                spec_entry(document_entries(*doc), #[trigger] field.spec_name()),
            ),
{
    QuickStatus {
        sell_price: number_of(lookup(doc, Field::SellPrice.name())),
        buy_price: number_of(lookup(doc, Field::BuyPrice.name())),
        sell_volume: number_of(lookup(doc, Field::SellVolume.name())),
        buy_volume: number_of(lookup(doc, Field::BuyVolume.name())),
        sell_orders: number_of(lookup(doc, Field::SellOrders.name())),
        buy_orders: number_of(lookup(doc, Field::BuyOrders.name())),
        sell_moving_week: number_of(lookup(doc, Field::SellMovingWeek.name())),
        buy_moving_week: number_of(lookup(doc, Field::BuyMovingWeek.name())),
    }
}

/// Reads a snapshot out of a document of the snapshot store. `None` where
/// the document has no text under `product_id` or no timestamp under
/// `timestamp`. A document without an embedded document under `quick_status`
/// gives a snapshot without numbers.
pub fn decode_snapshot(doc: &Document) -> (snapshot: Option<ProductSnapshot>)
    ensures
        match snapshot {
            Some(s) => spec_decode_snapshot(document_entries(*doc)) == Some(s@),
            None => spec_decode_snapshot(document_entries(*doc)) is None,
        },
{
    let product = lookup(doc, "product_id");
    let timestamp = lookup(doc, "timestamp");
    let quick_status = match lookup(doc, "quick_status") {
        Some(Element::Document(inner)) => decode_quick_status(inner),
        _ => QuickStatus::empty(),
    };
    snapshot_of(product, timestamp, quick_status)
}

} // verus!
