use bazaar_api::document::api_key_of;
use bazaar_api::document::count_of;
use bazaar_api::document::decode_api_key;
use bazaar_api::document::decode_quick_status;
use bazaar_api::document::decode_snapshot;
use bazaar_api::document::instant_of;
use bazaar_api::document::number_of;
use bazaar_api::document::snapshot_of;
use bazaar_api::document::Element;
use bazaar_api::models::ApiKeyRecord;
use bazaar_api::models::FieldValue;
use bazaar_api::models::KeyState;
use bazaar_api::models::ProductSnapshot;
use bazaar_api::models::QuickStatus;
use bson::Bson;
use bson::Document;

fn key_document(key: &str, usage: Bson, lifetime: Bson, status: Bson) -> Document {
    let mut doc = Document::new();
    doc.insert("_id", Bson::Int32(1));
    doc.insert("apikey", Bson::String(key.to_string()));
    doc.insert("checkLimit", usage);
    doc.insert("totalCheck", lifetime);
    doc.insert("status", status);
    doc
}

fn quick_status_document() -> Document {
    let mut doc = Document::new();
    doc.insert("productId", Bson::String("SULPHUR".to_string()));
    doc.insert("sellPrice", Bson::Double(12.5));
    doc.insert("sellVolume", Bson::Int64(1000));
    doc.insert("sellMovingWeek", Bson::Int64(500000));
    doc.insert("sellOrders", Bson::Int32(30));
    doc.insert("buyPrice", Bson::Double(13.75));
    doc.insert("buyVolume", Bson::Int64(2000));
    doc.insert("buyMovingWeek", Bson::Int64(600000));
    doc.insert("buyOrders", Bson::Int32(40));
    doc
}

fn quick_status() -> QuickStatus {
    QuickStatus {
        sell_price: Some(FieldValue::Real(12.5f64.to_bits())),
        buy_price: Some(FieldValue::Real(13.75f64.to_bits())),
        sell_volume: Some(FieldValue::Integer(1000)),
        buy_volume: Some(FieldValue::Integer(2000)),
        sell_orders: Some(FieldValue::Integer(30)),
        buy_orders: Some(FieldValue::Integer(40)),
        sell_moving_week: Some(FieldValue::Integer(500000)),
        buy_moving_week: Some(FieldValue::Integer(600000)),
    }
}

fn snapshot_document(timestamp: Bson) -> Document {
    let mut doc = Document::new();
    doc.insert("_id", Bson::Int32(7));
    doc.insert("product_id", Bson::String("SULPHUR".to_string()));
    doc.insert("timestamp", timestamp);
    doc.insert("quick_status", Bson::Document(quick_status_document()));
    doc
}

#[test]
fn key_document_decodes_to_its_record() {
    let doc = key_document("ABC", Bson::Int32(12), Bson::Int64(3400), Bson::Boolean(true));
    assert_eq!(
        decode_api_key(&doc),
        Some(ApiKeyRecord {
            key: "ABC".to_string(),
            state: KeyState { usage_count: 12, lifetime_count: 3400, enabled: true },
        })
    );
}

#[test]
fn key_document_with_wide_counters_decodes() {
    let doc = key_document("ABC", Bson::Int64(499), Bson::Int64(i64::MAX), Bson::Boolean(false));
    assert_eq!(
        decode_api_key(&doc),
        Some(ApiKeyRecord {
            key: "ABC".to_string(),
            state: KeyState { usage_count: 499, lifetime_count: i64::MAX as u64, enabled: false },
        })
    );
}

#[test]
fn key_document_without_counters_counts_from_zero() {
    let mut doc = Document::new();
    doc.insert("apikey", Bson::String("ABC".to_string()));
    doc.insert("status", Bson::Boolean(true));
    assert_eq!(
        decode_api_key(&doc),
        Some(ApiKeyRecord {
            key: "ABC".to_string(),
            state: KeyState { usage_count: 0, lifetime_count: 0, enabled: true },
        })
    );
}

#[test]
fn key_document_with_counters_of_another_kind_counts_from_zero() {
    let text = Bson::String("7".to_string());
    let doc = key_document("ABC", Bson::Double(12.0), text, Bson::Boolean(true));
    assert_eq!(
        decode_api_key(&doc),
        Some(ApiKeyRecord {
            key: "ABC".to_string(),
            state: KeyState { usage_count: 0, lifetime_count: 0, enabled: true },
        })
    );
}

#[test]
fn key_document_with_counters_below_zero_counts_from_zero() {
    let doc = key_document("ABC", Bson::Int32(-3), Bson::Int64(-9), Bson::Boolean(true));
    assert_eq!(
        decode_api_key(&doc),
        Some(ApiKeyRecord {
            key: "ABC".to_string(),
            state: KeyState { usage_count: 0, lifetime_count: 0, enabled: true },
        })
    );
}

#[test]
fn key_document_without_status_is_no_record() {
    let mut doc = Document::new();
    doc.insert("apikey", Bson::String("ABC".to_string()));
    doc.insert("checkLimit", Bson::Int32(1));
    assert_eq!(decode_api_key(&doc), None);
    let doc = key_document("ABC", Bson::Int32(1), Bson::Int32(1), Bson::Int32(1));
    assert_eq!(decode_api_key(&doc), None);
    let doc = key_document("ABC", Bson::Int32(1), Bson::Int32(1), Bson::Null);
    assert_eq!(decode_api_key(&doc), None);
}

#[test]
fn key_document_without_key_is_no_record() {
    let mut doc = Document::new();
    doc.insert("status", Bson::Boolean(true));
    assert_eq!(decode_api_key(&doc), None);
    doc.insert("apikey", Bson::Int32(5));
    assert_eq!(decode_api_key(&doc), None);
    assert_eq!(decode_api_key(&Document::new()), None);
}

#[test]
fn key_document_is_read_by_key_not_by_position() {
    let mut doc = Document::new();
    doc.insert("status", Bson::Boolean(true));
    doc.insert("totalCheck", Bson::Int32(9));
    doc.insert("checkLimit", Bson::Int32(4));
    doc.insert("apikey", Bson::String("ABC".to_string()));
    assert_eq!(
        decode_api_key(&doc),
        Some(ApiKeyRecord {
            key: "ABC".to_string(),
            state: KeyState { usage_count: 4, lifetime_count: 9, enabled: true },
        })
    );
}

#[test]
fn quick_status_document_decodes_to_its_numbers() {
    assert_eq!(decode_quick_status(&quick_status_document()), quick_status());
}

#[test]
fn quick_status_keeps_the_kind_that_the_document_holds() {
    let mut doc = Document::new();
    doc.insert("sellPrice", Bson::Int32(12));
    doc.insert("buyVolume", Bson::Double(0.5));
    let mut expected = QuickStatus::empty();
    expected.sell_price = Some(FieldValue::Integer(12));
    expected.buy_volume = Some(FieldValue::Real(0.5f64.to_bits()));
    assert_eq!(decode_quick_status(&doc), expected);
}

#[test]
fn quick_status_leaves_out_what_is_missing_or_no_number() {
    let mut doc = Document::new();
    doc.insert("sellPrice", Bson::String("12.5".to_string()));
    doc.insert("buyPrice", Bson::Null);
    doc.insert("sellOrders", Bson::Boolean(true));
    doc.insert("sellprice", Bson::Double(1.0));
    doc.insert("buyOrders", Bson::Int32(40));
    let mut expected = QuickStatus::empty();
    expected.buy_orders = Some(FieldValue::Integer(40));
    assert_eq!(decode_quick_status(&doc), expected);
    assert_eq!(decode_quick_status(&Document::new()), QuickStatus::empty());
}

#[test]
fn snapshot_document_decodes_to_its_snapshot() {
    let doc = snapshot_document(Bson::Int64(1700000000000));
    assert_eq!(
        decode_snapshot(&doc),
        Some(ProductSnapshot {
            product_id: "SULPHUR".to_string(),
            timestamp: 1700000000000,
            quick_status: quick_status(),
        })
    );
}

#[test]
fn snapshot_timestamp_may_be_narrow_or_a_date() {
    let doc = snapshot_document(Bson::Int32(-5));
    assert_eq!(decode_snapshot(&doc).map(|s| s.timestamp), Some(-5));
    let doc = snapshot_document(Bson::DateTime(bson::DateTime::from_millis(1234567)));
    assert_eq!(decode_snapshot(&doc).map(|s| s.timestamp), Some(1234567));
}

#[test]
fn snapshot_document_without_product_or_timestamp_is_no_snapshot() {
    let mut doc = snapshot_document(Bson::Int64(3));
    doc.remove("product_id");
    assert_eq!(decode_snapshot(&doc), None);
    let mut doc = snapshot_document(Bson::Int64(3));
    doc.remove("timestamp");
    assert_eq!(decode_snapshot(&doc), None);
    let doc = snapshot_document(Bson::Double(3.0));
    assert_eq!(decode_snapshot(&doc), None);
    let doc = snapshot_document(Bson::String("3".to_string()));
    assert_eq!(decode_snapshot(&doc), None);
    let mut doc = snapshot_document(Bson::Int64(3));
    doc.insert("product_id", Bson::Int32(1));
    assert_eq!(decode_snapshot(&doc), None);
    assert_eq!(decode_snapshot(&Document::new()), None);
}

#[test]
fn snapshot_document_without_quick_status_has_no_numbers() {
    let mut doc = snapshot_document(Bson::Int64(3));
    doc.remove("quick_status");
    assert_eq!(
        decode_snapshot(&doc),
        Some(ProductSnapshot {
            product_id: "SULPHUR".to_string(),
            timestamp: 3,
            quick_status: QuickStatus::empty(),
        })
    );
    doc.insert("quick_status", Bson::String("none".to_string()));
    assert_eq!(decode_snapshot(&doc).map(|s| s.quick_status), Some(QuickStatus::empty()));
}

#[test]
fn snapshot_numbers_come_from_the_embedded_document_only() {
    let mut doc = Document::new();
    doc.insert("product_id", Bson::String("SULPHUR".to_string()));
    doc.insert("timestamp", Bson::Int64(3));
    doc.insert("sellPrice", Bson::Double(99.0));
    let mut inner = Document::new();
    inner.insert("buyPrice", Bson::Double(1.5));
    doc.insert("quick_status", Bson::Document(inner));
    let mut expected = QuickStatus::empty();
    expected.buy_price = Some(FieldValue::Real(1.5f64.to_bits()));
    assert_eq!(decode_snapshot(&doc).map(|s| s.quick_status), Some(expected));
}

#[test]
fn count_of_reads_integers_that_are_not_below_zero() {
    assert_eq!(count_of(Some(Element::Int32(7))), 7);
    assert_eq!(count_of(Some(Element::Int64(7000000000))), 7000000000);
    assert_eq!(count_of(Some(Element::Int32(0))), 0);
    assert_eq!(count_of(Some(Element::Int32(i32::MAX))), i32::MAX as u64);
    assert_eq!(count_of(Some(Element::Int64(i64::MAX))), i64::MAX as u64);
    assert_eq!(count_of(Some(Element::Int32(-1))), 0);
    assert_eq!(count_of(Some(Element::Int64(i64::MIN))), 0);
    assert_eq!(count_of(Some(Element::Double(7.0f64.to_bits()))), 0);
    assert_eq!(count_of(Some(Element::Boolean(true))), 0);
    assert_eq!(count_of(Some(Element::Text("7"))), 0);
    assert_eq!(count_of(Some(Element::DateTime(7))), 0);
    assert_eq!(count_of(Some(Element::Other)), 0);
    assert_eq!(count_of(None), 0);
}

#[test]
fn number_of_reads_doubles_and_integers() {
    let bits = 12.5f64.to_bits();
    assert_eq!(number_of(Some(Element::Double(bits))), Some(FieldValue::Real(bits)));
    assert_eq!(number_of(Some(Element::Int32(-3))), Some(FieldValue::Integer(-3)));
    assert_eq!(number_of(Some(Element::Int64(i64::MIN))), Some(FieldValue::Integer(i64::MIN)));
    assert_eq!(number_of(Some(Element::Boolean(true))), None);
    assert_eq!(number_of(Some(Element::Text("1"))), None);
    assert_eq!(number_of(Some(Element::DateTime(1))), None);
    assert_eq!(number_of(Some(Element::Other)), None);
    assert_eq!(number_of(None), None);
}

#[test]
fn instant_of_reads_integers_and_dates() {
    assert_eq!(instant_of(Some(Element::Int32(-3))), Some(-3));
    assert_eq!(instant_of(Some(Element::Int64(9))), Some(9));
    assert_eq!(instant_of(Some(Element::DateTime(1234))), Some(1234));
    assert_eq!(instant_of(Some(Element::Double(1.0f64.to_bits()))), None);
    assert_eq!(instant_of(Some(Element::Text("1"))), None);
    assert_eq!(instant_of(None), None);
}

#[test]
fn api_key_of_needs_a_text_and_a_boolean() {
    assert_eq!(
        api_key_of(
            Some(Element::Text("ABC")),
            Some(Element::Int32(2)),
            None,
            Some(Element::Boolean(false))
        ),
        Some(ApiKeyRecord {
            key: "ABC".to_string(),
            state: KeyState { usage_count: 2, lifetime_count: 0, enabled: false },
        })
    );
    assert_eq!(api_key_of(None, None, None, Some(Element::Boolean(true))), None);
    assert_eq!(api_key_of(Some(Element::Text("ABC")), None, None, None), None);
    assert_eq!(
        api_key_of(Some(Element::Int32(1)), None, None, Some(Element::Boolean(true))),
        None
    );
}

#[test]
fn snapshot_of_needs_a_text_and_a_timestamp() {
    assert_eq!(
        snapshot_of(Some(Element::Text("COAL")), Some(Element::Int64(5)), quick_status()),
        Some(ProductSnapshot {
            product_id: "COAL".to_string(),
            timestamp: 5,
            quick_status: quick_status(),
        })
    );
    assert_eq!(snapshot_of(None, Some(Element::Int64(5)), quick_status()), None);
    assert_eq!(snapshot_of(Some(Element::Text("COAL")), None, quick_status()), None);
    assert_eq!(
        snapshot_of(Some(Element::Text("COAL")), Some(Element::Boolean(true)), quick_status()),
        None
    );
}
