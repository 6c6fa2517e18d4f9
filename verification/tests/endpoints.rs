use bazaar_api::api::answer;
use bazaar_api::api::get_fields;
use bazaar_api::api::get_latest_field;
use bazaar_api::api::get_latest_product;
use bazaar_api::api::not_found;
use bazaar_api::api::refusal;
use bazaar_api::api::rejection;
use bazaar_api::api::serve;
use bazaar_api::api::step;
use bazaar_api::api::Action;
use bazaar_api::api::AppState;
use bazaar_api::api::Event;
use bazaar_api::api::Failure;
use bazaar_api::api::GatePolicy;
use bazaar_api::api::Payload;
use bazaar_api::api::Request;
use bazaar_api::api::Response;
use bazaar_api::api::Route;
use bazaar_api::api::Stage;
use bazaar_api::db::ConsumeOutcome;
use bazaar_api::db::QuotaLedger;
use bazaar_api::db::StoreError;
use bazaar_api::models::ApiKeyQuery;
use bazaar_api::models::ApiKeyRecord;
use bazaar_api::models::Field;
use bazaar_api::models::FieldValue;
use bazaar_api::models::KeyState;
use bazaar_api::models::ProductSnapshot;
use bazaar_api::models::QuickStatus;
use bazaar_api::store::SnapshotStore;

fn price(value: f64) -> FieldValue {
    FieldValue::Real(value.to_bits())
}

fn key(key: &str) -> ApiKeyQuery {
    ApiKeyQuery { key: key.to_string() }
}

fn quote(product_id: &str, timestamp: i64, sell_price: f64) -> ProductSnapshot {
    let mut quick_status = QuickStatus::empty();
    quick_status.set(Field::SellPrice, Some(price(sell_price)));
    quick_status.set(Field::SellVolume, Some(FieldValue::Integer(timestamp * 100)));
    ProductSnapshot { product_id: product_id.to_string(), timestamp, quick_status }
}

fn state(usage_count: u64, lifetime_count: u64, enabled: bool) -> KeyState {
    KeyState { usage_count, lifetime_count, enabled }
}

fn fixture(gate_snapshot: bool) -> AppState {
    let mut ledger = QuotaLedger::new();
    ledger.insert(ApiKeyRecord { key: "ABC".to_string(), state: state(10, 110, true) });
    ledger.insert(ApiKeyRecord { key: "FULL".to_string(), state: state(500, 900, true) });
    ledger.insert(ApiKeyRecord { key: "OFF".to_string(), state: state(0, 5, false) });
    ledger.insert(ApiKeyRecord { key: "WORN".to_string(), state: state(0, u64::MAX, true) });
    let mut store = SnapshotStore::new();
    store.insert(quote("SULPHUR", 1, 10.5));
    store.insert(quote("SULPHUR", 3, 12.5));
    store.insert(quote("COAL", 9, 2.25));
    store.insert(quote("SULPHUR", 2, 11.5));
    store.insert(ProductSnapshot {
        product_id: "BARE".to_string(),
        timestamp: 4,
        quick_status: QuickStatus::empty(),
    });
    AppState { policy: GatePolicy { gate_snapshot }, ledger, store }
}

fn ask_snapshot(data: &mut AppState, product_id: &str, api_key: &str) -> Response {
    get_latest_product(product_id.to_string(), key(api_key), data)
}

fn ask_field(data: &mut AppState, product_id: &str, field: &str, api_key: &str) -> Response {
    get_latest_field((product_id.to_string(), field.to_string()), key(api_key), data)
}

fn ask_history(
    data: &mut AppState,
    product_id: &str,
    field: &str,
    limit: usize,
    api_key: &str,
) -> Response {
    get_fields((product_id.to_string(), field.to_string(), limit), key(api_key), data)
}

fn allowed<'a>() -> Event<'a> {
    Event::Quota(Ok(ConsumeOutcome::Allowed))
}

fn respond(failure: Failure) -> (Stage, Action) {
    (Stage::Finished, Action::Respond(Response::Failure(failure)))
}

fn field_request(product_id: &str, field: &str, api_key: &str) -> Request {
    Request {
        route: Route::Field,
        product_id: product_id.to_string(),
        field: field.to_string(),
        limit: 0,
        query: key(api_key),
    }
}

fn history_request(product_id: &str, field: &str, limit: usize, api_key: &str) -> Request {
    Request {
        route: Route::History,
        product_id: product_id.to_string(),
        field: field.to_string(),
        limit,
        query: key(api_key),
    }
}

fn snapshot_request(product_id: &str, api_key: &str) -> Request {
    Request {
        route: Route::Snapshot,
        product_id: product_id.to_string(),
        field: String::new(),
        limit: 0,
        query: key(api_key),
    }
}

#[test]
fn field_route_answers_200_with_the_current_value() {
    let mut data = fixture(false);
    let response = ask_field(&mut data, "SULPHUR", "sellPrice", "ABC");
    assert_eq!(response.status(), 200);
    assert_eq!(response, Response::Success(Payload::Value(price(12.5))));
    assert_eq!(data.ledger.get("ABC"), Some(state(11, 111, true)));
}

#[test]
fn field_route_at_the_ceiling_answers_429() {
    let mut data = fixture(false);
    let response = ask_field(&mut data, "SULPHUR", "sellPrice", "FULL");
    assert_eq!(response.status(), 429);
    assert_eq!(response, Response::Failure(Failure::QuotaExceeded));
    assert_eq!(data.ledger.get("FULL"), Some(state(500, 900, true)));
}

#[test]
fn field_route_with_an_unknown_key_answers_404_key_not_found() {
    let mut data = fixture(false);
    let response = ask_field(&mut data, "SULPHUR", "sellPrice", "NOPE");
    assert_eq!(response.status(), 404);
    assert_eq!(response, Response::Failure(Failure::KeyNotFound));
    assert_eq!(Failure::KeyNotFound.message(), "Key Not Found");
    assert_eq!(data.ledger.get("NOPE"), None);
}

#[test]
fn field_route_with_a_disabled_key_answers_404() {
    let mut data = fixture(false);
    let response = ask_field(&mut data, "SULPHUR", "sellPrice", "OFF");
    assert_eq!(response.status(), 404);
    assert_eq!(response, Response::Failure(Failure::KeyDisabled));
    assert_eq!(data.ledger.get("OFF"), Some(state(0, 5, false)));
}

#[test]
fn field_route_with_a_nonsense_field_answers_400_and_charges_nothing() {
    let mut data = fixture(false);
    let response = ask_field(&mut data, "SULPHUR", "nonsense", "ABC");
    assert_eq!(response.status(), 400);
    assert_eq!(response, Response::Failure(Failure::InvalidField));
    assert_eq!(data.ledger.get("ABC"), Some(state(10, 110, true)));
}

#[test]
fn nonsense_field_is_turned_away_before_any_store_is_asked() {
    let request = field_request("SULPHUR", "nonsense", "ABC");
    let policy = GatePolicy { gate_snapshot: false };
    let next = step(&request, policy, Stage::Received, Event::Arrived);
    assert_eq!(next, respond(Failure::InvalidField));
}

#[test]
fn invalid_product_is_checked_before_the_field() {
    let mut data = fixture(false);
    let response = ask_field(&mut data, "SUL PHUR", "nonsense", "ABC");
    assert_eq!(response.status(), 400);
    assert_eq!(response, Response::Failure(Failure::InvalidProduct));
    assert_eq!(data.ledger.get("ABC"), Some(state(10, 110, true)));
}

#[test]
fn invalid_request_with_an_unknown_key_answers_400_not_404() {
    let mut data = fixture(false);
    let response = ask_field(&mut data, "SULPHUR", "nonsense", "NOPE");
    assert_eq!(response, Response::Failure(Failure::InvalidField));
}

#[test]
fn field_route_charges_the_key_even_where_no_data_is_found() {
    let mut data = fixture(false);
    let response = ask_field(&mut data, "DIAMOND", "sellPrice", "ABC");
    assert_eq!(response.status(), 404);
    assert_eq!(response, Response::Failure(Failure::FieldNotFound(Field::SellPrice)));
    assert_eq!(data.ledger.get("ABC"), Some(state(11, 111, true)));
}

#[test]
fn field_route_answers_404_where_the_latest_snapshot_lacks_the_field() {
    let mut data = fixture(false);
    let response = ask_field(&mut data, "SULPHUR", "buyOrders", "ABC");
    assert_eq!(response, Response::Failure(Failure::FieldNotFound(Field::BuyOrders)));
    let response = ask_field(&mut data, "BARE", "sellPrice", "ABC");
    assert_eq!(response, Response::Failure(Failure::FieldNotFound(Field::SellPrice)));
}

#[test]
fn field_route_with_a_worn_out_counter_answers_500() {
    let mut data = fixture(false);
    let response = ask_field(&mut data, "SULPHUR", "sellPrice", "WORN");
    assert_eq!(response.status(), 500);
    assert_eq!(response, Response::Failure(Failure::StoreUnavailable));
    assert_eq!(data.ledger.get("WORN"), Some(state(0, u64::MAX, true)));
}

#[test]
fn history_route_answers_the_newest_values_first() {
    let mut data = fixture(false);
    let response = ask_history(&mut data, "SULPHUR", "sellPrice", 2, "ABC");
    assert_eq!(response.status(), 200);
    assert_eq!(response, Response::Success(Payload::Values(vec![price(12.5), price(11.5)])));
    assert_eq!(data.ledger.get("ABC"), Some(state(11, 111, true)));
}

#[test]
fn history_route_with_a_large_limit_answers_all_values() {
    let mut data = fixture(false);
    let response = ask_history(&mut data, "SULPHUR", "sellVolume", 100, "ABC");
    assert_eq!(
        response,
        Response::Success(
            Payload::Values(
                vec![FieldValue::Integer(300), FieldValue::Integer(200), FieldValue::Integer(100)]
            )
        )
    );
}

#[test]
fn history_route_with_limit_zero_answers_404_and_charges_the_key() {
    let mut data = fixture(false);
    let response = ask_history(&mut data, "SULPHUR", "sellPrice", 0, "ABC");
    assert_eq!(response.status(), 404);
    assert_eq!(response, Response::Failure(Failure::FieldNotFound(Field::SellPrice)));
    assert_eq!(data.ledger.get("ABC"), Some(state(11, 111, true)));
}

#[test]
fn history_route_drops_snapshots_without_the_field() {
    let mut data = fixture(false);
    let mut with_orders = quote("SULPHUR", 5, 14.5);
    with_orders.quick_status.set(Field::BuyOrders, Some(FieldValue::Integer(8)));
    data.store.insert(with_orders);
    let response = ask_history(&mut data, "SULPHUR", "buyOrders", 10, "ABC");
    assert_eq!(response, Response::Success(Payload::Values(vec![FieldValue::Integer(8)])));
    let response = ask_history(&mut data, "SULPHUR", "buyPrice", 10, "ABC");
    assert_eq!(response, Response::Failure(Failure::FieldNotFound(Field::BuyPrice)));
}

#[test]
fn history_route_refuses_as_the_field_route_does() {
    let mut data = fixture(false);
    let response = ask_history(&mut data, "SULPHUR", "sellPrice", 2, "FULL");
    assert_eq!(response.status(), 429);
    let response = ask_history(&mut data, "SULPHUR", "sellPrice", 2, "NOPE");
    assert_eq!(response, Response::Failure(Failure::KeyNotFound));
    let response = ask_history(&mut data, "SULPHUR", "sellPrice", 2, "OFF");
    assert_eq!(response, Response::Failure(Failure::KeyDisabled));
    let response = ask_history(&mut data, "SULPHUR", "SellPrice", 2, "ABC");
    assert_eq!(response, Response::Failure(Failure::InvalidField));
    let response = ask_history(&mut data, "SULPHUR!", "sellPrice", 2, "ABC");
    assert_eq!(response, Response::Failure(Failure::InvalidProduct));
    assert_eq!(data.ledger.get("ABC"), Some(state(10, 110, true)));
}

#[test]
fn snapshot_route_without_gate_answers_the_latest_snapshot_and_charges_nothing() {
    let mut data = fixture(false);
    let response = ask_snapshot(&mut data, "SULPHUR", "NOPE");
    assert_eq!(response.status(), 200);
    assert_eq!(response, Response::Success(Payload::Snapshot(quote("SULPHUR", 3, 12.5))));
    let response = ask_snapshot(&mut data, "SULPHUR", "ABC");
    assert_eq!(response.status(), 200);
    assert_eq!(data.ledger.get("ABC"), Some(state(10, 110, true)));
}

#[test]
fn snapshot_route_with_gate_charges_the_key() {
    let mut data = fixture(true);
    let response = ask_snapshot(&mut data, "SULPHUR", "ABC");
    assert_eq!(response, Response::Success(Payload::Snapshot(quote("SULPHUR", 3, 12.5))));
    assert_eq!(data.ledger.get("ABC"), Some(state(11, 111, true)));
    let response = ask_snapshot(&mut data, "SULPHUR", "NOPE");
    assert_eq!(response, Response::Failure(Failure::KeyNotFound));
    let response = ask_snapshot(&mut data, "SULPHUR", "OFF");
    assert_eq!(response, Response::Failure(Failure::KeyDisabled));
    let response = ask_snapshot(&mut data, "SULPHUR", "FULL");
    assert_eq!(response, Response::Failure(Failure::QuotaExceeded));
}

#[test]
fn snapshot_route_answers_404_for_a_product_without_snapshots() {
    let mut data = fixture(false);
    let response = ask_snapshot(&mut data, "DIAMOND", "ABC");
    assert_eq!(response.status(), 404);
    assert_eq!(response, Response::Failure(Failure::SnapshotNotFound));
}

#[test]
fn snapshot_route_answers_400_for_an_invalid_product() {
    let mut data = fixture(true);
    let response = ask_snapshot(&mut data, "DIA MOND", "ABC");
    assert_eq!(response.status(), 400);
    assert_eq!(response, Response::Failure(Failure::InvalidProduct));
    assert_eq!(data.ledger.get("ABC"), Some(state(10, 110, true)));
}

#[test]
fn snapshot_route_does_not_look_at_the_field() {
    let mut data = fixture(false);
    let mut request = snapshot_request("SULPHUR", "ABC");
    request.field = "nonsense".to_string();
    let response = serve(&request, data.policy, &mut data.ledger, &data.store);
    assert_eq!(response.status(), 200);
}

#[test]
fn unknown_route_answers_404_page_not_found() {
    let response = not_found();
    assert_eq!(response.status(), 404);
    assert_eq!(response, Response::Failure(Failure::RouteNotFound));
    assert_eq!(Failure::RouteNotFound.message(), "Page not found");
}

#[test]
fn every_failure_has_its_status() {
    assert_eq!(Failure::InvalidProduct.status(), 400);
    assert_eq!(Failure::InvalidField.status(), 400);
    assert_eq!(Failure::KeyNotFound.status(), 404);
    assert_eq!(Failure::KeyDisabled.status(), 404);
    assert_eq!(Failure::QuotaExceeded.status(), 429);
    assert_eq!(Failure::SnapshotNotFound.status(), 404);
    assert_eq!(Failure::FieldNotFound(Field::BuyPrice).status(), 404);
    assert_eq!(Failure::StoreUnavailable.status(), 500);
    assert_eq!(Failure::RouteNotFound.status(), 404);
}

#[test]
fn every_failure_has_its_message() {
    assert_eq!(Failure::InvalidProduct.message(), "invalid item");
    assert_eq!(Failure::InvalidField.message(), "invalid field");
    assert_eq!(Failure::KeyNotFound.message(), "Key Not Found");
    assert_eq!(Failure::KeyDisabled.message(), "status false");
    assert_eq!(Failure::QuotaExceeded.message(), "Sorgu limiti aşıldı");
    assert_eq!(Failure::SnapshotNotFound.message(), "Item data not found");
    assert_eq!(
        Failure::FieldNotFound(Field::SellPrice).message(),
        "'sellPrice' alanı için veri bulunamadı"
    );
    assert_eq!(
        Failure::FieldNotFound(Field::BuyMovingWeek).message(),
        "'buyMovingWeek' alanı için veri bulunamadı"
    );
    assert_eq!(Failure::StoreUnavailable.message(), "Internal Server Error");
    assert_eq!(Failure::RouteNotFound.message(), "Page not found");
}

#[test]
fn rejection_names_the_first_check_that_fails() {
    assert_eq!(rejection(&field_request("SULPHUR", "sellPrice", "ABC")), None);
    assert_eq!(
        rejection(&field_request("SUL-PHUR", "sellPrice", "ABC")),
        Some(Failure::InvalidProduct)
    );
    assert_eq!(rejection(&field_request("SULPHUR", "price", "ABC")), Some(Failure::InvalidField));
    assert_eq!(
        rejection(&history_request("SULPHUR", "price", 3, "ABC")),
        Some(Failure::InvalidField)
    );
    assert_eq!(rejection(&snapshot_request("SULPHUR", "ABC")), None);
    assert_eq!(rejection(&snapshot_request("", "ABC")), None);
}

#[test]
fn refusal_maps_each_outcome() {
    assert_eq!(refusal(Ok(ConsumeOutcome::Allowed)), None);
    assert_eq!(refusal(Ok(ConsumeOutcome::Denied)), Some(Failure::QuotaExceeded));
    assert_eq!(refusal(Ok(ConsumeOutcome::KeyNotFound)), Some(Failure::KeyNotFound));
    assert_eq!(refusal(Ok(ConsumeOutcome::KeyDisabled)), Some(Failure::KeyDisabled));
    assert_eq!(refusal(Err(StoreError::Unavailable)), Some(Failure::StoreUnavailable));
    assert_eq!(refusal(Err(StoreError::CounterExhausted)), Some(Failure::StoreUnavailable));
}

#[test]
fn answer_reads_the_records_that_it_is_given() {
    let data = fixture(false);
    assert_eq!(
        answer(&field_request("COAL", "sellPrice", "ABC"), &data.store),
        Response::Success(Payload::Value(price(2.25)))
    );
    assert_eq!(
        answer(&history_request("COAL", "sellPrice", 5, "ABC"), &data.store),
        Response::Success(Payload::Values(vec![price(2.25)]))
    );
    assert_eq!(
        answer(&snapshot_request("COAL", "ABC"), &data.store),
        Response::Success(Payload::Snapshot(quote("COAL", 9, 2.25)))
    );
    assert_eq!(
        answer(&snapshot_request("COAL", "ABC"), &SnapshotStore::new()),
        Response::Failure(Failure::SnapshotNotFound)
    );
}

#[test]
fn gated_request_takes_three_steps() {
    let data = fixture(false);
    let policy = GatePolicy { gate_snapshot: false };
    let request = history_request("SULPHUR", "sellPrice", 2, "ABC");
    let (stage, action) = step(&request, policy, Stage::Received, Event::Arrived);
    assert_eq!((stage, action), (Stage::AwaitingQuota, Action::Consume));
    let (stage, action) = step(&request, policy, stage, allowed());
    assert_eq!((stage, action), (Stage::AwaitingRecords, Action::Fetch { limit: 2 }));
    let (stage, action) = step(&request, policy, stage, Event::Records(Ok(&data.store)));
    assert_eq!(stage, Stage::Finished);
    assert_eq!(
        action,
        Action::Respond(Response::Success(Payload::Values(vec![price(12.5), price(11.5)])))
    );
}

#[test]
fn field_and_snapshot_requests_fetch_one_record() {
    let policy = GatePolicy { gate_snapshot: false };
    let request = field_request("SULPHUR", "sellPrice", "ABC");
    let next = step(&request, policy, Stage::AwaitingQuota, allowed());
    assert_eq!(next, (Stage::AwaitingRecords, Action::Fetch { limit: 1 }));
    let request = snapshot_request("SULPHUR", "ABC");
    let next = step(&request, policy, Stage::Received, Event::Arrived);
    assert_eq!(next, (Stage::AwaitingRecords, Action::Fetch { limit: 1 }));
    let gated = GatePolicy { gate_snapshot: true };
    let next = step(&request, gated, Stage::Received, Event::Arrived);
    assert_eq!(next, (Stage::AwaitingQuota, Action::Consume));
}

#[test]
fn refused_key_ends_the_handling_without_a_fetch() {
    let policy = GatePolicy { gate_snapshot: false };
    let request = field_request("SULPHUR", "sellPrice", "ABC");
    for (outcome, failure) in [
        (Ok(ConsumeOutcome::Denied), Failure::QuotaExceeded),
        (Ok(ConsumeOutcome::KeyNotFound), Failure::KeyNotFound),
        (Ok(ConsumeOutcome::KeyDisabled), Failure::KeyDisabled),
        (Err(StoreError::Unavailable), Failure::StoreUnavailable),
    ] {
        let next = step(&request, policy, Stage::AwaitingQuota, Event::Quota(outcome));
        assert_eq!(next, respond(failure));
    }
}

#[test]
fn failing_snapshot_store_answers_500() {
    let policy = GatePolicy { gate_snapshot: false };
    let request = field_request("SULPHUR", "sellPrice", "ABC");
    let failed = Event::Records(Err(StoreError::Unavailable));
    let next = step(&request, policy, Stage::AwaitingRecords, failed);
    assert_eq!(next, respond(Failure::StoreUnavailable));
}

#[test]
fn event_that_was_not_awaited_answers_500() {
    let data = fixture(false);
    let policy = GatePolicy { gate_snapshot: false };
    let request = field_request("SULPHUR", "sellPrice", "ABC");
    let give_up = respond(Failure::StoreUnavailable);
    let records = Event::Records(Ok(&data.store));
    assert_eq!(step(&request, policy, Stage::Received, records), give_up);
    assert_eq!(step(&request, policy, Stage::Received, allowed()), give_up);
    assert_eq!(step(&request, policy, Stage::AwaitingQuota, Event::Arrived), give_up);
    let records = Event::Records(Ok(&data.store));
    assert_eq!(step(&request, policy, Stage::AwaitingQuota, records), give_up);
    assert_eq!(step(&request, policy, Stage::AwaitingRecords, Event::Arrived), give_up);
    assert_eq!(step(&request, policy, Stage::AwaitingRecords, allowed()), give_up);
    assert_eq!(step(&request, policy, Stage::Finished, Event::Arrived), give_up);
    assert_eq!(step(&request, policy, Stage::Finished, allowed()), give_up);
}

#[test]
fn history_with_limit_zero_is_answered_without_a_fetch() {
    let policy = GatePolicy { gate_snapshot: false };
    let request = history_request("SULPHUR", "sellPrice", 0, "ABC");
    let next = step(&request, policy, Stage::Received, Event::Arrived);
    assert_eq!(next, (Stage::AwaitingQuota, Action::Consume));
    let next = step(&request, policy, Stage::AwaitingQuota, allowed());
    assert_eq!(next, respond(Failure::FieldNotFound(Field::SellPrice)));
}

#[test]
fn requests_are_built_for_their_routes() {
    assert_eq!(
        Request::field("SULPHUR".to_string(), "sellPrice".to_string(), key("ABC")),
        field_request("SULPHUR", "sellPrice", "ABC")
    );
    assert_eq!(
        Request::history("SULPHUR".to_string(), "sellPrice".to_string(), 7, key("ABC")),
        history_request("SULPHUR", "sellPrice", 7, "ABC")
    );
    assert_eq!(
        Request::snapshot("SULPHUR".to_string(), key("ABC")),
        snapshot_request("SULPHUR", "ABC")
    );
}
