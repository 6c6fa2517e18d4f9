//! The request orchestrator: what each route answers, and the order in which
//! it asks the stores.
//!
//! A request is checked first, then charged to its key where its route is
//! gated, and only then answered from the snapshots. [`step`] takes these
//! decisions one at a time, for a caller that reaches its stores by other
//! means; [`serve`] runs them against stores held in memory.

use crate::db::check_api_key_and_increment_usage;
use crate::db::is_denied;
use crate::db::is_granted;
use crate::db::lemma_consume_keeps_records;
use crate::db::spec_consume_ledger;
use crate::db::spec_consume_outcome;
use crate::db::ConsumeOutcome;
use crate::db::QuotaLedger;
use crate::db::StoreError;
use crate::models::ApiKeyQuery;
use crate::models::Field;
use crate::models::FieldValue;
use crate::models::KeyState;
use crate::models::ProductSnapshot;
use crate::models::SnapshotView;
use crate::project::project_many;
use crate::project::project_one;
use crate::project::spec_project_many;
use crate::project::spec_project_one;
use crate::store::lemma_history_of_history;
use crate::store::lemma_history_under_zero;
use crate::store::spec_history;
use crate::store::spec_latest;
use crate::store::SnapshotStore;
use crate::utils::is_valid_product_id;
use crate::utils::parse_field;
use crate::utils::spec_is_valid_product_id;
use crate::utils::spec_parse_field;
use vstd::prelude::*;

verus! {

/// The three kinds of query.
#[derive(Clone, Copy, Debug, PartialEq, Eq, Structural)]
pub enum Route {
    /// The latest snapshot of a product, whole.
    Snapshot,
    /// One number of the latest snapshot of a product.
    Field,
    /// One number across the newest snapshots of a product.
    History,
}

/// A query as it arrived. `field` counts on the routes `Field` and
/// `History` only, `limit` on `History` only, and the key wherever the route
/// is gated.
#[derive(Debug, PartialEq, Eq)]
pub struct Request {
    pub route: Route,
    pub product_id: String,
    pub field: String,
    pub limit: usize,
    pub query: ApiKeyQuery,
}

/// What a request says.
pub struct RequestView {
    pub route: Route,
    pub product_id: Seq<char>,
    pub field: Seq<char>,
    pub limit: nat,
    pub key: Seq<char>,
}

impl View for Request {
    type V = RequestView;

    open spec fn view(&self) -> RequestView {
        RequestView {
            route: self.route,
            product_id: self.product_id@,
            field: self.field@,
            limit: self.limit as nat,
            key: self.query@,
        }
    }
}

/// What a request for the latest snapshot of a product says.
pub open spec fn spec_snapshot_request(product_id: Seq<char>, key: Seq<char>) -> RequestView {
    RequestView { route: Route::Snapshot, product_id, field: Seq::empty(), limit: 0, key }
}

/// What a request for one number of the latest snapshot says.
pub open spec fn spec_field_request(
    product_id: Seq<char>,
    field: Seq<char>,
    key: Seq<char>,
) -> RequestView {
    RequestView { route: Route::Field, product_id, field, limit: 0, key }
}

/// What a request for one number across the newest snapshots says.
pub open spec fn spec_history_request(
    product_id: Seq<char>,
    field: Seq<char>,
    limit: nat,
    key: Seq<char>,
) -> RequestView {
    RequestView { route: Route::History, product_id, field, limit, key }
}

impl Request {
    /// A request for the latest snapshot of a product.
    pub fn snapshot(product_id: String, query: ApiKeyQuery) -> (request: Request)
        ensures
            request@ == spec_snapshot_request(product_id@, query@),
    {
        Request { route: Route::Snapshot, product_id, field: String::new(), limit: 0, query }
    }

    /// A request for one number of the latest snapshot of a product.
    pub fn field(product_id: String, field: String, query: ApiKeyQuery) -> (request: Request)
        ensures
            request@ == spec_field_request(product_id@, field@, query@),
    {
        Request { route: Route::Field, product_id, field, limit: 0, query }
    }

    /// A request for one number across the newest snapshots of a product,
    /// `limit` of them at most.
    pub fn history(
        product_id: String,
        field: String,
        limit: usize,
        query: ApiKeyQuery,
    ) -> (request: Request)
        ensures
            request@ == spec_history_request(product_id@, field@, limit as nat, query@),
    {
        Request { route: Route::History, product_id, field, limit, query }
    }
}

/// Which routes charge a key. The routes `Field` and `History` always do;
/// for `Snapshot` the deployment decides.
#[derive(Clone, Copy, Debug, PartialEq, Eq, Structural)]
pub struct GatePolicy {
    pub gate_snapshot: bool,
}

/// Why a request got no data.
#[derive(Clone, Copy, Debug, PartialEq, Eq, Structural)]
pub enum Failure {
    InvalidProduct,
    InvalidField,
    KeyNotFound,
    KeyDisabled,
    QuotaExceeded,
    /// The product has no snapshot.
    SnapshotNotFound,
    /// The product has no snapshot that carries the field.
    FieldNotFound(Field),
    StoreUnavailable,
    /// The path belongs to no route.
    RouteNotFound,
}

impl Failure {
    /// The HTTP status under which the failure is reported.
    pub open spec fn spec_status(self) -> u16 {
        match self {
            Failure::InvalidProduct | Failure::InvalidField => 400,
            Failure::KeyNotFound | Failure::KeyDisabled => 404,
            Failure::SnapshotNotFound | Failure::FieldNotFound(_) | Failure::RouteNotFound => 404,
            Failure::QuotaExceeded => 429,
            Failure::StoreUnavailable => 500,
        }
    }

    /// The message under which the failure is reported.
    pub open spec fn spec_message(self) -> Seq<char> {
        match self {
            Failure::InvalidProduct => "invalid item"@,
            Failure::InvalidField => "invalid field"@,
            Failure::KeyNotFound => "Key Not Found"@,
            Failure::KeyDisabled => "status false"@,
            Failure::QuotaExceeded => "Sorgu limiti aşıldı"@,
            Failure::SnapshotNotFound => "Item data not found"@,
            Failure::FieldNotFound(field) => "'"@ + field.spec_name()
                + "' alanı için veri bulunamadı"@,
            Failure::StoreUnavailable => "Internal Server Error"@,
            Failure::RouteNotFound => "Page not found"@,
        }
    }

    /// The HTTP status under which the failure is reported.
    pub fn status(self) -> (code: u16)
        ensures
            code == self.spec_status(),
    {
        match self {
            Failure::InvalidProduct | Failure::InvalidField => 400,
            Failure::KeyNotFound | Failure::KeyDisabled => 404,
            Failure::SnapshotNotFound | Failure::FieldNotFound(_) | Failure::RouteNotFound => 404,
            Failure::QuotaExceeded => 429,
            Failure::StoreUnavailable => 500,
        }
    }

    /// The message under which the failure is reported.
    pub fn message(self) -> (text: String)
        ensures
            text@ == self.spec_message(),
    {
        match self {
            Failure::InvalidProduct => String::from_str("invalid item"),
            Failure::InvalidField => String::from_str("invalid field"),
            Failure::KeyNotFound => String::from_str("Key Not Found"),
            Failure::KeyDisabled => String::from_str("status false"),
            Failure::QuotaExceeded => String::from_str("Sorgu limiti aşıldı"),
            Failure::SnapshotNotFound => String::from_str("Item data not found"),
            Failure::FieldNotFound(field) => {
                let mut text = String::from_str("'");
                text.append(field.name());
                text.append("' alanı için veri bulunamadı");
                text
            },
            Failure::StoreUnavailable => String::from_str("Internal Server Error"),
            Failure::RouteNotFound => String::from_str("Page not found"),
        }
    }
}

/// The data of a successful answer.
#[derive(Debug, PartialEq, Eq)]
pub enum Payload {
    Snapshot(ProductSnapshot),
    Value(FieldValue),
    Values(Vec<FieldValue>),
}

/// What a payload says.
pub enum PayloadView {
    Snapshot(SnapshotView),
    Value(FieldValue),
    Values(Seq<FieldValue>),
}

impl View for Payload {
    type V = PayloadView;

    open spec fn view(&self) -> PayloadView {
        match self {
            Payload::Snapshot(snapshot) => PayloadView::Snapshot(snapshot@),
            Payload::Value(value) => PayloadView::Value(*value),
            Payload::Values(values) => PayloadView::Values(values@),
        }
    }
}

/// The answer to a request.
#[derive(Debug, PartialEq, Eq)]
pub enum Response {
    Success(Payload),
    Failure(Failure),
}

/// What a response says.
pub enum ResponseView {
    Success(PayloadView),
    Failure(Failure),
}

impl View for Response {
    type V = ResponseView;

    open spec fn view(&self) -> ResponseView {
        match self {
            Response::Success(payload) => ResponseView::Success(payload@),
            Response::Failure(failure) => ResponseView::Failure(*failure),
        }
    }
}

impl ResponseView {
    /// The HTTP status of the response: 200 for every success.
    pub open spec fn status(self) -> u16 {
        match self {
            ResponseView::Success(_) => 200,
            ResponseView::Failure(failure) => failure.spec_status(),
        }
    }
}

impl Response {
    /// The HTTP status of the response: 200 for every success.
    pub fn status(&self) -> (code: u16)
        ensures
            code == self@.status(),
    {
        match self {
            Response::Success(_) => 200,
            Response::Failure(failure) => failure.status(),
        }
    }
}

/// How far the handling of a request has come.
#[derive(Clone, Copy, Debug, PartialEq, Eq, Structural)]
pub enum Stage {
    /// Nothing has been decided yet.
    Received,
    /// The key ledger was asked to consume one unit.
    AwaitingQuota,
    /// The snapshot store was asked for records.
    AwaitingRecords,
    /// The response has been given.
    Finished,
}

impl Stage {
    /// How many steps the handling may still take.
    pub open spec fn steps_left(self) -> nat {
        match self {
            Stage::Received => 3,
            Stage::AwaitingQuota => 2,
            Stage::AwaitingRecords => 1,
            Stage::Finished => 0,
        }
    }
}

/// What happened since the last step.
pub enum Event<'a> {
    /// The request arrived.
    Arrived,
    /// The key ledger has answered the attempt to consume.
    Quota(Result<ConsumeOutcome, StoreError>),
    /// The snapshot store has answered with the records that it found.
    Records(Result<&'a SnapshotStore, StoreError>),
}

/// What an event says.
pub enum EventView {
    Arrived,
    Quota(Result<ConsumeOutcome, StoreError>),
    Records(Result<Seq<SnapshotView>, StoreError>),
}

impl<'a> View for Event<'a> {
    type V = EventView;

    open spec fn view(&self) -> EventView {
        match self {
            Event::Arrived => EventView::Arrived,
            Event::Quota(outcome) => EventView::Quota(*outcome),
            Event::Records(Ok(store)) => EventView::Records(Ok(store@)),
            Event::Records(Err(error)) => EventView::Records(Err(*error)),
        }
    }
}

/// What is to be done next.
#[derive(Debug, PartialEq, Eq)]
pub enum Action {
    /// Consume one unit of quota for the key of the request.
    Consume,
    /// Fetch records of the product of the request, the newest `limit` of
    /// them at least.
    Fetch { limit: usize },
    /// Give this response. Nothing follows.
    Respond(Response),
}

/// What an action says.
pub enum ActionView {
    Consume,
    Fetch { limit: nat },
    Respond(ResponseView),
}

impl View for Action {
    type V = ActionView;

    open spec fn view(&self) -> ActionView {
        match self {
            Action::Consume => ActionView::Consume,
            Action::Fetch { limit } => ActionView::Fetch { limit: *limit as nat },
            Action::Respond(response) => ActionView::Respond(response@),
        }
    }
}

/// Whether `route` charges a key under `policy`.
pub open spec fn spec_gated(route: Route, policy: GatePolicy) -> bool {
    route != Route::Snapshot || policy.gate_snapshot
}

/// The failure that turns a request away before any store is asked: a
/// product identifier that is not valid, or, on the routes that take a
/// field, a field name that names no field.
pub open spec fn spec_rejection(request: RequestView) -> Option<Failure> {
    if !spec_is_valid_product_id(request.product_id) {
        Some(Failure::InvalidProduct)
    } else if request.route != Route::Snapshot && spec_parse_field(request.field) is None {
        Some(Failure::InvalidField)
    } else {
        None
    }
}

/// The failure that follows from an attempt to consume, unless the unit was
/// granted.
pub open spec fn spec_refusal(outcome: Result<ConsumeOutcome, StoreError>) -> Option<Failure> {
    match outcome {
        Ok(ConsumeOutcome::Allowed) => None,
        Ok(ConsumeOutcome::Denied) => Some(Failure::QuotaExceeded),
        Ok(ConsumeOutcome::KeyNotFound) => Some(Failure::KeyNotFound),
        Ok(ConsumeOutcome::KeyDisabled) => Some(Failure::KeyDisabled),
        Err(_) => Some(Failure::StoreUnavailable),
    }
}

/// How many records a request needs: its limit on the route `History`, one
/// elsewhere.
pub open spec fn spec_fetch_limit(request: RequestView) -> nat {
    if request.route == Route::History {
        request.limit
    } else {
        1
    }
}

/// What is missing where the route `route` finds no data for `field`.
pub open spec fn spec_no_data(route: Route, field: Seq<char>) -> Failure {
    match route {
        Route::Snapshot => Failure::SnapshotNotFound,
        _ => match spec_parse_field(field) {
            Some(f) => Failure::FieldNotFound(f),
            None => Failure::InvalidField,
        },
    }
}

/// The answer to a request that has passed its checks, from the records
/// `records`.
pub open spec fn spec_answer(request: RequestView, records: Seq<SnapshotView>) -> ResponseView {
    let missing = ResponseView::Failure(spec_no_data(request.route, request.field));
    match request.route {
        Route::Snapshot => match spec_latest(records, request.product_id) {
            Some(snapshot) => ResponseView::Success(PayloadView::Snapshot(snapshot)),
            None => missing,
        },
        Route::Field => match spec_latest(records, request.product_id) {
            Some(snapshot) => match spec_project_one(snapshot, request.field) {
                Some(value) => ResponseView::Success(PayloadView::Value(value)),
                None => missing,
            },
            None => missing,
        },
        Route::History => {
            let values = spec_project_many(
                spec_history(records, request.product_id, request.limit),
                request.field,
            );
            if values.len() == 0 {
                missing
            } else {
                ResponseView::Success(PayloadView::Values(values))
            }
        },
    }
}

/// The last step of every handling that has gone wrong.
pub open spec fn spec_give_up() -> (Stage, ActionView) {
    (Stage::Finished, ActionView::Respond(ResponseView::Failure(Failure::StoreUnavailable)))
}

/// The step that follows once `request` may be answered: to fetch the
/// records that it needs, or, where it needs none, to answer at once.
pub open spec fn spec_fetch(request: RequestView) -> (Stage, ActionView) {
    if spec_fetch_limit(request) == 0 {
        (Stage::Finished, ActionView::Respond(spec_answer(request, Seq::empty())))
    } else {
        (Stage::AwaitingRecords, ActionView::Fetch { limit: spec_fetch_limit(request) })
    }
}

/// The next stage and the next action, from the stage reached and the event
/// that came. An event that the stage did not wait for ends the handling
/// with the failure `StoreUnavailable`.
pub open spec fn spec_step(
    request: RequestView,
    policy: GatePolicy,
    stage: Stage,
    event: EventView,
) -> (Stage, ActionView) {
    match (stage, event) {
        (Stage::Received, EventView::Arrived) => match spec_rejection(request) {
            Some(failure) => (Stage::Finished, ActionView::Respond(ResponseView::Failure(failure))),
            None => if spec_gated(request.route, policy) {
                (Stage::AwaitingQuota, ActionView::Consume)
            } else {
                spec_fetch(request)
            },
        },
        (Stage::AwaitingQuota, EventView::Quota(outcome)) => match spec_refusal(outcome) {
            Some(failure) => (Stage::Finished, ActionView::Respond(ResponseView::Failure(failure))),
            None => spec_fetch(request),
        },
        (Stage::AwaitingRecords, EventView::Records(Ok(records))) => (
            Stage::Finished,
            ActionView::Respond(spec_answer(request, records)),
        ),
        _ => spec_give_up(),
    }
}

/// The response that a request gets from a ledger and a store.
pub open spec fn spec_response(
    request: RequestView,
    policy: GatePolicy,
    ledger: Map<Seq<char>, KeyState>,
    store: Seq<SnapshotView>,
) -> ResponseView {
    match spec_rejection(request) {
        Some(failure) => ResponseView::Failure(failure),
        None => {
            let refusal = if spec_gated(request.route, policy) {
                spec_refusal(spec_consume_outcome(ledger, request.key))
            } else {
                None
            };
            match refusal {
                Some(failure) => ResponseView::Failure(failure),
                None => spec_answer(request, store),
            }
        },
    }
}

/// The ledger that a request leaves behind: only a request that has passed
/// its checks, on a gated route, reaches the ledger at all.
pub open spec fn spec_ledger_after(
    request: RequestView,
    policy: GatePolicy,
    ledger: Map<Seq<char>, KeyState>,
) -> Map<Seq<char>, KeyState> {
    if spec_rejection(request) is None && spec_gated(request.route, policy) {
        spec_consume_ledger(ledger, request.key)
    } else {
        ledger
    }
}

/// The failure that turns `request` away before any store is asked, if
/// there is one.
pub fn rejection(request: &Request) -> (failure: Option<Failure>)
    ensures
        failure == spec_rejection(request@),
{
    if !is_valid_product_id(request.product_id.as_str()) {
        Some(Failure::InvalidProduct)
    } else if !matches!(request.route, Route::Snapshot) && parse_field(
        request.field.as_str(),
    ).is_none() {
        Some(Failure::InvalidField)
    } else {
        None
    }
}

/// The failure that follows from an attempt to consume, unless the unit was
/// granted.
pub fn refusal(outcome: Result<ConsumeOutcome, StoreError>) -> (failure: Option<Failure>)
    ensures
        failure == spec_refusal(outcome),
{
    match outcome {
        Ok(ConsumeOutcome::Allowed) => None,
        Ok(ConsumeOutcome::Denied) => Some(Failure::QuotaExceeded),
        Ok(ConsumeOutcome::KeyNotFound) => Some(Failure::KeyNotFound),
        Ok(ConsumeOutcome::KeyDisabled) => Some(Failure::KeyDisabled),
        Err(_) => Some(Failure::StoreUnavailable),
    }
}

/// The answer to a request that has passed its checks, from the records of
/// `records`: the latest snapshot, one number of it, or one number across
/// the history.
/// Where nothing is found the answer is a failure, never an empty success.
pub fn answer(request: &Request, records: &SnapshotStore) -> (response: Response)
    ensures
        response@ == spec_answer(request@, records@),
{
    let missing = match request.route {
        Route::Snapshot => Failure::SnapshotNotFound,
        _ => match parse_field(request.field.as_str()) {
            Some(f) => Failure::FieldNotFound(f),
            None => Failure::InvalidField,
        },
    };
    match request.route {
        Route::Snapshot => match records.latest(request.product_id.as_str()) {
            Some(snapshot) => Response::Success(Payload::Snapshot(snapshot)),
            None => Response::Failure(missing),
        },
        Route::Field => match records.latest(request.product_id.as_str()) {
            Some(snapshot) => match project_one(&snapshot, request.field.as_str()) {
                Some(value) => Response::Success(Payload::Value(value)),
                None => Response::Failure(missing),
            },
            None => Response::Failure(missing),
        },
        Route::History => {
            let found = records.history(request.product_id.as_str(), request.limit);
            let values = project_many(found.as_slice(), request.field.as_str());
            if values.len() == 0 {
                Response::Failure(missing)
            } else {
                Response::Success(Payload::Values(values))
            }
        },
    }
}

/// The step that follows once `request` may be answered.
fn fetch(request: &Request) -> (next: (Stage, Action))
    ensures
        next.0 == spec_fetch(request@).0,
        next.1@ == spec_fetch(request@).1,
{
    let limit = match request.route {
        Route::History => request.limit,
        _ => 1,
    };
    if limit == 0 {
        let nothing = SnapshotStore::new();
        (Stage::Finished, Action::Respond(answer(request, &nothing)))
    } else {
        (Stage::AwaitingRecords, Action::Fetch { limit })
    }
}

/// Decides the next stage and the next action, from the stage reached and
/// the event that came. The action `Fetch` is never taken for no record at
/// all: a request that needs none is answered without the snapshot store.
pub fn step(request: &Request, policy: GatePolicy, stage: Stage, event: Event<'_>) -> (next: (
    Stage,
    Action,
))
    ensures
        next.0 == spec_step(request@, policy, stage, event@).0,
        next.1@ == spec_step(request@, policy, stage, event@).1,
        next.1 matches Action::Fetch { limit } ==> limit >= 1,
{
    match (stage, event) {
        (Stage::Received, Event::Arrived) => match rejection(request) {
            Some(failure) => (Stage::Finished, Action::Respond(Response::Failure(failure))),
            None => if !matches!(request.route, Route::Snapshot) || policy.gate_snapshot {
                (Stage::AwaitingQuota, Action::Consume)
            } else {
                fetch(request)
            },
        },
        (Stage::AwaitingQuota, Event::Quota(outcome)) => match refusal(outcome) {
            Some(failure) => (Stage::Finished, Action::Respond(Response::Failure(failure))),
            None => fetch(request),
        },
        (Stage::AwaitingRecords, Event::Records(Ok(records))) => (
            Stage::Finished,
            Action::Respond(answer(request, records)),
        ),
        _ => (Stage::Finished, Action::Respond(Response::Failure(Failure::StoreUnavailable))),
    }
}

/// Every step but the last brings the handling nearer to its end, and the
/// handling ends exactly with a response: a request is answered within three
/// steps.
pub proof fn lemma_step_ends(
    request: RequestView,
    policy: GatePolicy,
    stage: Stage,
    event: EventView,
)
    ensures
        spec_step(request, policy, stage, event).0.steps_left() < stage.steps_left() || stage
            == Stage::Finished,
        spec_step(request, policy, stage, event).0 == Stage::Finished <==> spec_step(
            request,
            policy,
            stage,
            event,
        ).1 is Respond,
        spec_step(request, policy, stage, event).1 matches ActionView::Fetch { limit } ==> limit
            >= 1,
{
}

/// A request that fails its checks is answered at once, with the status 400:
/// no store is asked and no key is charged.
pub proof fn lemma_rejected_before_any_store(
    request: RequestView,
    policy: GatePolicy,
    ledger: Map<Seq<char>, KeyState>,
    store: Seq<SnapshotView>,
)
    requires
        spec_rejection(request) is Some,
    ensures
        spec_step(request, policy, Stage::Received, EventView::Arrived) == (
            Stage::Finished,
            ActionView::Respond(spec_response(request, policy, ledger, store)),
        ),
        spec_response(request, policy, ledger, store).status() == 400,
        spec_ledger_after(request, policy, ledger) == ledger,
{
}

/// A key that is refused gets no data, and only a granted unit changes the
/// ledger: a key that is unknown, switched off or at its ceiling is not
/// charged.
pub proof fn lemma_refused_key_gets_nothing(
    request: RequestView,
    policy: GatePolicy,
    ledger: Map<Seq<char>, KeyState>,
    store: Seq<SnapshotView>,
)
    requires
        spec_rejection(request) is None,
        spec_gated(request.route, policy),
        !is_granted(spec_consume_outcome(ledger, request.key)),
    ensures
        spec_response(request, policy, ledger, store) is Failure,
        spec_response(request, policy, ledger, store).status() == 404 || spec_response(
            request,
            policy,
            ledger,
            store,
        ).status() == 429 || spec_response(request, policy, ledger, store).status() == 500,
        spec_response(request, policy, ledger, store).status() == 429 <==> is_denied(
            spec_consume_outcome(ledger, request.key),
        ),
        spec_ledger_after(request, policy, ledger) == ledger,
{
}

/// No request lowers a counter, switches a key, or adds or removes a record:
/// a unit that was charged stays charged, whatever the answer turns out to
/// be.
pub proof fn lemma_request_never_refunds(
    request: RequestView,
    policy: GatePolicy,
    ledger: Map<Seq<char>, KeyState>,
    key: Seq<char>,
)
    ensures
        spec_ledger_after(request, policy, ledger).dom() == ledger.dom(),
        spec_ledger_after(request, policy, ledger)[key].usage_count >= ledger[key].usage_count,
        spec_ledger_after(request, policy, ledger)[key].lifetime_count
            >= ledger[key].lifetime_count,
        spec_ledger_after(request, policy, ledger)[key].enabled == ledger[key].enabled,
        key != request.key ==> spec_ledger_after(request, policy, ledger)[key] == ledger[key],
{
    lemma_consume_keeps_records(ledger, request.key, key);
}

/// A request that needs no record gets from every store the answer that it
/// gets from an empty one.
pub proof fn lemma_answer_without_records(request: RequestView, store: Seq<SnapshotView>)
    requires
        spec_fetch_limit(request) == 0,
    ensures
        spec_answer(request, store) == spec_answer(request, Seq::empty()),
{
    lemma_history_under_zero(store, request.product_id);
    lemma_history_under_zero(Seq::empty(), request.product_id);
}

/// A store that hands over only the newest records of the product, at
/// least as many as the action `Fetch` asks for, gets the answer that the
/// whole store would get.
pub proof fn lemma_answer_from_newest_records(
    request: RequestView,
    store: Seq<SnapshotView>,
    fetched: nat,
)
    requires
        fetched >= spec_fetch_limit(request),
    ensures
        spec_answer(request, spec_history(store, request.product_id, fetched)) == spec_answer(
            request,
            store,
        ),
{
    lemma_history_of_history(store, request.product_id, fetched, spec_fetch_limit(request));
    if request.route != Route::History {
        lemma_history_of_history(store, request.product_id, fetched, 1);
    }
}

/// Answers a request from a ledger and a store held in memory, by taking
/// the steps of [`step`] in turn.
pub fn serve(
    request: &Request,
    policy: GatePolicy,
    ledger: &mut QuotaLedger,
    store: &SnapshotStore,
) -> (response: Response)
    ensures
        response@ == spec_response(request@, policy, old(ledger)@, store@),
        final(ledger)@ == spec_ledger_after(request@, policy, old(ledger)@),
{
    let ghost before = ledger@;
    proof {
        if spec_fetch_limit(request@) == 0 {
            lemma_answer_without_records(request@, store@);
        }
    }
    let first = step(request, policy, Stage::Received, Event::Arrived);
    let mut stage = first.0;
    let mut action = first.1;
    loop
        invariant
            before == old(ledger)@,
            spec_fetch_limit(request@) == 0 ==> spec_answer(request@, store@) == spec_answer(
                request@,
                Seq::empty(),
            ),
            stage != Stage::Received,
            stage == Stage::Finished <==> action is Respond,
            stage == Stage::AwaitingQuota <==> action is Consume,
            spec_rejection(request@) is None || stage == Stage::Finished,
            stage == Stage::AwaitingQuota ==> spec_gated(request.route, policy) && ledger@
                == before,
            stage == Stage::AwaitingRecords ==> ledger@ == spec_ledger_after(
                request@,
                policy,
                before,
            ) && spec_response(request@, policy, before, store@) == spec_answer(request@, store@),
            stage == Stage::Finished ==> ledger@ == spec_ledger_after(request@, policy, before)
                && action@ == ActionView::Respond(
                spec_response(request@, policy, before, store@),
            ),
        decreases stage.steps_left(),
    {
        let next = match action {
            Action::Respond(response) => {
                return response;
            },
            Action::Consume => {
                let outcome = check_api_key_and_increment_usage(request.query.key.as_str(), ledger);
                step(request, policy, stage, Event::Quota(outcome))
            },
            Action::Fetch { limit: _ } => step(request, policy, stage, Event::Records(Ok(store))),
        };
        stage = next.0;
        action = next.1;
    }
}

/// The stores that the routes work on, and the policy of the deployment.
pub struct AppState {
    pub policy: GatePolicy,
    pub ledger: QuotaLedger,
    pub store: SnapshotStore,
}

/// The route of the latest snapshot: answers with the whole snapshot of
/// `product_id` that ranks first. The key is charged where the policy gates
/// this route, and is not looked at where it does not.
pub fn get_latest_product(
    product_id: String,
    query: ApiKeyQuery,
    data: &mut AppState,
) -> (response: Response)
    ensures
        response@ == spec_response(
            spec_snapshot_request(product_id@, query@),
            old(data).policy,
            old(data).ledger@,
            old(data).store@,
        ),
        final(data).ledger@ == spec_ledger_after(
            spec_snapshot_request(product_id@, query@),
            old(data).policy,
            old(data).ledger@,
        ),
        final(data).store@ == old(data).store@,
        final(data).policy == old(data).policy,
{
    let request = Request::snapshot(product_id, query);
    serve(&request, data.policy, &mut data.ledger, &data.store)
}

/// The route of one field: answers with the number that the latest snapshot
/// of the product carries under the field. The key is always charged, after
/// the checks and before the snapshots are read.
pub fn get_latest_field(
    params: (String, String),
    query: ApiKeyQuery,
    data: &mut AppState,
) -> (response: Response)
    ensures
        response@ == spec_response(
            spec_field_request(params.0@, params.1@, query@),
            old(data).policy,
            old(data).ledger@,
            old(data).store@,
        ),
        final(data).ledger@ == spec_ledger_after(
            spec_field_request(params.0@, params.1@, query@),
            old(data).policy,
            old(data).ledger@,
        ),
        final(data).store@ == old(data).store@,
        final(data).policy == old(data).policy,
{
    let (product_id, field) = params;
    let request = Request::field(product_id, field, query);
    serve(&request, data.policy, &mut data.ledger, &data.store)
}

/// The route of a bounded history: answers with the numbers that the newest
/// snapshots of the product carry under the field, newest first, from at
/// most `limit` snapshots. Snapshots that lack the number add nothing, and
/// an answer without any number is a failure. The key is always charged.
pub fn get_fields(
    params: (String, String, usize),
    query: ApiKeyQuery,
    data: &mut AppState,
) -> (response: Response)
    ensures
        response@ == spec_response(
            spec_history_request(params.0@, params.1@, params.2 as nat, query@),
            old(data).policy,
            old(data).ledger@,
            old(data).store@,
        ),
        final(data).ledger@ == spec_ledger_after(
            spec_history_request(params.0@, params.1@, params.2 as nat, query@),
            old(data).policy,
            old(data).ledger@,
        ),
        final(data).store@ == old(data).store@,
        final(data).policy == old(data).policy,
{
    let (product_id, field, limit) = params;
    let request = Request::history(product_id, field, limit, query);
    serve(&request, data.policy, &mut data.ledger, &data.store)
}

/// The answer to a path that belongs to no route.
pub fn not_found() -> (response: Response)
    ensures
        response == Response::Failure(Failure::RouteNotFound),
        response@.status() == 404,
{
    Response::Failure(Failure::RouteNotFound)
}

} // verus!
