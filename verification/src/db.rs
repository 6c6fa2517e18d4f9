//! The quota ledger: the usage that each API key has consumed, against a
//! fixed ceiling, and the sweep that opens a new window.

use crate::models::ApiKeyRecord;
use crate::models::KeyState;
use crate::models::MAX_CHECK_LIMIT;
use crate::text::same_text;
use vstd::prelude::*;

verus! {

/// How an attempt to consume one unit of quota ended.
#[derive(Clone, Copy, Debug, PartialEq, Eq, Structural)]
pub enum ConsumeOutcome {
    /// The unit was granted and both counters went up by one.
    Allowed,
    /// The key has used up its window.
    Denied,
    /// No record exists for the key.
    KeyNotFound,
    /// The key is known and switched off.
    KeyDisabled,
}

/// Why a store could not carry out an operation.
#[derive(Clone, Copy, Debug, PartialEq, Eq, Structural)]
pub enum StoreError {
    /// The store could not be reached or reported a failure.
    Unavailable,
    /// The lifetime counter of the key cannot count any further.
    CounterExhausted,
}

/// The state of a key after one unit was granted to it.
pub open spec fn spec_charged(state: KeyState) -> KeyState {
    KeyState {
        usage_count: (state.usage_count + 1) as u64,
        lifetime_count: (state.lifetime_count + 1) as u64,
        enabled: state.enabled,
    }
}

/// Whether an attempt to consume ended with the unit granted.
pub open spec fn is_granted(outcome: Result<ConsumeOutcome, StoreError>) -> bool {
    outcome == Ok::<ConsumeOutcome, StoreError>(ConsumeOutcome::Allowed)
}

/// Whether an attempt to consume ended with the unit denied: the key was at
/// its ceiling.
pub open spec fn is_denied(outcome: Result<ConsumeOutcome, StoreError>) -> bool {
    outcome == Ok::<ConsumeOutcome, StoreError>(ConsumeOutcome::Denied)
}

/// How an attempt to consume one unit for `key` ends on `ledger`.
pub open spec fn spec_consume_outcome(ledger: Map<Seq<char>, KeyState>, key: Seq<char>) -> Result<
    ConsumeOutcome,
    StoreError,
> {
    if !ledger.contains_key(key) {
        Ok(ConsumeOutcome::KeyNotFound)
    } else if !ledger[key].enabled {
        Ok(ConsumeOutcome::KeyDisabled)
    } else if ledger[key].usage_count >= MAX_CHECK_LIMIT {
        Ok(ConsumeOutcome::Denied)
    } else if ledger[key].lifetime_count == u64::MAX {
        Err(StoreError::CounterExhausted)
    } else {
        Ok(ConsumeOutcome::Allowed)
    }
}

/// The ledger after an attempt to consume one unit for `key`: only a granted
/// unit changes it.
pub open spec fn spec_consume_ledger(ledger: Map<Seq<char>, KeyState>, key: Seq<char>) -> Map<
    Seq<char>,
    KeyState,
> {
    if is_granted(spec_consume_outcome(ledger, key)) {
        ledger.insert(key, spec_charged(ledger[key]))
    } else {
        ledger
    }
}

/// The state of a key after a reset sweep: its usage is zero and nothing
/// else has changed.
pub open spec fn spec_swept(state: KeyState) -> KeyState {
    KeyState { usage_count: 0, lifetime_count: state.lifetime_count, enabled: state.enabled }
}

/// The ledger after a reset sweep: every record is swept and none has come
/// or gone.
pub open spec fn spec_reset_ledger(ledger: Map<Seq<char>, KeyState>) -> Map<Seq<char>, KeyState> {
    Map::new(|key: Seq<char>| ledger.contains_key(key), |key: Seq<char>| spec_swept(ledger[key]))
}

/// No key occurs twice in `records`.
spec fn distinct_keys(records: Seq<ApiKeyRecord>) -> bool {
    forall|i: int, j: int|
        0 <= i < j < records.len() ==> (#[trigger] records[i]).key@ != (#[trigger] records[j]).key@
}

/// Whether `records` holds a record for `key`.
spec fn holds_key(records: Seq<ApiKeyRecord>, key: Seq<char>) -> bool {
    exists|i: int| 0 <= i < records.len() && (#[trigger] records[i]).key@ == key
}

/// The map from each key of `records` to its state.
spec fn ledger_of(records: Seq<ApiKeyRecord>) -> Map<Seq<char>, KeyState> {
    Map::new(
        |key: Seq<char>| holds_key(records, key),
        |key: Seq<char>|
            records[choose|i: int|
                0 <= i < records.len() && (#[trigger] records[i]).key@ == key].state,
    )
}

/// Where no key occurs twice, the ledger maps the key of each record to the
/// state of that record.
proof fn lemma_ledger_at(records: Seq<ApiKeyRecord>, i: int)
    requires
        distinct_keys(records),
        0 <= i < records.len(),
    ensures
        ledger_of(records).contains_key(records[i].key@),
        ledger_of(records)[records[i].key@] == records[i].state,
{
    let key = records[i].key@;
    let j = choose|j: int| 0 <= j < records.len() && (#[trigger] records[j]).key@ == key;
    assert(j == i);
}

/// Records that keep their keys, place by place, keep the keys of their
/// ledger, and no key comes to occur twice.
proof fn lemma_same_keys(before: Seq<ApiKeyRecord>, after: Seq<ApiKeyRecord>)
    requires
        distinct_keys(before),
        after.len() == before.len(),
        forall|i: int| 0 <= i < before.len() ==> (#[trigger] after[i]).key@ == before[i].key@,
    ensures
        distinct_keys(after),
        forall|key: Seq<char>| holds_key(after, key) == holds_key(before, key),
        forall|key: Seq<char>| #[trigger]
            holds_key(after, key) ==> exists|i: int|
                0 <= i < after.len() && before[i].key@ == key && ledger_of(before)[key]
                    == before[i].state && ledger_of(after)[key] == (#[trigger] after[i]).state,
{
    assert forall|i: int, j: int| 0 <= i < j < after.len() implies (#[trigger] after[i]).key@ != (
    #[trigger] after[j]).key@ by {
        assert(before[i].key@ != before[j].key@);
    }
    assert forall|key: Seq<char>| holds_key(after, key) == holds_key(before, key) by {
        if holds_key(before, key) {
            let j = choose|j: int| 0 <= j < before.len() && (#[trigger] before[j]).key@ == key;
            assert(after[j].key@ == key);
        }
        if holds_key(after, key) {
            let j = choose|j: int| 0 <= j < after.len() && (#[trigger] after[j]).key@ == key;
            assert(before[j].key@ == key);
        }
    }
    assert forall|key: Seq<char>| #[trigger] holds_key(after, key) implies exists|i: int|
        0 <= i < after.len() && before[i].key@ == key && ledger_of(before)[key] == before[i].state
            && ledger_of(after)[key] == (#[trigger] after[i]).state by {
        let j = choose|j: int| 0 <= j < after.len() && (#[trigger] after[j]).key@ == key;
        lemma_ledger_at(after, j);
        lemma_ledger_at(before, j);
    }
}

/// The usage of every API key. No key has more than one record.
pub struct QuotaLedger {
    records: Vec<ApiKeyRecord>,
}

impl View for QuotaLedger {
    type V = Map<Seq<char>, KeyState>;

    closed spec fn view(&self) -> Map<Seq<char>, KeyState> {
        ledger_of(self.records@)
    }
}

impl QuotaLedger {
    #[verifier::type_invariant]
    spec fn well_formed(self) -> bool {
        distinct_keys(self.records@)
    }

    /// A ledger without any record.
    pub fn new() -> (ledger: QuotaLedger)
        ensures
            ledger@ == Map::<Seq<char>, KeyState>::empty(),
    {
        let ledger = QuotaLedger { records: Vec::new() };
        assert(ledger@ =~= Map::<Seq<char>, KeyState>::empty());
        ledger
    }

    /// Where the record of `key` stands, if there is one.
    fn position(&self, key: &str) -> (at: Option<usize>)
        ensures
            match at {
                Some(i) => i < self.records.len() && self.records[i as int].key@ == key@,
                None => !holds_key(self.records@, key@),
            },
    {
        let mut i: usize = 0;
        while i < self.records.len()
            invariant
                i <= self.records.len(),
                forall|j: int| 0 <= j < i ==> (#[trigger] self.records[j]).key@ != key@,
            decreases self.records.len() - i,
        {
            if same_text(self.records[i].key.as_str(), key) {
                return Some(i);
            }
            i += 1;
        }
        None
    }

    /// The state of `key`, if the ledger has a record for it.
    pub fn get(&self, key: &str) -> (state: Option<KeyState>)
        ensures
            match state {
                Some(s) => self@.contains_key(key@) && self@[key@] == s,
                None => !self@.contains_key(key@),
            },
    {
        proof {
            use_type_invariant(self);
        }
        match self.position(key) {
            Some(i) => {
                proof {
                    lemma_ledger_at(self.records@, i as int);
                }
                Some(self.records[i].state)
            },
            None => None,
        }
    }

    /// Stores `state` as the state of the record at `i`.
    fn put(&mut self, i: usize, state: KeyState)
        requires
            i < old(self).records.len(),
        ensures
            final(self)@ == old(self)@.insert(old(self).records[i as int].key@, state),
    {
        proof {
            use_type_invariant(&*self);
        }
        let ghost before = self.records@;
        let mut records: Vec<ApiKeyRecord> = Vec::new();
        std::mem::swap(&mut self.records, &mut records);
        records[i].state = state;
        proof {
            lemma_same_keys(before, records@);
        }
        std::mem::swap(&mut self.records, &mut records);
        proof {
            let key = before[i as int].key@;
            lemma_ledger_at(before, i as int);
            lemma_ledger_at(self.records@, i as int);
            assert(ledger_of(self.records@) =~= ledger_of(before).insert(key, state));
        }
    }

    /// Stores a record, in place of the one that the ledger has for its key,
    /// if any.
    pub fn insert(&mut self, record: ApiKeyRecord)
        ensures
            final(self)@ == old(self)@.insert(record.key@, record.state),
    {
        proof {
            use_type_invariant(&*self);
        }
        match self.position(record.key.as_str()) {
            Some(i) => {
                self.put(i, record.state);
            },
            None => {
                let ghost before = self.records@;
                let mut records: Vec<ApiKeyRecord> = Vec::new();
                std::mem::swap(&mut self.records, &mut records);
                records.push(record);
                std::mem::swap(&mut self.records, &mut records);
                proof {
                    let after = self.records@;
                    let last = before.len() as int;
                    assert forall|key: Seq<char>| holds_key(after, key) == (holds_key(before, key)
                        || key == record.key@) by {
                        if holds_key(before, key) {
                            let j = choose|j: int|
                                0 <= j < before.len() && (#[trigger] before[j]).key@ == key;
                            assert(after[j].key@ == key);
                        }
                        if key == record.key@ {
                            assert(after[last].key@ == key);
                        }
                    }
                    assert forall|key: Seq<char>| #[trigger]
                        holds_key(after, key) implies ledger_of(after)[key] == ledger_of(
                        before,
                    ).insert(record.key@, record.state)[key] by {
                        let j = choose|j: int|
                            0 <= j < after.len() && (#[trigger] after[j]).key@ == key;
                        lemma_ledger_at(after, j);
                        if j < last {
                            lemma_ledger_at(before, j);
                        }
                    }
                    assert(ledger_of(after) =~= ledger_of(before).insert(
                        record.key@,
                        record.state,
                    ));
                }
            },
        }
    }
}

/// Consumes one unit of quota for `apikey`, if its record allows it. The check
/// and the increment are one step: the ledger is held exclusively for the
/// call. A refused attempt leaves the ledger as it was.
pub fn check_api_key_and_increment_usage(apikey: &str, ledger: &mut QuotaLedger) -> (outcome:
    Result<ConsumeOutcome, StoreError>)
    ensures
        outcome == spec_consume_outcome(old(ledger)@, apikey@),
        final(ledger)@ == spec_consume_ledger(old(ledger)@, apikey@),
{
    proof {
        use_type_invariant(&*ledger);
    }
    match ledger.position(apikey) {
        None => Ok(ConsumeOutcome::KeyNotFound),
        Some(i) => {
            proof {
                lemma_ledger_at(ledger.records@, i as int);
            }
            let state = ledger.records[i].state;
            if !state.enabled {
                Ok(ConsumeOutcome::KeyDisabled)
            } else if state.usage_count >= MAX_CHECK_LIMIT {
                Ok(ConsumeOutcome::Denied)
            } else if state.lifetime_count == u64::MAX {
                Err(StoreError::CounterExhausted)
            } else {
                let charged = KeyState {
                    usage_count: state.usage_count + 1,
                    lifetime_count: state.lifetime_count + 1,
                    enabled: state.enabled,
                };
                ledger.put(i, charged);
                Ok(ConsumeOutcome::Allowed)
            }
        },
    }
}

/// How an attempt to consume ended on a store that checks and charges in one
/// conditional update of its own. `charged` says whether that update found
/// the key enabled and below the ceiling, and charged it; `seen` is the state
/// of the key as it was read after an update that charged nothing.
pub open spec fn spec_settle_consume(charged: bool, seen: Option<KeyState>) -> Result<
    ConsumeOutcome,
    StoreError,
> {
    if charged {
        Ok(ConsumeOutcome::Allowed)
    } else {
        match seen {
            None => Ok(ConsumeOutcome::KeyNotFound),
            Some(state) => if !state.enabled {
                Ok(ConsumeOutcome::KeyDisabled)
            } else if state.usage_count >= MAX_CHECK_LIMIT {
                Ok(ConsumeOutcome::Denied)
            } else {
                Err(StoreError::Unavailable)
            },
        }
    }
}

/// Says how an attempt to consume ended on a store that checks and charges
/// in one conditional update of its own. A key that was not charged and is
/// then seen enabled and below the ceiling has changed in between: nothing
/// is known of the attempt but that it charged nothing.
pub fn settle_consume(charged: bool, seen: Option<KeyState>) -> (outcome: Result<
    ConsumeOutcome,
    StoreError,
>)
    ensures
        outcome == spec_settle_consume(charged, seen),
{
    if charged {
        Ok(ConsumeOutcome::Allowed)
    } else {
        match seen {
            None => Ok(ConsumeOutcome::KeyNotFound),
            Some(state) => if !state.enabled {
                Ok(ConsumeOutcome::KeyDisabled)
            } else if state.usage_count >= MAX_CHECK_LIMIT {
                Ok(ConsumeOutcome::Denied)
            } else {
                Err(StoreError::Unavailable)
            },
        }
    }
}

/// The ledger that holds a record for `key` alone, or no record at all.
pub open spec fn spec_ledger_of_one(key: Seq<char>, state: Option<KeyState>) -> Map<
    Seq<char>,
    KeyState,
> {
    match state {
        Some(s) => Map::empty().insert(key, s),
        None => Map::empty(),
    }
}

/// An update that charged nothing is settled as the ledger would have
/// refused the key as it is seen; and where the ledger would have granted
/// or failed, the attempt is settled as a failure of the store.
pub proof fn lemma_settle_refuses_as_the_ledger(key: Seq<char>, seen: Option<KeyState>)
    ensures
        spec_settle_consume(false, seen) is Ok ==> spec_settle_consume(false, seen)
            == spec_consume_outcome(spec_ledger_of_one(key, seen), key),
        spec_settle_consume(false, seen) is Err <==> spec_consume_outcome(
            spec_ledger_of_one(key, seen),
            key,
        ) is Err || is_granted(spec_consume_outcome(spec_ledger_of_one(key, seen), key)),
        !is_granted(spec_settle_consume(false, seen)),
{
}

/// The reset sweep: sets the usage counter of every record to zero. Lifetime
/// counters and switches stay as they are, and no record comes or goes.
pub fn reset_check_limits(ledger: &mut QuotaLedger)
    ensures
        final(ledger)@ == spec_reset_ledger(old(ledger)@),
{
    proof {
        use_type_invariant(&*ledger);
    }
    let ghost before = ledger.records@;
    let mut records: Vec<ApiKeyRecord> = Vec::new();
    std::mem::swap(&mut ledger.records, &mut records);
    let mut i: usize = 0;
    while i < records.len()
        invariant
            i <= records.len(),
            records.len() == before.len(),
            forall|j: int|
                0 <= j < records.len() ==> (#[trigger] records[j]).key@ == before[j].key@,
            forall|j: int|
                0 <= j < i ==> (#[trigger] records[j]).state == spec_swept(before[j].state),
            forall|j: int|
                i <= j < records.len() ==> (#[trigger] records[j]).state == before[j].state,
        decreases records.len() - i,
    {
        if records[i].state.usage_count != 0 {
            records[i].state.usage_count = 0;
        }
        i += 1;
    }
    proof {
        lemma_same_keys(before, records@);
    }
    std::mem::swap(&mut ledger.records, &mut records);
    assert(ledger_of(ledger.records@) =~= spec_reset_ledger(ledger_of(before)));
}

/// Every usage counter of `ledger` lies within the ceiling.
pub open spec fn all_within_ceiling(ledger: Map<Seq<char>, KeyState>) -> bool {
    forall|key: Seq<char>| ledger.contains_key(key) ==> (#[trigger] ledger[key]).within_ceiling()
}

/// An attempt to consume never takes a usage counter over the ceiling.
pub proof fn lemma_consume_keeps_ceiling(ledger: Map<Seq<char>, KeyState>, key: Seq<char>)
    requires
        all_within_ceiling(ledger),
    ensures
        all_within_ceiling(spec_consume_ledger(ledger, key)),
{
    let after = spec_consume_ledger(ledger, key);
    assert forall|k: Seq<char>| after.contains_key(k) implies (
    #[trigger] after[k]).within_ceiling() by {
        if k != key {
            assert(ledger[k].within_ceiling());
        }
    }
}

/// An attempt to consume neither adds nor removes a record, touches no key
/// but its own, never switches a key, and never lowers a lifetime counter.
pub proof fn lemma_consume_keeps_records(
    ledger: Map<Seq<char>, KeyState>,
    key: Seq<char>,
    other: Seq<char>,
)
    ensures
        spec_consume_ledger(ledger, key).dom() == ledger.dom(),
        other != key ==> spec_consume_ledger(ledger, key)[other] == ledger[other],
        spec_consume_ledger(ledger, key)[other].enabled == ledger[other].enabled,
        spec_consume_ledger(ledger, key)[other].lifetime_count >= ledger[other].lifetime_count,
{
    assert(spec_consume_ledger(ledger, key).dom() =~= ledger.dom());
}

/// A unit is granted exactly to a known, enabled key below the ceiling whose
/// lifetime counter can still count, and then both counters go up by exactly
/// one. Every other attempt leaves the ledger as it was.
pub proof fn lemma_consume_charges_one(ledger: Map<Seq<char>, KeyState>, key: Seq<char>)
    ensures
        is_granted(spec_consume_outcome(ledger, key))
            <==> ledger.contains_key(key) && ledger[key].enabled && ledger[key].usage_count
            < MAX_CHECK_LIMIT && ledger[key].lifetime_count < u64::MAX,
        is_granted(spec_consume_outcome(ledger, key))
            ==> spec_consume_ledger(ledger, key)[key].usage_count == ledger[key].usage_count + 1
            && spec_consume_ledger(ledger, key)[key].lifetime_count == ledger[key].lifetime_count
            + 1,
        !is_granted(spec_consume_outcome(ledger, key))
            ==> spec_consume_ledger(ledger, key) == ledger,
{
}

/// The ledger after `attempts` attempts in a row to consume one unit for
/// `key`.
pub open spec fn spec_consume_times(
    ledger: Map<Seq<char>, KeyState>,
    key: Seq<char>,
    attempts: nat,
) -> Map<Seq<char>, KeyState>
    decreases attempts,
{
    if attempts == 0 {
        ledger
    } else {
        spec_consume_ledger(spec_consume_times(ledger, key, (attempts - 1) as nat), key)
    }
}

/// How many of `attempts` attempts in a row for `key` are granted.
pub open spec fn spec_granted_times(
    ledger: Map<Seq<char>, KeyState>,
    key: Seq<char>,
    attempts: nat,
) -> nat
    decreases attempts,
{
    if attempts == 0 {
        0
    } else {
        let earlier = spec_consume_times(ledger, key, (attempts - 1) as nat);
        let granted: nat = if is_granted(spec_consume_outcome(earlier, key)) {
            1
        } else {
            0
        };
        spec_granted_times(ledger, key, (attempts - 1) as nat) + granted
    }
}

/// Of any number of attempts in a row on an enabled key, exactly as many are
/// granted as the window has room for, in whatever order they arrive: the
/// usage counter ends at the ceiling or at the sum, whichever is less, and
/// the lifetime counter has gone up by the number granted.
pub proof fn lemma_consume_times(ledger: Map<Seq<char>, KeyState>, key: Seq<char>, attempts: nat)
    requires
        ledger.contains_key(key),
        ledger[key].enabled,
        ledger[key].within_ceiling(),
        ledger[key].lifetime_count + attempts <= u64::MAX,
    ensures
        spec_granted_times(ledger, key, attempts) == vstd::math::min(
            attempts as int,
            MAX_CHECK_LIMIT - ledger[key].usage_count,
        ),
        spec_consume_times(ledger, key, attempts).dom() == ledger.dom(),
        forall|other: Seq<char>|
            other != key ==> spec_consume_times(ledger, key, attempts)[other] == ledger[other],
        spec_consume_times(ledger, key, attempts)[key].enabled,
        spec_consume_times(ledger, key, attempts)[key].usage_count == vstd::math::min(
            ledger[key].usage_count + attempts,
            MAX_CHECK_LIMIT as int,
        ),
        spec_consume_times(ledger, key, attempts)[key].lifetime_count == ledger[key].lifetime_count
            + spec_granted_times(ledger, key, attempts),
    decreases attempts,
{
    if attempts > 0 {
        lemma_consume_times(ledger, key, (attempts - 1) as nat);
        let earlier = spec_consume_times(ledger, key, (attempts - 1) as nat);
        assert(spec_consume_ledger(earlier, key).dom() =~= earlier.dom());
    }
}

/// A second sweep right after a first changes nothing.
pub proof fn lemma_reset_idempotent(ledger: Map<Seq<char>, KeyState>)
    ensures
        spec_reset_ledger(spec_reset_ledger(ledger)) == spec_reset_ledger(ledger),
{
    assert(spec_reset_ledger(spec_reset_ledger(ledger)) =~= spec_reset_ledger(ledger));
}

/// A sweep keeps every record, leaves every key at a usage of zero, leaves
/// lifetime counters and switches untouched, and so leaves a key that was
/// already at zero exactly as it was.
pub proof fn lemma_reset_zeroes_usage_only(ledger: Map<Seq<char>, KeyState>, key: Seq<char>)
    requires
        ledger.contains_key(key),
    ensures
        spec_reset_ledger(ledger).dom() == ledger.dom(),
        all_within_ceiling(spec_reset_ledger(ledger)),
        spec_reset_ledger(ledger)[key].usage_count == 0,
        spec_reset_ledger(ledger)[key].lifetime_count == ledger[key].lifetime_count,
        spec_reset_ledger(ledger)[key].enabled == ledger[key].enabled,
        ledger[key].usage_count == 0 ==> spec_reset_ledger(ledger)[key] == ledger[key],
{
    assert(spec_reset_ledger(ledger).dom() =~= ledger.dom());
}

} // verus!
