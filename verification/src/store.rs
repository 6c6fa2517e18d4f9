//! The snapshot reader: the latest record of a product, and its newest
//! records up to a limit.
//!
//! Records are ranked newest first: a later timestamp comes first, and of two
//! records with the same timestamp the one stored earlier comes first.

use crate::models::ProductSnapshot;
use crate::models::SnapshotView;
use crate::text::same_text;
use vstd::prelude::*;

verus! {

/// What a run of snapshots says, one view for each.
pub open spec fn snapshot_views(snapshots: Seq<ProductSnapshot>) -> Seq<SnapshotView> {
    snapshots.map_values(|snapshot: ProductSnapshot| snapshot@)
}

/// Whether position `at` holds a record of `product_id`.
pub open spec fn spec_matches(store: Seq<SnapshotView>, product_id: Seq<char>, at: int) -> bool {
    0 <= at < store.len() && store[at].product_id == product_id
}

/// Whether the record at `first` ranks before the record at `second`.
pub open spec fn spec_precedes(store: Seq<SnapshotView>, first: int, second: int) -> bool {
    store[first].timestamp > store[second].timestamp || (store[first].timestamp
        == store[second].timestamp && first < second)
}

/// A bound on positions, as a position of the model.
spec fn spec_bound(bound: Option<usize>) -> Option<int> {
    match bound {
        Some(at) => Some(at as int),
        None => None,
    }
}

/// Whether position `at` holds a record of `product_id` that ranks behind
/// the record at `bound`, where there is a bound.
spec fn spec_in_reach(
    store: Seq<SnapshotView>,
    product_id: Seq<char>,
    bound: Option<int>,
    at: int,
) -> bool {
    spec_matches(store, product_id, at) && match bound {
        Some(b) => spec_precedes(store, b, at),
        None => true,
    }
}

/// Whether `at` holds the latest record of `product_id`: it ranks before
/// every other record of that product.
pub open spec fn is_latest(store: Seq<SnapshotView>, product_id: Seq<char>, at: int) -> bool {
    &&& spec_matches(store, product_id, at)
    &&& forall|other: int| #[trigger]
        spec_matches(store, product_id, other) && other != at ==> spec_precedes(store, at, other)
}

/// Whether `picks` are the positions of the history of `product_id` under
/// `limit`: at most `limit` records of the product, in ranking order, and
/// none left out unless the limit is reached by records that all rank before
/// it.
pub open spec fn is_history(
    store: Seq<SnapshotView>,
    product_id: Seq<char>,
    limit: nat,
    picks: Seq<int>,
) -> bool {
    &&& picks.len() <= limit
    &&& forall|k: int| 0 <= k < picks.len() ==> spec_matches(store, product_id, #[trigger] picks[k])
    &&& forall|k: int, l: int|
        0 <= k < l < picks.len() ==> spec_precedes(store, #[trigger] picks[k], #[trigger] picks[l])
    &&& forall|other: int| #[trigger]
        spec_matches(store, product_id, other) && !picks.contains(other) ==> picks.len() == limit
            && forall|k: int|
            0 <= k < picks.len() ==> spec_precedes(store, #[trigger] picks[k], other)
}

/// The position of the latest record of `product_id`, if the product has a
/// record.
pub open spec fn spec_latest_position(store: Seq<SnapshotView>, product_id: Seq<char>) -> Option<
    int,
> {
    if exists|at: int| is_latest(store, product_id, at) {
        Some(choose|at: int| is_latest(store, product_id, at))
    } else {
        None
    }
}

/// The latest record of `product_id`, if the product has a record.
pub open spec fn spec_latest(store: Seq<SnapshotView>, product_id: Seq<char>) -> Option<
    SnapshotView,
> {
    match spec_latest_position(store, product_id) {
        Some(at) => Some(store[at]),
        None => None,
    }
}

/// The positions of the history of `product_id` under `limit`.
pub open spec fn spec_history_positions(
    store: Seq<SnapshotView>,
    product_id: Seq<char>,
    limit: nat,
) -> Seq<int> {
    choose|picks: Seq<int>| is_history(store, product_id, limit, picks)
}

/// The history of `product_id` under `limit`: its newest records, newest
/// first.
pub open spec fn spec_history(store: Seq<SnapshotView>, product_id: Seq<char>, limit: nat) -> Seq<
    SnapshotView,
> {
    spec_records_at(store, spec_history_positions(store, product_id, limit))
}

/// The records of `store` at the positions `picks`, in that order.
pub open spec fn spec_records_at(store: Seq<SnapshotView>, picks: Seq<int>) -> Seq<SnapshotView> {
    picks.map_values(|at: int| store[at])
}

/// The first `count` positions of a store, in their order.
spec fn spec_first_positions(count: nat) -> Seq<int> {
    Seq::new(count, |k: int| k)
}

/// Only one position holds the latest record of a product.
pub proof fn lemma_latest_unique(store: Seq<SnapshotView>, product_id: Seq<char>, at: int)
    requires
        is_latest(store, product_id, at),
    ensures
        spec_latest_position(store, product_id) == Some(at),
        spec_latest(store, product_id) == Some(store[at]),
{
    let chosen = choose|c: int| is_latest(store, product_id, c);
    if chosen != at {
        assert(spec_precedes(store, at, chosen));
        assert(spec_precedes(store, chosen, at));
    }
}

/// Where two histories agree before `k`, the record that `other` has at `k`
/// does not rank before the one that `picks` has there.
proof fn lemma_history_holds_leader(
    store: Seq<SnapshotView>,
    product_id: Seq<char>,
    limit: nat,
    picks: Seq<int>,
    other: Seq<int>,
    k: int,
)
    requires
        is_history(store, product_id, limit, picks),
        is_history(store, product_id, limit, other),
        0 <= k < picks.len(),
        k < other.len(),
        forall|m: int| 0 <= m < k ==> picks[m] == other[m],
    ensures
        !spec_precedes(store, other[k], picks[k]),
{
    let leader = other[k];
    assert(spec_matches(store, product_id, leader));
    if picks.contains(leader) {
        let m = choose|m: int| 0 <= m < picks.len() && picks[m] == leader;
        if m < k {
            assert(spec_precedes(store, other[m], other[k]));
        } else if m > k {
            assert(spec_precedes(store, picks[k], picks[m]));
        }
    } else {
        assert(spec_precedes(store, picks[k], leader));
    }
}

/// Two histories of one product under one limit agree as far as both reach.
proof fn lemma_history_prefix(
    store: Seq<SnapshotView>,
    product_id: Seq<char>,
    limit: nat,
    a: Seq<int>,
    b: Seq<int>,
    upto: int,
)
    requires
        is_history(store, product_id, limit, a),
        is_history(store, product_id, limit, b),
        0 <= upto <= a.len(),
        upto <= b.len(),
    ensures
        forall|k: int| 0 <= k < upto ==> a[k] == b[k],
    decreases upto,
{
    if upto > 0 {
        lemma_history_prefix(store, product_id, limit, a, b, upto - 1);
        let k = upto - 1;
        assert(spec_matches(store, product_id, a[k]));
        assert(spec_matches(store, product_id, b[k]));
        lemma_history_holds_leader(store, product_id, limit, b, a, k);
        lemma_history_holds_leader(store, product_id, limit, a, b, k);
    }
}

/// A history that starts as another does is as long as the other.
proof fn lemma_history_is_longest(
    store: Seq<SnapshotView>,
    product_id: Seq<char>,
    limit: nat,
    short: Seq<int>,
    long: Seq<int>,
)
    requires
        is_history(store, product_id, limit, short),
        is_history(store, product_id, limit, long),
        short.len() <= long.len(),
        forall|k: int| 0 <= k < short.len() ==> short[k] == long[k],
    ensures
        short.len() == long.len(),
{
    if short.len() < long.len() {
        let extra = long[short.len() as int];
        assert(spec_matches(store, product_id, extra));
        if short.contains(extra) {
            let m = choose|m: int| 0 <= m < short.len() && short[m] == extra;
            assert(spec_precedes(store, long[m], long[short.len() as int]));
        }
    }
}

/// Two histories of one product under one limit are the same.
proof fn lemma_histories_agree(
    store: Seq<SnapshotView>,
    product_id: Seq<char>,
    limit: nat,
    a: Seq<int>,
    b: Seq<int>,
)
    requires
        is_history(store, product_id, limit, a),
        is_history(store, product_id, limit, b),
    ensures
        a == b,
{
    if a.len() <= b.len() {
        lemma_history_prefix(store, product_id, limit, a, b, a.len() as int);
        lemma_history_is_longest(store, product_id, limit, a, b);
    } else {
        lemma_history_prefix(store, product_id, limit, a, b, b.len() as int);
        lemma_history_is_longest(store, product_id, limit, b, a);
    }
    assert(a =~= b);
}

/// Whether `at` holds a record of the product that `taken` leaves out.
spec fn spec_left_out(
    store: Seq<SnapshotView>,
    product_id: Seq<char>,
    taken: Seq<int>,
    at: int,
) -> bool {
    spec_matches(store, product_id, at) && !taken.contains(at)
}

/// Among the first `upto` positions, the record that ranks first of those
/// that `taken` leaves out, if it leaves any out.
proof fn lemma_leader_exists(
    store: Seq<SnapshotView>,
    product_id: Seq<char>,
    taken: Seq<int>,
    upto: nat,
) -> (leader: Option<int>)
    ensures
        match leader {
            Some(at) => {
                &&& at < upto
                &&& spec_left_out(store, product_id, taken, at)
                &&& forall|other: int| #[trigger]
                    spec_left_out(store, product_id, taken, other) && other < upto && other != at
                        ==> spec_precedes(store, at, other)
            },
            None => forall|other: int| #[trigger]
                spec_left_out(store, product_id, taken, other) ==> other >= upto,
        },
    decreases upto,
{
    if upto == 0 {
        None
    } else {
        let earlier = lemma_leader_exists(store, product_id, taken, (upto - 1) as nat);
        let at = upto - 1;
        if spec_left_out(store, product_id, taken, at) {
            match earlier {
                Some(best) => if spec_precedes(store, at, best) {
                    Some(at)
                } else {
                    Some(best)
                },
                None => Some(at),
            }
        } else {
            earlier
        }
    }
}

/// Builds the history of a product under a limit, one record at a time.
proof fn lemma_build_history(
    store: Seq<SnapshotView>,
    product_id: Seq<char>,
    limit: nat,
) -> (picks: Seq<int>)
    ensures
        is_history(store, product_id, limit, picks),
    decreases limit,
{
    if limit == 0 {
        Seq::empty()
    } else {
        let shorter = lemma_build_history(store, product_id, (limit - 1) as nat);
        match lemma_leader_exists(store, product_id, shorter, store.len()) {
            None => {
                assert forall|other: int| #[trigger]
                    spec_matches(store, product_id, other) implies shorter.contains(other) by {
                    if !shorter.contains(other) {
                        assert(spec_left_out(store, product_id, shorter, other));
                    }
                }
                shorter
            },
            Some(next) => {
                let picks = shorter.push(next);
                assert(spec_matches(store, product_id, next) && !shorter.contains(next));
                assert forall|k: int, l: int| 0 <= k < l < picks.len() implies spec_precedes(
                    store,
                    #[trigger] picks[k],
                    #[trigger] picks[l],
                ) by {
                    if l == picks.len() - 1 {
                        assert(spec_precedes(store, shorter[k], next));
                    } else {
                        assert(spec_precedes(store, shorter[k], shorter[l]));
                    }
                }
                assert forall|other: int| #[trigger]
                    spec_matches(store, product_id, other) && !picks.contains(
                        other,
                    ) implies picks.len() == limit && forall|k: int|
                    0 <= k < picks.len() ==> spec_precedes(store, #[trigger] picks[k], other) by {
                    if shorter.contains(other) {
                        let m = choose|m: int| 0 <= m < shorter.len() && shorter[m] == other;
                        assert(picks[m] == other);
                    }
                    assert(picks[picks.len() - 1] == next);
                    assert(spec_left_out(store, product_id, shorter, other));
                    assert forall|k: int| 0 <= k < picks.len() implies spec_precedes(
                        store,
                        #[trigger] picks[k],
                        other,
                    ) by {
                        if k < shorter.len() {
                            assert(spec_precedes(store, shorter[k], other));
                        }
                    }
                }
                picks
            },
        }
    }
}

/// Every store has a history of every product under every limit, and
/// [`spec_history_positions`] names its positions.
pub proof fn lemma_history_exists(store: Seq<SnapshotView>, product_id: Seq<char>, limit: nat)
    ensures
        is_history(store, product_id, limit, spec_history_positions(store, product_id, limit)),
{
    let picks = lemma_build_history(store, product_id, limit);
}

/// A store has one history of a product under a limit, and no other.
pub proof fn lemma_history_unique(
    store: Seq<SnapshotView>,
    product_id: Seq<char>,
    limit: nat,
    picks: Seq<int>,
)
    requires
        is_history(store, product_id, limit, picks),
    ensures
        spec_history_positions(store, product_id, limit) == picks,
        spec_history(store, product_id, limit) == spec_records_at(store, picks),
{
    lemma_histories_agree(
        store,
        product_id,
        limit,
        picks,
        spec_history_positions(store, product_id, limit),
    );
}

/// A run of distinct positions below `bound` is no longer than `bound`.
proof fn lemma_distinct_positions_fit(picks: Seq<int>, bound: int)
    requires
        0 <= bound,
        forall|k: int| 0 <= k < picks.len() ==> 0 <= #[trigger] picks[k] < bound,
        forall|k: int, l: int| 0 <= k < l < picks.len() ==> picks[k] != picks[l],
    ensures
        picks.len() <= bound,
    decreases bound,
{
    if picks.len() > 0 {
        // Take out the position `bound - 1`, if it occurs, and count the rest.
        let top = bound - 1;
        if exists|m: int| 0 <= m < picks.len() && picks[m] == top {
            let m = choose|m: int| 0 <= m < picks.len() && picks[m] == top;
            let rest = picks.remove(m);
            assert forall|k: int| 0 <= k < rest.len() implies 0 <= #[trigger] rest[k] < top by {
                if k < m {
                    assert(rest[k] == picks[k]);
                } else {
                    assert(rest[k] == picks[k + 1]);
                }
            }
            assert forall|k: int, l: int| 0 <= k < l < rest.len() implies rest[k] != rest[l] by {
                let pk = if k < m {
                    k
                } else {
                    k + 1
                };
                let pl = if l < m {
                    l
                } else {
                    l + 1
                };
                assert(rest[k] == picks[pk]);
                assert(rest[l] == picks[pl]);
            }
            lemma_distinct_positions_fit(rest, top);
        } else {
            assert(bound > 0) by {
                assert(0 <= picks[0] < bound);
            }
            lemma_distinct_positions_fit(picks, top);
        }
    }
}

/// A history holds at most `limit` records, each of them a record of the
/// product and none of them twice, with timestamps that never rise. Under a
/// limit of zero it is empty, and where it stays under its limit it holds
/// every record of the product.
pub proof fn lemma_history_bounded_and_ordered(
    store: Seq<SnapshotView>,
    product_id: Seq<char>,
    limit: nat,
)
    ensures
        spec_history(store, product_id, limit).len() == spec_history_positions(
            store,
            product_id,
            limit,
        ).len(),
        spec_history(store, product_id, limit).len() <= limit,
        spec_history(store, product_id, limit).len() <= store.len(),
        forall|k: int|
            0 <= k < spec_history(store, product_id, limit).len() ==> (#[trigger] spec_history(
                store,
                product_id,
                limit,
            )[k]).product_id == product_id,
        forall|k: int, l: int|
            0 <= k < l < spec_history(store, product_id, limit).len() ==> spec_history(
                store,
                product_id,
                limit,
            )[k].timestamp >= spec_history(store, product_id, limit)[l].timestamp,
        forall|k: int, l: int|
            0 <= k < l < spec_history(store, product_id, limit).len() ==> spec_history_positions(
                store,
                product_id,
                limit,
            )[k] != spec_history_positions(store, product_id, limit)[l],
        spec_history(store, product_id, limit).len() < limit ==> forall|at: int|
            spec_matches(store, product_id, at) ==> spec_history_positions(
                store,
                product_id,
                limit,
            ).contains(at),
{
    lemma_history_exists(store, product_id, limit);
    let picks = spec_history_positions(store, product_id, limit);
    assert forall|k: int, l: int| 0 <= k < l < picks.len() implies picks[k] != picks[l]
        && store[picks[k]].timestamp >= store[picks[l]].timestamp by {
        assert(spec_precedes(store, picks[k], picks[l]));
    }
    assert forall|k: int| 0 <= k < picks.len() implies 0 <= #[trigger] picks[k] < store.len() by {
        assert(spec_matches(store, product_id, picks[k]));
    }
    lemma_distinct_positions_fit(picks, store.len() as int);
}

/// A product has a latest record exactly where it has a record at all, and
/// the latest record ranks before every other record of the product.
pub proof fn lemma_latest_exists(store: Seq<SnapshotView>, product_id: Seq<char>)
    ensures
        match spec_latest_position(store, product_id) {
            Some(at) => is_latest(store, product_id, at),
            None => forall|other: int| !spec_matches(store, product_id, other),
        },
        spec_latest(store, product_id) is Some <==> exists|at: int|
            spec_matches(store, product_id, at),
{
    lemma_history_starts_with_latest(store, product_id, 1);
    lemma_history_exists(store, product_id, 1);
    let picks = spec_history_positions(store, product_id, 1);
    if picks.len() == 0 {
        assert forall|other: int| !spec_matches(store, product_id, other) by {
            if spec_matches(store, product_id, other) {
                assert(!picks.contains(other));
            }
        }
    } else {
        assert(spec_matches(store, product_id, picks[0]));
    }
}

/// The history of a product under a limit above zero starts with its
/// latest record, and is empty only where the product has no record.
pub proof fn lemma_history_starts_with_latest(
    store: Seq<SnapshotView>,
    product_id: Seq<char>,
    limit: nat,
)
    requires
        limit > 0,
    ensures
        spec_history(store, product_id, limit).len() > 0 ==> spec_latest(store, product_id) == Some(
            spec_history(store, product_id, limit)[0],
        ) && spec_latest_position(store, product_id) == Some(
            spec_history_positions(store, product_id, limit)[0],
        ),
        spec_history(store, product_id, limit).len() == 0 ==> spec_latest(store, product_id)
            is None,
{
    lemma_history_exists(store, product_id, limit);
    let picks = spec_history_positions(store, product_id, limit);
    if picks.len() > 0 {
        assert(spec_matches(store, product_id, picks[0]));
        assert forall|other: int| #[trigger]
            spec_matches(store, product_id, other) && other != picks[0] implies spec_precedes(
            store,
            picks[0],
            other,
        ) by {
            if picks.contains(other) {
                let m = choose|m: int| 0 <= m < picks.len() && picks[m] == other;
                assert(spec_precedes(store, picks[0], picks[m]));
            }
        }
        lemma_latest_unique(store, product_id, picks[0]);
    } else {
        assert forall|at: int| !is_latest(store, product_id, at) by {
            if spec_matches(store, product_id, at) {
                assert(!picks.contains(at));
            }
        }
    }
}

/// Under a limit of zero every history is empty.
pub proof fn lemma_history_under_zero(store: Seq<SnapshotView>, product_id: Seq<char>)
    ensures
        spec_history(store, product_id, 0) == Seq::<SnapshotView>::empty(),
{
    let none = Seq::<int>::empty();
    assert(is_history(store, product_id, 0, none));
    lemma_history_unique(store, product_id, 0, none);
    assert(spec_history(store, product_id, 0) =~= Seq::<SnapshotView>::empty());
}

/// The start of a history is the history under the smaller limit.
proof fn lemma_history_prefix_is_history(
    store: Seq<SnapshotView>,
    product_id: Seq<char>,
    fetched: nat,
    limit: nat,
    picks: Seq<int>,
)
    requires
        is_history(store, product_id, fetched, picks),
        limit <= fetched,
    ensures
        is_history(
            store,
            product_id,
            limit,
            picks.take(vstd::math::min(limit as int, picks.len() as int)),
        ),
{
    let kept = vstd::math::min(limit as int, picks.len() as int);
    let start = picks.take(kept);
    assert forall|other: int| #[trigger]
        spec_matches(store, product_id, other) && !start.contains(other) implies start.len()
        == limit && forall|k: int|
        0 <= k < start.len() ==> spec_precedes(store, #[trigger] start[k], other) by {
        if picks.contains(other) {
            let m = choose|m: int| 0 <= m < picks.len() && picks[m] == other;
            if m < kept {
                assert(start[m] == other);
            }
            assert forall|k: int| 0 <= k < start.len() implies spec_precedes(
                store,
                #[trigger] start[k],
                other,
            ) by {
                assert(spec_precedes(store, picks[k], picks[m]));
            }
        } else {
            assert forall|k: int| 0 <= k < start.len() implies spec_precedes(
                store,
                #[trigger] start[k],
                other,
            ) by {
                assert(spec_precedes(store, picks[k], other));
            }
        }
    }
}

/// The records of a history, taken as a store of their own, have their
/// first `limit` positions as their history: what was ranked stays ranked.
proof fn lemma_history_is_ranked(
    store: Seq<SnapshotView>,
    product_id: Seq<char>,
    fetched: nat,
    limit: nat,
    picks: Seq<int>,
)
    requires
        is_history(store, product_id, fetched, picks),
    ensures
        is_history(
            spec_records_at(store, picks),
            product_id,
            limit,
            spec_first_positions(vstd::math::min(limit as int, picks.len() as int) as nat),
        ),
{
    let batch = spec_records_at(store, picks);
    let kept = vstd::math::min(limit as int, picks.len() as int) as nat;
    let first = spec_first_positions(kept);
    assert forall|k: int| 0 <= k < first.len() implies spec_matches(
        batch,
        product_id,
        #[trigger] first[k],
    ) by {
        assert(spec_matches(store, product_id, picks[k]));
    }
    assert forall|k: int, l: int| 0 <= k < l < batch.len() implies spec_precedes(batch, k, l) by {
        assert(spec_precedes(store, picks[k], picks[l]));
    }
    assert forall|other: int| #[trigger]
        spec_matches(batch, product_id, other) && !first.contains(other) implies first.len()
        == limit && forall|k: int|
        0 <= k < first.len() ==> spec_precedes(batch, #[trigger] first[k], other) by {
        if other < kept {
            assert(first[other] == other);
        }
    }
}

/// A store that hands over only the newest records of a product, at least
/// as many as are asked for, is read as the whole store is: the history
/// under the limit is the same, and so is the latest record.
pub proof fn lemma_history_of_history(
    store: Seq<SnapshotView>,
    product_id: Seq<char>,
    fetched: nat,
    limit: nat,
)
    requires
        limit <= fetched,
    ensures
        spec_history(spec_history(store, product_id, fetched), product_id, limit) == spec_history(
            store,
            product_id,
            limit,
        ),
        fetched > 0 ==> spec_latest(spec_history(store, product_id, fetched), product_id)
            == spec_latest(store, product_id),
{
    lemma_history_exists(store, product_id, fetched);
    let picks = spec_history_positions(store, product_id, fetched);
    let batch = spec_history(store, product_id, fetched);
    let kept = vstd::math::min(limit as int, picks.len() as int);
    lemma_history_prefix_is_history(store, product_id, fetched, limit, picks);
    lemma_history_unique(store, product_id, limit, picks.take(kept));
    lemma_history_is_ranked(store, product_id, fetched, limit, picks);
    lemma_history_unique(batch, product_id, limit, spec_first_positions(kept as nat));
    assert(spec_history(batch, product_id, limit) =~= spec_history(store, product_id, limit));
    if fetched > 0 {
        lemma_history_starts_with_latest(store, product_id, fetched);
        lemma_history_is_ranked(store, product_id, fetched, 1, picks);
        let first = spec_first_positions(vstd::math::min(1, picks.len() as int) as nat);
        lemma_history_unique(batch, product_id, 1, first);
        lemma_history_starts_with_latest(batch, product_id, 1);
        if picks.len() > 0 {
            assert(first[0] == 0);
        }
    }
}

/// The snapshots that were stored, in the order in which they came.
pub struct SnapshotStore {
    records: Vec<ProductSnapshot>,
}

impl View for SnapshotStore {
    type V = Seq<SnapshotView>;

    closed spec fn view(&self) -> Seq<SnapshotView> {
        snapshot_views(self.records@)
    }
}

impl SnapshotStore {
    /// A store without any record.
    pub fn new() -> (store: SnapshotStore)
        ensures
            store@ == Seq::<SnapshotView>::empty(),
    {
        let store = SnapshotStore { records: Vec::new() };
        assert(store@ =~= Seq::<SnapshotView>::empty());
        store
    }

    /// Stores one more snapshot, behind those that are there.
    pub fn insert(&mut self, snapshot: ProductSnapshot)
        ensures
            final(self)@ == old(self)@.push(snapshot@),
    {
        self.records.push(snapshot);
        assert(self@ =~= old(self)@.push(snapshot@));
    }

    /// The number of snapshots stored.
    pub fn len(&self) -> (n: usize)
        ensures
            n == self@.len(),
    {
        self.records.len()
    }

    /// Whether the record at `first` ranks before the record at `second`.
    fn precedes(&self, first: usize, second: usize) -> (before: bool)
        requires
            first < self.records.len(),
            second < self.records.len(),
        ensures
            before == spec_precedes(self@, first as int, second as int),
    {
        let a = self.records[first].timestamp;
        let b = self.records[second].timestamp;
        a > b || (a == b && first < second)
    }

    /// The record of `product_id` that ranks first among those that rank
    /// behind `bound`, or first of all where there is no bound.
    fn leader_behind(&self, product_id: &str, bound: Option<usize>) -> (leader: Option<usize>)
        requires
            bound matches Some(b) ==> b < self.records.len(),
        ensures
            match leader {
                Some(at) => {
                    &&& spec_in_reach(self@, product_id@, spec_bound(bound), at as int)
                    &&& forall|other: int| #[trigger]
                        spec_in_reach(self@, product_id@, spec_bound(bound), other) && other != at
                            ==> spec_precedes(self@, at as int, other)
                },
                None => forall|other: int|
                    !#[trigger] spec_in_reach(self@, product_id@, spec_bound(bound), other),
            },
    {
        let mut leader: Option<usize> = None;
        let mut i: usize = 0;
        while i < self.records.len()
            invariant
                i <= self.records.len(),
                bound matches Some(b) ==> b < self.records.len(),
                match leader {
                    Some(at) => {
                        &&& at < i
                        &&& spec_in_reach(self@, product_id@, spec_bound(bound), at as int)
                        &&& forall|other: int| #[trigger]
                            spec_in_reach(self@, product_id@, spec_bound(bound), other) && other < i
                                && other != at ==> spec_precedes(self@, at as int, other)
                    },
                    None => forall|other: int| #[trigger]
                        spec_in_reach(self@, product_id@, spec_bound(bound), other) ==> other >= i,
                },
            decreases self.records.len() - i,
        {
            let behind = match bound {
                Some(b) => self.precedes(b, i),
                None => true,
            };
            let in_reach = behind && same_text(self.records[i].product_id.as_str(), product_id);
            if in_reach {
                let leads = match leader {
                    Some(at) => self.precedes(i, at),
                    None => true,
                };
                if leads {
                    leader = Some(i);
                }
            }
            i += 1;
        }
        leader
    }

    /// The latest record of `product_id`: the one with the greatest
    /// timestamp, and of several with that timestamp the one stored first.
    /// `None` where the product has no record.
    pub fn latest(&self, product_id: &str) -> (found: Option<ProductSnapshot>)
        ensures
            match found {
                Some(snapshot) => spec_latest(self@, product_id@) == Some(snapshot@),
                None => spec_latest(self@, product_id@) is None,
            },
            match spec_latest_position(self@, product_id@) {
                Some(at) => is_latest(self@, product_id@, at),
                None => forall|other: int| !spec_matches(self@, product_id@, other),
            },
    {
        match self.leader_behind(product_id, None) {
            Some(at) => {
                proof {
                    assert forall|other: int| #[trigger]
                        spec_matches(self@, product_id@, other) && other
                            != at as int implies spec_precedes(self@, at as int, other) by {
                        assert(spec_in_reach(self@, product_id@, spec_bound(None), other));
                    }
                    assert(is_latest(self@, product_id@, at as int));
                    lemma_latest_unique(self@, product_id@, at as int);
                }
                Some(self.records[at].clone())
            },
            None => {
                assert forall|other: int| !spec_matches(self@, product_id@, other) by {
                    assert(!spec_in_reach(self@, product_id@, spec_bound(None), other));
                }
                None
            },
        }
    }

    /// The newest records of `product_id`, newest first, `limit` of them at
    /// most. Of records with one timestamp the one stored first comes first.
    pub fn history(&self, product_id: &str, limit: usize) -> (found: Vec<ProductSnapshot>)
        ensures
            is_history(
                self@,
                product_id@,
                limit as nat,
                spec_history_positions(self@, product_id@, limit as nat),
            ),
            snapshot_views(found@) == spec_history(self@, product_id@, limit as nat),
    {
        let mut found: Vec<ProductSnapshot> = Vec::new();
        let mut last: Option<usize> = None;
        let mut open = true;
        let ghost mut picks: Seq<int> = Seq::empty();
        while open && found.len() < limit
            invariant
                picks.len() == found.len(),
                found.len() <= limit,
                picks.len() == 0 <==> last is None,
                last matches Some(l) ==> picks.last() == l as int && l < self.records.len(),
                forall|k: int|
                    0 <= k < picks.len() ==> spec_matches(self@, product_id@, #[trigger] picks[k]),
                forall|k: int, l: int|
                    0 <= k < l < picks.len() ==> spec_precedes(
                        self@,
                        #[trigger] picks[k],
                        #[trigger] picks[l],
                    ),
                forall|k: int| 0 <= k < picks.len() ==> (#[trigger] found[k])@ == self@[picks[k]],
                forall|other: int| #[trigger]
                    spec_matches(self@, product_id@, other) && !picks.contains(other) ==> open
                        && spec_in_reach(self@, product_id@, spec_bound(last), other),
            decreases (if open { 1int } else { 0int }), limit - found.len(),
        {
            match self.leader_behind(product_id, last) {
                None => {
                    open = false;
                },
                Some(at) => {
                    let ghost earlier = picks;
                    found.push(self.records[at].clone());
                    proof {
                        picks = picks.push(at as int);
                        assert forall|k: int, l: int|
                            0 <= k < l < picks.len() implies spec_precedes(
                            self@,
                            #[trigger] picks[k],
                            #[trigger] picks[l],
                        ) by {
                            if l == picks.len() - 1 {
                                if k < earlier.len() - 1 {
                                    assert(spec_precedes(self@, earlier[k], earlier.last()));
                                }
                            }
                        }
                        assert forall|other: int| #[trigger]
                            spec_matches(self@, product_id@, other) && !picks.contains(
                                other,
                            ) implies spec_in_reach(
                            self@,
                            product_id@,
                            spec_bound(Some(at)),
                            other,
                        ) by {
                            assert(picks[picks.len() - 1] == at as int);
                            assert(other != at as int);
                            if earlier.contains(other) {
                                let m = choose|m: int|
                                    0 <= m < earlier.len() && earlier[m] == other;
                                assert(picks[m] == other);
                            }
                            assert(spec_in_reach(self@, product_id@, spec_bound(last), other));
                        }
                    }
                    last = Some(at);
                },
            }
        }
        proof {
            let store = self@;
            let pid = product_id@;
            assert forall|other: int| #[trigger]
                spec_matches(store, pid, other) && !picks.contains(other) implies picks.len()
                == limit as nat && forall|k: int|
                0 <= k < picks.len() ==> spec_precedes(store, #[trigger] picks[k], other) by {
                assert(spec_in_reach(store, pid, spec_bound(last), other));
                assert forall|k: int| 0 <= k < picks.len() implies spec_precedes(
                    store,
                    #[trigger] picks[k],
                    other,
                ) by {
                    if k < picks.len() - 1 {
                        assert(spec_precedes(store, picks[k], picks[picks.len() - 1]));
                    }
                }
            }
            assert(is_history(store, pid, limit as nat, picks));
            lemma_history_unique(store, pid, limit as nat, picks);
            assert(snapshot_views(found@) =~= spec_history(store, pid, limit as nat));
        }
        found
    }
}

} // verus!
