//! The field projector: one named number out of the quick status of a
//! snapshot, or that number across a run of snapshots.

use crate::models::FieldValue;
use crate::models::ProductSnapshot;
use crate::models::SnapshotView;
use crate::store::snapshot_views;
use crate::utils::parse_field;
use crate::utils::spec_parse_field;
use vstd::prelude::*;

verus! {

/// The number that `snapshot` carries under the name `field`: none where the
/// name names no field, and none where the snapshot lacks the number.
pub open spec fn spec_project_one(snapshot: SnapshotView, field: Seq<char>) -> Option<FieldValue> {
    match spec_parse_field(field) {
        Some(f) => snapshot.quick_status.spec_get(f),
        None => None,
    }
}

/// The numbers that `snapshots` carry under the name `field`, in their
/// order, without the snapshots that lack the number.
pub open spec fn spec_project_many(snapshots: Seq<SnapshotView>, field: Seq<char>) -> Seq<
    FieldValue,
>
    decreases snapshots.len(),
{
    if snapshots.len() == 0 {
        Seq::empty()
    } else {
        let earlier = spec_project_many(snapshots.drop_last(), field);
        match spec_project_one(snapshots.last(), field) {
            Some(value) => earlier.push(value),
            None => earlier,
        }
    }
}

/// The number that `snapshot` carries under the name `field`, if it carries
/// one.
pub fn project_one(snapshot: &ProductSnapshot, field: &str) -> (value: Option<FieldValue>)
    ensures
        value == spec_project_one(snapshot@, field@),
{
    match parse_field(field) {
        Some(f) => snapshot.quick_status.get(f),
        None => None,
    }
}

/// The numbers that `snapshots` carry under the name `field`, in their
/// order. A snapshot that lacks the number adds nothing: the result may be
/// shorter than the input.
pub fn project_many(snapshots: &[ProductSnapshot], field: &str) -> (values: Vec<FieldValue>)
    ensures
        values@ == spec_project_many(snapshot_views(snapshots@), field@),
{
    let mut values: Vec<FieldValue> = Vec::new();
    let mut i: usize = 0;
    while i < snapshots.len()
        invariant
            i <= snapshots.len(),
            values@ == spec_project_many(snapshot_views(snapshots@).take(i as int), field@),
        decreases snapshots.len() - i,
    {
        proof {
            let all = snapshot_views(snapshots@);
            assert(all.take(i + 1).drop_last() =~= all.take(i as int));
            assert(all.take(i + 1).last() == snapshots[i as int]@);
        }
        match project_one(&snapshots[i], field) {
            Some(value) => {
                values.push(value);
            },
            None => {},
        }
        i += 1;
    }
    proof {
        let all = snapshot_views(snapshots@);
        assert(all.take(i as int) =~= all);
    }
    values
}

/// A projection is no longer than its input, and as long as its input only
/// where every snapshot carries the number.
pub proof fn lemma_project_many_drops(snapshots: Seq<SnapshotView>, field: Seq<char>)
    ensures
        spec_project_many(snapshots, field).len() <= snapshots.len(),
        spec_project_many(snapshots, field).len() == snapshots.len() <==> forall|i: int|
            0 <= i < snapshots.len() ==> spec_project_one(#[trigger] snapshots[i], field) is Some,
    decreases snapshots.len(),
{
    if snapshots.len() > 0 {
        let earlier = snapshots.drop_last();
        lemma_project_many_drops(earlier, field);
        if spec_project_many(snapshots, field).len() == snapshots.len() {
            assert forall|i: int| 0 <= i < snapshots.len() implies spec_project_one(
                #[trigger] snapshots[i],
                field,
            ) is Some by {
                if i < earlier.len() {
                    assert(earlier[i] == snapshots[i]);
                }
            }
        }
        if forall|i: int|
            0 <= i < snapshots.len() ==> spec_project_one(#[trigger] snapshots[i], field) is Some {
            assert forall|i: int| 0 <= i < earlier.len() implies spec_project_one(
                #[trigger] earlier[i],
                field,
            ) is Some by {
                assert(earlier[i] == snapshots[i]);
            }
            assert(spec_project_one(snapshots.last(), field) is Some);
        }
    }
}

/// Every number of a projection is the number of one of the snapshots, and
/// the numbers stand in the order of their snapshots.
pub proof fn lemma_project_many_keeps_order(
    snapshots: Seq<SnapshotView>,
    field: Seq<char>,
) -> (sources: Seq<int>)
    ensures
        sources.len() == spec_project_many(snapshots, field).len(),
        forall|k: int|
            0 <= k < sources.len() ==> 0 <= #[trigger] sources[k] < snapshots.len()
                && spec_project_one(snapshots[sources[k]], field) == Some(
                spec_project_many(snapshots, field)[k],
            ),
        forall|k: int, l: int| 0 <= k < l < sources.len() ==> sources[k] < sources[l],
    decreases snapshots.len(),
{
    if snapshots.len() == 0 {
        Seq::empty()
    } else {
        let earlier = lemma_project_many_keeps_order(snapshots.drop_last(), field);
        let sources = match spec_project_one(snapshots.last(), field) {
            Some(_) => earlier.push(snapshots.len() - 1),
            None => earlier,
        };
        assert forall|k: int| 0 <= k < sources.len() implies 0 <= #[trigger] sources[k]
            < snapshots.len() && spec_project_one(snapshots[sources[k]], field) == Some(
            spec_project_many(snapshots, field)[k],
        ) by {
            if k < earlier.len() {
                assert(snapshots.drop_last()[earlier[k]] == snapshots[earlier[k]]);
            }
        }
        sources
    }
}

} // verus!
