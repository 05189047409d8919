//! What follows from the model: the operations keep a store well-formed, and
//! removing a source is idempotent, leaves other sources alone and is
//! all-or-nothing.

use vstd::prelude::*;
use crate::model::{RecordModel, StoreModel, of_source, without_id, without_source};

verus! {

/// Filtering a sequence that ends in `last` filters what stands before it and
/// then keeps `last` or not.
pub proof fn lemma_filter_push(
    records: Seq<RecordModel>,
    last: RecordModel,
    keep: spec_fn(RecordModel) -> bool,
)
    ensures
        records.push(last).filter(keep) == if keep(last) {
            records.filter(keep).push(last)
        } else {
            records.filter(keep)
        },
{
    reveal(Seq::filter);
    assert(records.push(last).drop_last() =~= records);
}

/// A filter that every record passes removes nothing.
pub proof fn lemma_filter_keeps_all(records: Seq<RecordModel>, keep: spec_fn(RecordModel) -> bool)
    requires
        forall|i: int| 0 <= i < records.len() ==> keep(#[trigger] records[i]),
    ensures
        records.filter(keep) == records,
    decreases records.len(),
{
    reveal(Seq::filter);
    if records.len() > 0 {
        lemma_filter_keeps_all(records.drop_last(), keep);
        assert(records.drop_last().push(records.last()) =~= records);
    }
}

/// A filter that no record passes leaves nothing.
pub proof fn lemma_filter_drops_all(records: Seq<RecordModel>, keep: spec_fn(RecordModel) -> bool)
    requires
        forall|i: int| 0 <= i < records.len() ==> !keep(#[trigger] records[i]),
    ensures
        records.filter(keep).len() == 0,
    decreases records.len(),
{
    reveal(Seq::filter);
    if records.len() > 0 {
        lemma_filter_drops_all(records.drop_last(), keep);
    }
}

/// Every record that a filter leaves passes the filter and was there before.
pub proof fn lemma_filter_members(records: Seq<RecordModel>, keep: spec_fn(RecordModel) -> bool)
    ensures
        forall|i: int|
            0 <= i < records.filter(keep).len() ==> {
                &&& keep(#[trigger] records.filter(keep)[i])
                &&& records.contains(records.filter(keep)[i])
            },
{
    let left = records.filter(keep);
    assert forall|i: int| 0 <= i < left.len() implies keep(#[trigger] left[i]) && records.contains(
        left[i],
    ) by {
        records.lemma_filter_pred(keep, i);
        assert(left.contains(left[i]));
        records.lemma_filter_contains_rev(keep, left[i]);
    }
}

/// Filtering the records of a well-formed store leaves a well-formed store:
/// the ids still grow along the sequence and stay below the next id.
pub proof fn lemma_filter_keeps_wf(store: StoreModel, keep: spec_fn(RecordModel) -> bool)
    requires
        store.wf(),
    ensures
        (StoreModel { records: store.records.filter(keep), ..store }).wf(),
    decreases store.records.len(),
{
    if store.records.len() > 0 {
        let last = store.records.last();
        let front = StoreModel { records: store.records.drop_last(), ..store };
        let left = front.records.filter(keep);
        let after = StoreModel { records: store.records.filter(keep), ..store };
        let inner = StoreModel { records: left, ..front };
        assert(front.wf());
        lemma_filter_keeps_wf(front, keep);
        assert(inner.wf());
        lemma_filter_members(front.records, keep);
        lemma_filter_push(front.records, last, keep);
        assert(front.records.push(last) =~= store.records);
        assert(store.records[store.records.len() - 1] == last);
        assert forall|i: int| 0 <= i < left.len() implies (#[trigger] left[i]).id < last.id by {
            assert(front.records.contains(left[i]));
            let k = choose|k: int| 0 <= k < front.records.len() && front.records[k] == left[i];
            assert(store.records[k] == left[i]);
        }
        assert forall|i: int| 0 <= i < after.records.len() implies 1 <= (
        #[trigger] after.records[i]).id < after.next_id by {
            if i < left.len() {
                assert(after.records[i] == inner.records[i]);
            }
        }
        assert forall|i: int, j: int| 0 <= i < j < after.records.len() implies (
        #[trigger] after.records[i]).id < (#[trigger] after.records[j]).id by {
            assert(after.records[i] == inner.records[i]);
            if j < left.len() {
                assert(after.records[j] == inner.records[j]);
            }
        }
    } else {
        reveal(Seq::filter);
    }
}

/// Inserting into a well-formed store leaves a well-formed store.
pub proof fn lemma_insert_keeps_wf(
    store: StoreModel,
    source_id: Seq<char>,
    payload: Seq<u8>,
    now: nat,
)
    requires
        store.wf(),
    ensures
        store.after_insert(source_id, payload, now).wf(),
{
    let after = store.after_insert(source_id, payload, now);
    if store.medium is Ready {
        assert forall|i: int| 0 <= i < after.records.len() implies 1 <= (
        #[trigger] after.records[i]).id < after.next_id by {
            if i < store.records.len() {
                assert(after.records[i] == store.records[i]);
            }
        }
        assert forall|i: int, j: int| 0 <= i < j < after.records.len() implies (
        #[trigger] after.records[i]).id < (#[trigger] after.records[j]).id by {
            assert(after.records[i] == store.records[i]);
            if j < store.records.len() {
                assert(after.records[j] == store.records[j]);
            }
        }
    }
}

/// Updating a record of a well-formed store leaves a well-formed store, with
/// every record under the id, the source and the time of creation it had.
pub proof fn lemma_update_keeps_wf(store: StoreModel, id: nat, payload: Seq<u8>, now: nat)
    requires
        store.wf(),
    ensures
        store.after_update(id, payload, now).wf(),
        store.after_update(id, payload, now).records.len() == store.records.len(),
        forall|i: int|
            0 <= i < store.records.len() ==> {
                &&& (#[trigger] store.after_update(id, payload, now).records[i]).id
                    == store.records[i].id
                &&& store.after_update(id, payload, now).records[i].source_id
                    == store.records[i].source_id
                &&& store.after_update(id, payload, now).records[i].created_at
                    == store.records[i].created_at
            },
{
}

/// Deleting a record from a well-formed store leaves a well-formed store.
pub proof fn lemma_delete_keeps_wf(store: StoreModel, id: nat)
    requires
        store.wf(),
    ensures
        store.after_delete(id).wf(),
{
    if store.medium is Ready {
        lemma_filter_keeps_wf(store, |r: RecordModel| r.id != id);
    }
}

/// Removing a source from a well-formed store leaves a well-formed store.
pub proof fn lemma_delete_by_source_keeps_wf(store: StoreModel, source_id: Seq<char>)
    requires
        store.wf(),
    ensures
        store.after_delete_by_source(source_id).wf(),
{
    if store.medium is Ready {
        lemma_filter_keeps_wf(store, |r: RecordModel| r.source_id != source_id);
    }
}

/// In a well-formed store, deleting the record at `index` by its id removes
/// that record and no other.
pub proof fn lemma_delete_removes_one(store: StoreModel, index: int)
    requires
        store.wf(),
        0 <= index < store.records.len(),
    ensures
        without_id(store.records, store.records[index].id) == store.records.remove(index),
{
    let id = store.records[index].id;
    let keep = |r: RecordModel| r.id != id;
    let front = store.records.subrange(0, index);
    let one = seq![store.records[index]];
    let back = store.records.subrange(index + 1, store.records.len() as int);
    assert(store.records =~= front + one + back);
    assert(store.records.remove(index) =~= front + back);
    Seq::filter_distributes_over_add(front + one, back, keep);
    Seq::filter_distributes_over_add(front, one, keep);
    assert forall|i: int| 0 <= i < front.len() implies keep(#[trigger] front[i]) by {
        assert(front[i] == store.records[i]);
    }
    assert forall|i: int| 0 <= i < back.len() implies keep(#[trigger] back[i]) by {
        assert(back[i] == store.records[index + 1 + i]);
    }
    lemma_filter_keeps_all(front, keep);
    lemma_filter_keeps_all(back, keep);
    lemma_filter_drops_all(one, keep);
    assert(one.filter(keep) =~= Seq::empty());
    assert(front + Seq::<RecordModel>::empty() =~= front);
}

/// Deleting an id that no record has changes nothing.
pub proof fn lemma_delete_of_absent_id(store: StoreModel, id: nat)
    requires
        !store.has_id(id),
    ensures
        store.after_delete(id) == store,
{
    lemma_filter_keeps_all(store.records, |r: RecordModel| r.id != id);
}

/// Removing a source twice is removing it once: the second removal finds no
/// record of that source and changes nothing, and it ends as the first did,
/// so on a ready medium both succeed.
pub proof fn lemma_delete_by_source_idempotent(store: StoreModel, source_id: Seq<char>)
    ensures
        store.after_delete_by_source(source_id).after_delete_by_source(source_id)
            == store.after_delete_by_source(source_id),
        store.after_delete_by_source(source_id).medium.outcome() == store.medium.outcome(),
        store.medium is Ready ==> store.medium.outcome() is Ok,
        store.medium is Ready ==> of_source(
            store.after_delete_by_source(source_id).records,
            source_id,
        ).len() == 0,
{
    if store.medium is Ready {
        let left = without_source(store.records, source_id);
        lemma_filter_members(store.records, |r: RecordModel| r.source_id != source_id);
        lemma_filter_keeps_all(left, |r: RecordModel| r.source_id != source_id);
        lemma_filter_drops_all(left, |r: RecordModel| r.source_id == source_id);
    }
}

/// Removing one source leaves the records of every other source as they
/// were: the same records in the same order.
pub proof fn lemma_delete_by_source_isolated(
    store: StoreModel,
    removed: Seq<char>,
    other: Seq<char>,
)
    requires
        removed != other,
    ensures
        of_source(store.after_delete_by_source(removed).records, other) == of_source(
            store.records,
            other,
        ),
    decreases store.records.len(),
{
    let is_other = |r: RecordModel| r.source_id == other;
    let not_removed = |r: RecordModel| r.source_id != removed;
    if store.medium is Ready && store.records.len() > 0 {
        let last = store.records.last();
        let front = StoreModel { records: store.records.drop_last(), ..store };
        lemma_delete_by_source_isolated(front, removed, other);
        assert(front.records.push(last) =~= store.records);
        lemma_filter_push(front.records, last, not_removed);
        lemma_filter_push(front.records, last, is_other);
        lemma_filter_push(front.records.filter(not_removed), last, is_other);
    } else if store.medium is Ready {
        reveal(Seq::filter);
    }
}

/// Removing any source from a store without records changes nothing, and on
/// a ready medium it succeeds.
pub proof fn lemma_delete_by_source_on_empty(store: StoreModel, source_id: Seq<char>)
    requires
        store.records.len() == 0,
    ensures
        store.after_delete_by_source(source_id) == store,
        store.after_delete_by_source(source_id).records.len() == 0,
        store.medium is Ready ==> store.medium.outcome() is Ok,
{
    reveal(Seq::filter);
}

/// A removal that meets a fault fails with the error of that fault and
/// leaves every record in place.
pub proof fn lemma_failed_delete_by_source_changes_nothing(store: StoreModel, source_id: Seq<char>)
    requires
        !(store.medium is Ready),
    ensures
        store.medium.outcome() is Err,
        store.after_delete_by_source(source_id) == store,
{
}

} // verus!
