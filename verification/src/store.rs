//! The store itself: the records in memory, the id counter, and what is known
//! of the backing medium.

use vstd::prelude::*;
use crate::error::StoreError;
use crate::lemmas::{
    lemma_delete_by_source_keeps_wf,
    lemma_delete_keeps_wf,
    lemma_delete_of_absent_id,
    lemma_delete_removes_one,
    lemma_filter_push,
    lemma_insert_keeps_wf,
    lemma_update_keeps_wf,
};
use crate::medium::Medium;
use crate::model::{RecordModel, StoreModel, of_source, rewritten, without_source};
use crate::record::DrawingRecord;

verus! {

/// The drawing records of all sources, in the order of their creation.
///
/// An operation that changes the records needs the backing medium. The store
/// does not reach for the medium itself: whoever owns it reports its
/// condition with `set_medium`, and each operation goes by the last report.
///
/// A store is well-formed at all times: no two records share an id, and no id
/// is handed out twice. Every method says so to its caller.
#[derive(Debug)]
pub struct DrawingStore {
    records: Vec<DrawingRecord>,
    next_id: u64,
    medium: Medium,
}

/// The records as plain values, one for one.
spec fn models(records: Seq<DrawingRecord>) -> Seq<RecordModel> {
    Seq::new(records.len(), |i: int| records[i]@)
}

impl View for DrawingStore {
    type V = StoreModel;

    closed spec fn view(&self) -> StoreModel {
        StoreModel {
            records: models(self.records@),
            next_id: self.next_id as nat,
            medium: self.medium,
        }
    }
}

impl DrawingStore {
    #[verifier::type_invariant]
    spec fn inv(&self) -> bool {
        self@.wf()
    }

    /// A store without records, on a ready medium. The first record will get
    /// the id 1.
    pub fn new() -> (store: Self)
        ensures
            store@ == StoreModel::empty(),
            store@.wf(),
    {
        let store = DrawingStore { records: Vec::new(), next_id: 1, medium: Medium::Ready };
        assert(store@.records =~= Seq::empty());
        store
    }

    /// The condition of the medium, as last reported.
    pub fn medium(&self) -> (medium: Medium)
        ensures
            medium == self@.medium,
            self@.wf(),
    {
        proof {
            use_type_invariant(self);
        }
        self.medium
    }

    /// Reports the condition of the medium. The records stay as they are.
    pub fn set_medium(&mut self, medium: Medium)
        ensures
            final(self)@ == (StoreModel { medium, ..old(self)@ }),
            final(self)@.wf(),
    {
        proof {
            use_type_invariant(&*self);
        }
        self.medium = medium;
    }

    /// The number of records.
    pub fn len(&self) -> (len: usize)
        ensures
            len == self@.records.len(),
            self@.wf(),
    {
        proof {
            use_type_invariant(self);
        }
        self.records.len()
    }

    /// Whether the store holds no record.
    pub fn is_empty(&self) -> (empty: bool)
        ensures
            empty == (self@.records.len() == 0),
            self@.wf(),
    {
        proof {
            use_type_invariant(self);
        }
        self.records.len() == 0
    }

    /// The id that the next record will get.
    pub fn next_id(&self) -> (id: u64)
        ensures
            id == self@.next_id,
            self@.wf(),
    {
        proof {
            use_type_invariant(self);
        }
        self.next_id
    }

    /// The number of records that belong to `source_id`.
    pub fn count_by_source(&self, source_id: &str) -> (count: usize)
        ensures
            count == of_source(self@.records, source_id@).len(),
            self@.wf(),
    {
        proof {
            use_type_invariant(self);
        }
        let wanted = source_id.to_owned();
        let ghost all = self@.records;
        let mut count: usize = 0;
        let mut index: usize = 0;
        while index < self.records.len()
            invariant
                index <= self.records.len(),
                wanted@ == source_id@,
                all == self@.records,
                count <= index,
                count == of_source(all.take(index as int), source_id@).len(),
            decreases self.records.len() - index,
        {
            proof {
                lemma_filter_push(
                    all.take(index as int),
                    all[index as int],
                    |r: RecordModel| r.source_id == source_id@,
                );
                assert(all.take(index as int).push(all[index as int]) =~= all.take(index + 1));
            }
            if self.records[index].belongs_to(&wanted) {
                count += 1;
            }
            index += 1;
        }
        assert(all.take(index as int) =~= all);
        count
    }

    /// Where the record with this id stands, if there is one.
    fn position(&self, id: u64) -> (position: Option<usize>)
        ensures
            match position {
                Some(index) => index < self@.records.len() && self@.records[index as int].id == id,
                None => !self@.has_id(id as nat),
            },
    {
        let mut index: usize = 0;
        while index < self.records.len()
            invariant
                index <= self.records.len(),
                forall|i: int| 0 <= i < index ==> (#[trigger] self@.records[i]).id != id,
            decreases self.records.len() - index,
        {
            if self.records[index].id() == id {
                return Some(index);
            }
            index += 1;
        }
        None
    }

    /// Moves the records out and leaves none behind, so that they can be
    /// worked on and put back in one step.
    fn take_records(&mut self) -> (records: Vec<DrawingRecord>)
        ensures
            records == old(self).records,
            final(self).records@.len() == 0,
            final(self).next_id == old(self).next_id,
            final(self).medium == old(self).medium,
    {
        proof {
            use_type_invariant(&*self);
        }
        let mut records: Vec<DrawingRecord> = Vec::new();
        std::mem::swap(&mut self.records, &mut records);
        records
    }

    /// Stores a new drawing of `source_id`, created at `now`, and returns the
    /// id it was given.
    ///
    /// On a ready medium the record goes to the end, under the next id. On a
    /// fault the call fails with the error of that fault and the store is as
    /// it was.
    pub fn insert(&mut self, source_id: String, payload: Vec<u8>, now: u64) -> (result: Result<
        u64,
        StoreError,
    >)
        requires
            old(self)@.next_id < u64::MAX,
        ensures
            final(self)@ == old(self)@.after_insert(source_id@, payload@, now as nat),
            final(self)@.wf(),
            match result {
                Ok(id) => old(self)@.medium is Ready && id == old(self)@.next_id,
                Err(error) => old(self)@.medium.outcome() == Err::<(), StoreError>(error),
            },
    {
        proof {
            use_type_invariant(&*self);
        }
        if let Err(error) = self.medium.check() {
            return Err(error);
        }
        let ghost before = self@;
        let id = self.next_id;
        let mut records = self.take_records();
        records.push(DrawingRecord::new(id, source_id, payload, now));
        proof {
            lemma_insert_keeps_wf(before, source_id@, payload@, now as nat);
            assert(models(records@) =~= before.after_insert(
                source_id@,
                payload@,
                now as nat,
            ).records);
        }
        self.next_id = id + 1;
        self.records = records;
        Ok(id)
    }

    /// Replaces the payload of the record with this id and notes `now` as the
    /// time of the change. Returns whether there is such a record.
    ///
    /// Where there is none, nothing changes. On a fault the call fails with
    /// the error of that fault and the store is as it was.
    pub fn update(&mut self, id: u64, payload: Vec<u8>, now: u64) -> (result: Result<
        bool,
        StoreError,
    >)
        ensures
            final(self)@ == old(self)@.after_update(id as nat, payload@, now as nat),
            final(self)@.wf(),
            match result {
                Ok(found) => old(self)@.medium is Ready && found == old(self)@.has_id(id as nat),
                Err(error) => old(self)@.medium.outcome() == Err::<(), StoreError>(error),
            },
    {
        proof {
            use_type_invariant(&*self);
        }
        if let Err(error) = self.medium.check() {
            return Err(error);
        }
        let ghost before = self@;
        match self.position(id) {
            Some(index) => {
                let mut records = self.take_records();
                let ghost held = records@;
                records[index].rewrite(payload, now);
                proof {
                    lemma_update_keeps_wf(before, id as nat, payload@, now as nat);
                    assert(records@[index as int]@ == rewritten(
                        held[index as int]@,
                        payload@,
                        now as nat,
                    ));
                    assert forall|j: int| 0 <= j < held.len() && j != index implies records@[j]
                        == held[j] && before.records[j].id != id by {
                        assert(before.records[index as int].id == id);
                    }
                    assert(models(records@) =~= before.after_update(
                        id as nat,
                        payload@,
                        now as nat,
                    ).records);
                }
                self.records = records;
                Ok(true)
            },
            None => {
                assert(self@.records =~= before.after_update(
                    id as nat,
                    payload@,
                    now as nat,
                ).records);
                Ok(false)
            },
        }
    }

    /// Removes the record with this id. Returns whether there was one.
    ///
    /// Where there is none, nothing changes. On a fault the call fails with
    /// the error of that fault and the store is as it was.
    pub fn delete(&mut self, id: u64) -> (result: Result<bool, StoreError>)
        ensures
            final(self)@ == old(self)@.after_delete(id as nat),
            final(self)@.wf(),
            match result {
                Ok(found) => old(self)@.medium is Ready && found == old(self)@.has_id(id as nat),
                Err(error) => old(self)@.medium.outcome() == Err::<(), StoreError>(error),
            },
    {
        proof {
            use_type_invariant(&*self);
        }
        if let Err(error) = self.medium.check() {
            return Err(error);
        }
        let ghost before = self@;
        match self.position(id) {
            Some(index) => {
                let mut records = self.take_records();
                records.remove(index);
                proof {
                    lemma_delete_keeps_wf(before, id as nat);
                    lemma_delete_removes_one(before, index as int);
                    assert(models(records@) =~= before.records.remove(index as int));
                }
                self.records = records;
                Ok(true)
            },
            None => {
                proof {
                    lemma_delete_of_absent_id(before, id as nat);
                }
                Ok(false)
            },
        }
    }

    /// Removes every record of `source_id`, or nothing at all.
    ///
    /// On a ready medium the call succeeds, also where no record belongs to
    /// `source_id`: the records of that source are gone, and the others are
    /// where they were. On a fault it fails with the error of that fault and
    /// the store is as it was.
    pub fn delete_by_source(&mut self, source_id: &str) -> (result: Result<(), StoreError>)
        ensures
            result == old(self)@.medium.outcome(),
            final(self)@ == old(self)@.after_delete_by_source(source_id@),
            result is Err ==> final(self)@ == old(self)@,
            final(self)@.wf(),
    {
        proof {
            use_type_invariant(&*self);
            lemma_delete_by_source_keeps_wf(self@, source_id@);
        }
        if let Err(error) = self.medium.check() {
            return Err(error);
        }
        let wanted = source_id.to_owned();
        let ghost before = self@.records;
        let pending = self.take_records();
        let mut kept: Vec<DrawingRecord> = Vec::new();
        for record in iter: pending
            invariant
                wanted@ == source_id@,
                iter.seq().len() == before.len(),
                forall|i: int| 0 <= i < before.len() ==> before[i] == #[trigger] iter.seq()[i]@,
                models(kept@) == without_source(before.take(iter.index() as int), source_id@),
        {
            proof {
                let done = iter.index() as int;
                lemma_filter_push(
                    before.take(done),
                    before[done],
                    |r: RecordModel| r.source_id != source_id@,
                );
                assert(before.take(done).push(before[done]) =~= before.take(done + 1));
            }
            let ghost kept_before = models(kept@);
            if !record.belongs_to(&wanted) {
                kept.push(record);
                assert(models(kept@) =~= kept_before.push(record@));
            }
        }
        assert(before.take(before.len() as int) =~= before);
        self.records = kept;
        Ok(())
    }

    /// The record at `index`, counting from the oldest, if there are that
    /// many.
    pub fn get(&self, index: usize) -> (record: Option<&DrawingRecord>)
        ensures
            match record {
                Some(r) => index < self@.records.len() && r@ == self@.records[index as int],
                None => index >= self@.records.len(),
            },
            self@.wf(),
    {
        proof {
            use_type_invariant(self);
        }
        if index < self.records.len() {
            Some(&self.records[index])
        } else {
            None
        }
    }
}

} // verus!
