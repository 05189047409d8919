//! The mathematical model of the store: what a record and a store are, and
//! what each operation makes of a store.

use vstd::prelude::*;
use crate::medium::Medium;

verus! {

/// A drawing record as a plain value.
pub struct RecordModel {
    pub id: nat,
    pub source_id: Seq<char>,
    pub payload: Seq<u8>,
    pub created_at: nat,
    pub updated_at: nat,
}

/// The records in `records` that belong to `source_id`, in their order.
pub open spec fn of_source(records: Seq<RecordModel>, source_id: Seq<char>) -> Seq<RecordModel> {
    records.filter(|r: RecordModel| r.source_id == source_id)
}

/// The records in `records` that do not belong to `source_id`, in their order.
pub open spec fn without_source(records: Seq<RecordModel>, source_id: Seq<char>) -> Seq<
    RecordModel,
> {
    records.filter(|r: RecordModel| r.source_id != source_id)
}

/// The records in `records` under another id than `id`, in their order.
pub open spec fn without_id(records: Seq<RecordModel>, id: nat) -> Seq<RecordModel> {
    records.filter(|r: RecordModel| r.id != id)
}

/// `record` with a new payload, written at `now`.
pub open spec fn rewritten(record: RecordModel, payload: Seq<u8>, now: nat) -> RecordModel {
    RecordModel { payload, updated_at: now, ..record }
}

/// A store as a plain value: its records in the order of their creation, the
/// id that the next record will get, and the condition of the medium.
pub struct StoreModel {
    pub records: Seq<RecordModel>,
    pub next_id: nat,
    pub medium: Medium,
}

impl StoreModel {
    /// Ids start at 1, grow along the sequence, and stay below `next_id`.
    /// So no two records share an id.
    pub open spec fn wf(self) -> bool {
        &&& self.next_id >= 1
        &&& forall|i: int|
            0 <= i < self.records.len() ==> 1 <= (#[trigger] self.records[i]).id < self.next_id
        &&& forall|i: int, j: int|
            0 <= i < j < self.records.len() ==> (#[trigger] self.records[i]).id < (
            #[trigger] self.records[j]).id
    }

    /// The store that holds nothing, on a ready medium.
    pub open spec fn empty() -> StoreModel {
        StoreModel { records: Seq::empty(), next_id: 1, medium: Medium::Ready }
    }

    /// Whether some record has this id.
    pub open spec fn has_id(self, id: nat) -> bool {
        exists|i: int| 0 <= i < self.records.len() && (#[trigger] self.records[i]).id == id
    }

    /// The store after `insert`: on a ready medium one more record at the
    /// end, under the next id; else the same store.
    pub open spec fn after_insert(self, source_id: Seq<char>, payload: Seq<u8>, now: nat) -> StoreModel {
        if self.medium is Ready {
            StoreModel {
                records: self.records.push(
                    RecordModel {
                        id: self.next_id,
                        source_id,
                        payload,
                        created_at: now,
                        updated_at: now,
                    },
                ),
                next_id: self.next_id + 1,
                medium: self.medium,
            }
        } else {
            self
        }
    }

    /// The store after `update`: on a ready medium the record with this id,
    /// if there is one, has the new payload and was written at `now`; all
    /// else is the same.
    pub open spec fn after_update(self, id: nat, payload: Seq<u8>, now: nat) -> StoreModel {
        if self.medium is Ready {
            StoreModel {
                records: Seq::new(
                    self.records.len(),
                    |i: int|
                        if self.records[i].id == id {
                            rewritten(self.records[i], payload, now)
                        } else {
                            self.records[i]
                        },
                ),
                ..self
            }
        } else {
            self
        }
    }

    /// The store after `delete`: on a ready medium the record with this id,
    /// if there is one, is gone and every other record is where it was; else
    /// the same store.
    pub open spec fn after_delete(self, id: nat) -> StoreModel {
        if self.medium is Ready {
            StoreModel { records: without_id(self.records, id), ..self }
        } else {
            self
        }
    }

    /// The store after `delete_by_source`: on a ready medium every record of
    /// that source is gone and every other record is where it was; else the
    /// same store.
    pub open spec fn after_delete_by_source(self, source_id: Seq<char>) -> StoreModel {
        if self.medium is Ready {
            StoreModel { records: without_source(self.records, source_id), ..self }
        } else {
            self
        }
    }
}

} // verus!
