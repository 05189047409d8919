//! One drawing, as the store keeps it.

use vstd::prelude::*;
use crate::model::RecordModel;

verus! {

/// A stored drawing. Only the store makes and changes records; a caller
/// reads them.
#[derive(Debug)]
pub struct DrawingRecord {
    id: u64,
    source_id: String,
    payload: Vec<u8>,
    created_at: u64,
    updated_at: u64,
}

impl View for DrawingRecord {
    type V = RecordModel;

    closed spec fn view(&self) -> RecordModel {
        RecordModel {
            id: self.id as nat,
            source_id: self.source_id@,
            payload: self.payload@,
            created_at: self.created_at as nat,
            updated_at: self.updated_at as nat,
        }
    }
}

impl DrawingRecord {
    /// A record created at `now`.
    pub(crate) fn new(id: u64, source_id: String, payload: Vec<u8>, now: u64) -> (record: Self)
        ensures
            record@ == (RecordModel {
                id: id as nat,
                source_id: source_id@,
                payload: payload@,
                created_at: now as nat,
                updated_at: now as nat,
            }),
    {
        DrawingRecord { id, source_id, payload, created_at: now, updated_at: now }
    }

    /// Replaces the payload and notes `now` as the time of the change.
    pub(crate) fn rewrite(&mut self, payload: Vec<u8>, now: u64)
        ensures
            final(self)@ == crate::model::rewritten(old(self)@, payload@, now as nat),
    {
        self.payload = payload;
        self.updated_at = now;
    }

    /// The id that the store gave this record.
    pub fn id(&self) -> (id: u64)
        ensures
            id == self@.id,
    {
        self.id
    }

    /// The source that this record belongs to.
    pub fn source_id(&self) -> (source_id: &str)
        ensures
            source_id@ == self@.source_id,
    {
        self.source_id.as_str()
    }

    /// The drawing's data, as the caller handed it in.
    pub fn payload(&self) -> (payload: &Vec<u8>)
        ensures
            payload@ == self@.payload,
    {
        &self.payload
    }

    /// When the record was created.
    pub fn created_at(&self) -> (at: u64)
        ensures
            at == self@.created_at,
    {
        self.created_at
    }

    /// When the payload was last written.
    pub fn updated_at(&self) -> (at: u64)
        ensures
            at == self@.updated_at,
    {
        self.updated_at
    }

    /// Whether this record belongs to `source_id`.
    pub(crate) fn belongs_to(&self, source_id: &String) -> (belongs: bool)
        ensures
            belongs == (self@.source_id == source_id@),
    {
        self.source_id == *source_id
    }
}

} // verus!
