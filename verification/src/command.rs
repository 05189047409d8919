//! The one command that callers across the application boundary can invoke.

use vstd::prelude::*;
use crate::store::DrawingStore;

verus! {

/// Clears the drawings of `source_id` and answers in the boundary's terms:
/// nothing on success, a sentence on failure.
///
/// The store changes exactly as `DrawingStore::delete_by_source` changes it, so
/// a failed command leaves every record in place.
pub fn clear_drawings(store: &mut DrawingStore, source_id: String) -> (reply: Result<(), String>)
    ensures
        final(store)@ == old(store)@.after_delete_by_source(source_id@),
        final(store)@.wf(),
        reply is Err ==> final(store)@ == old(store)@,
        match reply {
            Ok(_) => old(store)@.medium.outcome() is Ok,
            Err(text) => old(store)@.medium.outcome() matches Err(error) && text@
                == error.message_text(),
        },
{
    match store.delete_by_source(source_id.as_str()) {
        Ok(()) => Ok(()),
        Err(error) => Err(error.message()),
    }
}

} // verus!
