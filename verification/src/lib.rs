//! A store of drawing records grouped by the source they belong to.
//!
//! Every record carries the identifier of its source. The store hands out
//! record ids, keeps the records in the order of their creation and removes
//! all records of one source in a single all-or-nothing step.

pub mod command;
pub mod error;
pub mod lemmas;
pub mod medium;
pub mod model;
pub mod record;
pub mod store;

pub use command::clear_drawings;
pub use error::StoreError;
pub use medium::Medium;
pub use record::DrawingRecord;
pub use store::DrawingStore;
