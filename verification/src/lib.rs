//! Verified core of a modal numpad mouse: the decisions of the key handlers,
//! the records written to the activity log, and the preparation of those
//! records into training data.

pub mod cursor;
pub mod dataset;
pub mod data_logger;
pub mod rat;
