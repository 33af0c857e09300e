//! The model behind a web console for an async runtime's instrumentation
//! stream: the tasks, resources and metadata of one upstream server, the
//! step that folds a delta into that snapshot, the table of subscriptions
//! and the decisions of the views that show it.

pub mod addr;
pub mod convert;
pub mod fields;
pub mod keys;
pub mod laws;
pub mod path;
pub mod reduce;
pub mod state;
pub mod subscriptions;
pub mod time;
pub mod views;
pub mod wire;
