//! Game-instance profiles: the data model, a persisted profile store, the
//! resolution of effective launch settings, and the launch state machine.
pub mod document;
pub mod index;
pub mod launch;
pub mod model;
pub mod resolve;
pub mod store;
