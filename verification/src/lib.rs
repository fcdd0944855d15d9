//! Coordination core of an event-driven help-center export pipeline.
//!
//! Four services (fetch, category processing, file writing and a lifecycle
//! monitor) talk only through events. This crate holds their decisions as
//! verified functions from a received item to the events to publish, a bounded
//! fan-out event bus with explicit lag faults, and the quiescence rule that
//! ends the pipeline.
//!
//! Nothing here waits, calls the network or touches the file system: a
//! service is handed what it received and answers with what is to be
//! published and done. The program around the library performs that and
//! comes back with the next item.
//!
//! Each module states its behaviour over mathematical values (the `*View`
//! types) and proves its laws there; the executable functions are proved to
//! compute exactly those values.

pub mod app_state;
pub mod bus;
pub mod categories;
pub mod events;
pub mod fetcher;
pub mod file_writer;
pub mod utils;
