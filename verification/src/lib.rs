//! A periodic, graph-structured activity pipeline for a vehicle-perception
//! scenario: the static topology that every process evaluates identically,
//! and the per-step behaviour of the activities that run on top of it.
//!
//! Nothing in this crate performs I/O. Activities are stepped with the
//! observations of their ports and answer with what is to be published or
//! forwarded; the embedding application talks to the transport.

pub mod activities;
pub mod activity;
pub mod agents;
pub mod ids;
pub mod topicspec;
