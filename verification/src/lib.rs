//! Verified core of a screenshot-renaming watcher.
//!
//! The library holds the decision logic of the pipeline: classifying paths
//! as fresh screenshots, deduplicating them under a cooldown window,
//! probing readiness, encoding content for the naming service, classifying
//! the service's answer, and computing the rename destination.  All
//! filesystem, network and UI work stays with the surrounding application,
//! which feeds plain values into these functions and acts on their results.

pub mod classify;
pub mod encode;
pub mod ledger;
pub mod naming;
pub mod pathops;
pub mod prober;
pub mod user;
pub mod watcher;
