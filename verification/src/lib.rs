//! A bounded readiness poller: repeatedly submit the outcome of an external
//! status check, decide ready / retry / exhausted / fatal, and account for the
//! fixed wait between attempts. The text predicates that decide readiness
//! (keyword containment, counting matching lines, blank output) are verified
//! as well.

pub mod condition;
pub mod engine;
pub mod poller;
pub mod text;
