//! Verified core of an "infinite monkey theorem" simulation.
//!
//! A fixed reference text is loaded once; workers repeatedly draw a random
//! character from the text's alphabet and compare it against the next expected
//! character, resetting to the start of the text on a mismatch, until the whole
//! text has been matched by chance.  This crate holds the verified logic: the
//! alphabet extraction, the simulation setup, and the per-worker guessing step.
//! The surrounding process (threads, log files, console output) drives these
//! functions from outside.

pub mod alphabet;
pub mod sim;
pub mod worker;
