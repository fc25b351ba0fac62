//! Core of an asynchronous content-submission pipeline for a forum whose
//! posts and comments must each be paid for by an on-ledger transaction.
//!
//! A submission is admitted, registered under a fresh task identifier, and
//! queued; a pool of workers (run by the surrounding application) drives each
//! task through transaction verification, replay protection, duplicate-content
//! suppression and persistence, and records the outcome in a status store that
//! callers poll.

pub mod admission;
pub mod clock;
pub mod crypto;
pub mod models;
pub mod queue;
pub mod stats;
pub mod status;
pub mod storage;
pub mod text;
pub mod verify;
