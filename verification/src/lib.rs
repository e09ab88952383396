//! Core engine of a comment-stream watchdog: it merges several
//! independently paginated remote listings into one chronological stream,
//! tolerates stale pagination cursors and transient failures, escalates
//! diagnostic verbosity while no progress is made, and keeps a ledger of
//! the corrective replies it has posted so they can be amended later.
//!
//! All remote I/O is performed by the embedding program; this crate holds
//! the decision logic, verified against the contracts below.
//!
//! A caveat on the binary under `app/`: the platform client it links
//! exposes neither a comment's creation time nor its permalink, and has
//! no single-item lookup, no account-history listing and no edit
//! endpoint. The binary therefore substitutes the fetch time for the
//! creation time — so its merge effectively orders by fetch time and the
//! maximum-age guard measures from fetch —, rebuilds permalinks from a
//! comment's coordinates, probes a fresh listing instead of looking a
//! cursor item up directly (an item merely older than that listing is
//! then treated as dead), rebuilds the reply ledger from the watched
//! sources' listings instead of the account history, and records
//! amendments without being able to post them. The library's contracts
//! are unaffected; they speak of the values actually handed in.

pub mod backoff;
pub mod detect;
pub mod handler;
pub mod item;
pub mod ledger;
pub mod merger;
pub mod monitor;
pub mod text;
