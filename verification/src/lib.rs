//! Checks subscribed video channels for what was published since the last run and
//! renders one notification per video for each configured notifier.
//!
//! The crate holds the decisions of a run: reading a channel's feed into videos,
//! keeping the fresh ones, ordering them, and wording the notifications. Fetching
//! feeds and delivering notifications is left to the caller.

pub mod error;
pub mod feed;
pub mod laws;
pub mod notifier;
pub mod run;
pub mod text;
pub mod time;
pub mod video;
