//! What can go wrong in a run. No failure ends the run: each is reported for the
//! channel or the notifier it belongs to, and the run goes on with the others.

use vstd::prelude::*;

verus! {

/// A feed could not be turned into videos.
#[derive(Clone, Copy, Debug, PartialEq, Eq, Structural)]
pub enum ParseError {
    /// The document is not a feed of the expected shape, or one of its entries
    /// lacks a title, a link or a readable time of publication.
    Malformed,
}

/// A feed could not be fetched. The caller who fetches makes these.
#[derive(Clone, Copy, Debug, PartialEq, Eq, Structural)]
pub enum FetchError {
    Network,
    Timeout,
}

/// A video could not be worded for a notifier.
#[derive(Clone, Copy, Debug, PartialEq, Eq, Structural)]
pub enum FormatError {
    /// The notifier is of a kind that has no wording yet.
    Unsupported,
}

/// Why a channel contributed no videos to a run.
#[derive(Clone, Copy, Debug, PartialEq, Eq, Structural)]
pub enum ChannelError {
    Fetch(FetchError),
    Parse(ParseError),
}

} // verus!
