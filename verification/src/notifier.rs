//! Where notifications go.

use vstd::prelude::*;

verus! {

/// The destination of a Slack notifier.
#[derive(Debug)]
pub struct SlackConfig {
    pub webhook_url: String,
    pub channel: String,
}

/// A destination for notifications. Each kind has its own wording.
#[derive(Debug)]
pub enum Notifier {
    /// Lines of text for a log.
    Log(),
    /// Messages for a Slack channel.
    Slack(SlackConfig),
    /// Reserved; it has no wording yet, and asking for one is an error.
    Telegram,
}

/// A kind of notifier, without its configuration.
#[derive(Clone, Copy, Debug, PartialEq, Eq, Structural)]
pub enum NotifierKind {
    Log,
    Slack,
    Telegram,
}

impl Notifier {
    /// The kind of the notifier.
    pub open spec fn spec_kind(&self) -> NotifierKind {
        match self {
            Notifier::Log() => NotifierKind::Log,
            Notifier::Slack(_) => NotifierKind::Slack,
            Notifier::Telegram => NotifierKind::Telegram,
        }
    }

    /// The kind of the notifier.
    #[verifier::when_used_as_spec(spec_kind)]
    pub fn kind(&self) -> (r: NotifierKind)
        ensures
            r == self.spec_kind(),
    {
        match self {
            Notifier::Log() => NotifierKind::Log,
            Notifier::Slack(_) => NotifierKind::Slack,
            Notifier::Telegram => NotifierKind::Telegram,
        }
    }
}

} // verus!
