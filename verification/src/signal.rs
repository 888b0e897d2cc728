//! The commands that the manager publishes on the command channel.

use crate::text::same_text;
use vstd::prelude::*;

verus! {

/// A command from the manager to the workers.
#[derive(Clone, Copy, Debug, PartialEq, Eq, Structural)]
pub enum Signal {
    /// A run begins: claim a worker index.
    Start,
    /// Adopt the agents that were spawned and drop those that were killed.
    Sync,
    /// Let every agent decide.
    Decide,
    /// Apply the queued updates.
    Update,
    /// The run is over.
    Terminate,
}

impl Signal {
    /// The text of the command on the channel.
    pub open spec fn spec_text(&self) -> Seq<char> {
        match self {
            Signal::Start => "start"@,
            Signal::Sync => "sync"@,
            Signal::Decide => "decide"@,
            Signal::Update => "update"@,
            Signal::Terminate => "terminate"@,
        }
    }

    /// The command that a text on the channel stands for, if it is one.
    pub open spec fn spec_parse(text: Seq<char>) -> Option<Signal> {
        if text == "start"@ {
            Some(Signal::Start)
        } else if text == "sync"@ {
            Some(Signal::Sync)
        } else if text == "decide"@ {
            Some(Signal::Decide)
        } else if text == "update"@ {
            Some(Signal::Update)
        } else if text == "terminate"@ {
            Some(Signal::Terminate)
        } else {
            None
        }
    }

    /// The text of the command on the channel.
    pub fn text(&self) -> (text: &'static str)
        ensures
            text@ == self.spec_text(),
    {
        match self {
            Signal::Start => "start",
            Signal::Sync => "sync",
            Signal::Decide => "decide",
            Signal::Update => "update",
            Signal::Terminate => "terminate",
        }
    }

    /// Reads a text from the channel. A text that is no command gives `None`.
    pub fn parse(text: &str) -> (signal: Option<Signal>)
        ensures
            signal == Signal::spec_parse(text@),
    {
        if same_text(text, "start") {
            Some(Signal::Start)
        } else if same_text(text, "sync") {
            Some(Signal::Sync)
        } else if same_text(text, "decide") {
            Some(Signal::Decide)
        } else if same_text(text, "update") {
            Some(Signal::Update)
        } else if same_text(text, "terminate") {
            Some(Signal::Terminate)
        } else {
            None
        }
    }
}

/// What is written to the channel is read back as the same command.
pub proof fn lemma_signal_round_trip(signal: Signal)
    ensures
        Signal::spec_parse(signal.spec_text()) == Some(signal),
{
    reveal_strlit("start");
    reveal_strlit("sync");
    reveal_strlit("decide");
    reveal_strlit("update");
    reveal_strlit("terminate");
    assert("start"@.len() == 5);
    assert("sync"@.len() == 4);
    assert("decide"@.len() == 6 && "decide"@[0] == 'd');
    assert("update"@.len() == 6 && "update"@[0] == 'u');
}

/// A text is read as a command only if it is that command's text.
pub proof fn lemma_signal_parse_exact(text: Seq<char>, signal: Signal)
    ensures
        Signal::spec_parse(text) == Some(signal) <==> text == signal.spec_text(),
{
    lemma_signal_round_trip(signal);
}

} // verus!
