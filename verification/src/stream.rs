//! The life of a streaming connection: `Disconnected -> Connecting ->
//! Connected -> Disconnected`, with a fixed delay before every new attempt.
//!
//! The link decides; the task that owns the connection performs what it
//! names and reports what came of it.

use vstd::prelude::*;

verus! {

/// Seconds to wait before connecting again.
pub const RETRY_DELAY_SECS: u64 = 5;

/// Where a link stands.
#[derive(Debug, Clone, Copy, PartialEq, Eq, Structural)]
pub enum LinkPhase {
    Disconnected,
    Connecting,
    Connected,
    /// The task is over: nobody listens any more.
    Stopped,
}

/// A streaming connection and whether its loss is announced to the event
/// loop by a notice of its own.
#[derive(Debug, Clone, Copy, PartialEq, Eq, Structural)]
pub struct Link {
    pub phase: LinkPhase,
    pub announces: bool,
}

/// What happened on the connection.
#[derive(Debug, Clone, Copy, PartialEq, Eq, Structural)]
pub enum LinkInput {
    /// The connection was made.
    Opened,
    /// The connection could not be made.
    ConnectFailed,
    /// A message came in and was dealt with.
    Message,
    /// A command went out.
    Sent,
    /// The peer closed the connection.
    PeerClosed,
    /// Reading failed.
    ReadFailed,
    /// The stream of messages ended.
    StreamEnded,
    /// A command could not be sent.
    SendFailed,
    /// The notice of the loss was handed to the event loop.
    Announced,
    /// The delay is over.
    Slept,
    /// The event loop no longer takes what the task delivers.
    ReceiverDropped,
    /// The event loop no longer gives commands.
    CommandsClosed,
}

/// What the task is to do next.
#[derive(Debug, Clone, Copy, PartialEq, Eq, Structural)]
pub enum LinkOutput {
    /// Open the connection.
    Connect,
    /// Wait for the next message or command.
    Listen,
    /// Hand the notice of the loss to the event loop.
    Announce,
    /// Wait for so many seconds.
    Sleep { seconds: u64 },
    /// End the task.
    Stop,
}

/// Whether an input means that the connection is lost.
pub open spec fn is_loss(input: LinkInput) -> bool {
    input == LinkInput::PeerClosed || input == LinkInput::ReadFailed || input
        == LinkInput::StreamEnded || input == LinkInput::SendFailed
}

/// Whether an input means that nobody listens any more.
pub open spec fn is_final(input: LinkInput) -> bool {
    input == LinkInput::ReceiverDropped || input == LinkInput::CommandsClosed
}

/// What a link does on an input. Once stopped it stays stopped, and it
/// stops when nobody listens any more. A connection that is made is
/// listened on. One that is lost, or fails to be made, is made again after
/// the delay; the loss of a made connection is announced first where the
/// link announces. An input that the link does not wait for counts as a
/// loss.
pub open spec fn link_step(link: Link, input: LinkInput) -> (Link, LinkOutput) {
    let to = |phase: LinkPhase| Link { phase, ..link };
    let retry = (to(LinkPhase::Disconnected), LinkOutput::Sleep { seconds: RETRY_DELAY_SECS });
    if link.phase == LinkPhase::Stopped || is_final(input) {
        (to(LinkPhase::Stopped), LinkOutput::Stop)
    } else {
        match (link.phase, input) {
            (LinkPhase::Connecting, LinkInput::Opened) => (
                to(LinkPhase::Connected),
                LinkOutput::Listen,
            ),
            (LinkPhase::Connected, LinkInput::Message) | (LinkPhase::Connected, LinkInput::Sent) => (
                to(LinkPhase::Connected),
                LinkOutput::Listen,
            ),
            (LinkPhase::Connected, _) => if link.announces {
                (to(LinkPhase::Disconnected), LinkOutput::Announce)
            } else {
                retry
            },
            (LinkPhase::Disconnected, LinkInput::Slept) => (
                to(LinkPhase::Connecting),
                LinkOutput::Connect,
            ),
            _ => retry,
        }
    }
}

impl Link {
    /// A link about to be made for the first time.
    pub fn start(announces: bool) -> (r: (Link, LinkOutput))
        ensures
            r.0 == (Link { phase: LinkPhase::Connecting, announces }),
            r.1 == LinkOutput::Connect,
    {
        (Link { phase: LinkPhase::Connecting, announces }, LinkOutput::Connect)
    }

    /// Takes what happened on the connection and names what to do next.
    pub fn step(self, input: LinkInput) -> (r: (Link, LinkOutput))
        ensures
            r == link_step(self, input),
    {
        let retry = (
            Link { phase: LinkPhase::Disconnected, announces: self.announces },
            LinkOutput::Sleep { seconds: RETRY_DELAY_SECS },
        );
        let stopping = match input {
            LinkInput::ReceiverDropped => true,
            LinkInput::CommandsClosed => true,
            _ => false,
        };
        if stopping {
            return (Link { phase: LinkPhase::Stopped, announces: self.announces }, LinkOutput::Stop);
        }
        match (self.phase, input) {
            (LinkPhase::Stopped, _) => (
                Link { phase: LinkPhase::Stopped, announces: self.announces },
                LinkOutput::Stop,
            ),
            (LinkPhase::Connecting, LinkInput::Opened) => (
                Link { phase: LinkPhase::Connected, announces: self.announces },
                LinkOutput::Listen,
            ),
            (LinkPhase::Connected, LinkInput::Message) | (LinkPhase::Connected, LinkInput::Sent) => (
                Link { phase: LinkPhase::Connected, announces: self.announces },
                LinkOutput::Listen,
            ),
            (LinkPhase::Connected, _) => {
                if self.announces {
                    (
                        Link { phase: LinkPhase::Disconnected, announces: self.announces },
                        LinkOutput::Announce,
                    )
                } else {
                    retry
                }
            },
            (LinkPhase::Disconnected, LinkInput::Slept) => (
                Link { phase: LinkPhase::Connecting, announces: self.announces },
                LinkOutput::Connect,
            ),
            _ => retry,
        }
    }
}

/// A lost connection is made again: after the loss of a made connection the
/// link announces it (where it announces), waits for the fixed delay, and
/// connects.
pub proof fn lemma_link_reconnects(link: Link, loss: LinkInput)
    requires
        link.phase == LinkPhase::Connected,
        is_loss(loss),
    ensures
        ({
            let (lost, first) = link_step(link, loss);
            let (waiting, second) = if link.announces {
                link_step(lost, LinkInput::Announced)
            } else {
                (lost, first)
            };
            let (again, third) = link_step(waiting, LinkInput::Slept);
            &&& lost.phase == LinkPhase::Disconnected
            &&& link.announces ==> first == LinkOutput::Announce
            &&& second == LinkOutput::Sleep { seconds: RETRY_DELAY_SECS }
            &&& again.phase == LinkPhase::Connecting
            &&& third == LinkOutput::Connect
        }),
{
}

/// A connection that cannot be made is tried again after the fixed delay,
/// without a notice.
pub proof fn lemma_link_retries(link: Link)
    requires
        link.phase == LinkPhase::Connecting,
    ensures
        ({
            let (waiting, first) = link_step(link, LinkInput::ConnectFailed);
            let (again, second) = link_step(waiting, LinkInput::Slept);
            &&& first == LinkOutput::Sleep { seconds: RETRY_DELAY_SECS }
            &&& again.phase == LinkPhase::Connecting
            &&& second == LinkOutput::Connect
        }),
{
}

/// A link stops only when nobody listens any more, and then for good; it
/// connects only after the delay, and never changes whether it announces.
pub proof fn lemma_link_stops(link: Link, input: LinkInput)
    ensures
        ({
            let (next, output) = link_step(link, input);
            &&& next.announces == link.announces
            &&& (output == LinkOutput::Stop <==> next.phase == LinkPhase::Stopped)
            &&& (next.phase == LinkPhase::Stopped <==> link.phase == LinkPhase::Stopped
                || is_final(input))
            &&& (output == LinkOutput::Connect ==> link.phase == LinkPhase::Disconnected && input
                == LinkInput::Slept)
            &&& (output == LinkOutput::Announce ==> link.announces && link.phase
                == LinkPhase::Connected)
        }),
{
}

} // verus!
