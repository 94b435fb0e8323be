//! The call across the context boundary: one envelope out, one reply back, and a single
//! retry where the channel itself fails.
//!
//! The channel is not reached from here. A [`Relay`] decides; its caller performs each
//! [`Action::Send`] and reports what came of it as an [`Outcome`].

use vstd::prelude::*;
use crate::error::{Error, ErrorView};
use crate::message::{Message, MessageView};

verus! {

/// Where a call stands.
#[derive(Debug, Clone, Copy, PartialEq, Eq, Structural)]
pub enum Phase {
    /// Nothing was sent yet.
    Idle,
    /// The envelope was sent and its reply is awaited.
    AwaitingReply,
    /// The channel failed once; the envelope was sent again and its reply is awaited.
    RetryingOnce,
    /// A reply came and its payload was handed to the caller.
    Succeeded,
    /// The call ended in a failure.
    Failed,
}

/// What came of one attempt to send the envelope and await its reply.
#[derive(Debug, Clone, PartialEq, Eq)]
pub enum Outcome {
    /// The reply correlated with the attempt.
    Replied(Message),
    /// The channel failed: it was closed, or nobody received.
    TransportFailed { src: String },
    /// Something came back that is no envelope.
    Unreadable { src: String },
}

/// The mathematical content of an [`Outcome`].
pub ghost enum OutcomeView {
    Replied(MessageView),
    TransportFailed { src: Seq<char> },
    Unreadable { src: Seq<char> },
}

impl View for Outcome {
    type V = OutcomeView;

    open spec fn view(&self) -> OutcomeView {
        match self {
            Outcome::Replied(m) => OutcomeView::Replied(m@),
            Outcome::TransportFailed { src } => OutcomeView::TransportFailed { src: src@ },
            Outcome::Unreadable { src } => OutcomeView::Unreadable { src: src@ },
        }
    }
}

/// What the caller of a [`Relay`] has to do next.
#[derive(Debug, Clone, PartialEq, Eq)]
pub enum Action {
    /// Send this envelope, await its reply, and report the outcome.
    Send(Message),
    /// The call succeeded with this payload.
    Return(String),
    /// The call failed.
    Fail(Error),
    /// The call was over already; the outcome is dropped.
    Ignore,
}

/// The mathematical content of an [`Action`].
pub ghost enum ActionView {
    Send(MessageView),
    Return(Seq<char>),
    Fail(ErrorView),
    Ignore,
}

impl View for Action {
    type V = ActionView;

    open spec fn view(&self) -> ActionView {
        match self {
            Action::Send(m) => ActionView::Send(m@),
            Action::Return(payload) => ActionView::Return(payload@),
            Action::Fail(e) => ActionView::Fail(e@),
            Action::Ignore => ActionView::Ignore,
        }
    }
}

impl Phase {
    /// Whether a reply is awaited.
    pub open spec fn awaiting(self) -> bool {
        self == Phase::AwaitingReply || self == Phase::RetryingOnce
    }

    /// Whether the call is over.
    pub open spec fn over(self) -> bool {
        self == Phase::Succeeded || self == Phase::Failed
    }
}

/// The phase that follows when `outcome` is reported in `phase`.
pub open spec fn next_phase(phase: Phase, outcome: OutcomeView) -> Phase {
    if !phase.awaiting() {
        phase
    } else {
        match outcome {
            OutcomeView::Replied(reply) => if reply.is_error() {
                Phase::Failed
            } else {
                Phase::Succeeded
            },
            OutcomeView::TransportFailed { src } => if phase == Phase::AwaitingReply {
                Phase::RetryingOnce
            } else {
                Phase::Failed
            },
            OutcomeView::Unreadable { src } => Phase::Failed,
        }
    }
}

/// What is to be done when `outcome` is reported in `phase`, for a call that sends `envelope`.
pub open spec fn next_action(envelope: MessageView, phase: Phase, outcome: OutcomeView)
    -> ActionView {
    if !phase.awaiting() {
        ActionView::Ignore
    } else {
        match outcome {
            OutcomeView::Replied(reply) => match reply.outcome() {
                Ok(payload) => ActionView::Return(payload),
                Err(e) => ActionView::Fail(e),
            },
            OutcomeView::TransportFailed { src } => if phase == Phase::AwaitingReply {
                ActionView::Send(envelope)
            } else {
                ActionView::Fail(ErrorView::RelayTransport { src })
            },
            OutcomeView::Unreadable { src } => ActionView::Fail(ErrorView::Serialization { src }),
        }
    }
}

/// The phase reached from `phase` when the outcomes are reported one after another.
pub open spec fn phase_after(phase: Phase, outcomes: Seq<OutcomeView>) -> Phase
    decreases outcomes.len(),
{
    if outcomes.len() == 0 {
        phase
    } else {
        next_phase(phase_after(phase, outcomes.drop_last()), outcomes.last())
    }
}

/// How many replies the call took in, from `phase` on, out of the outcomes reported: a reply
/// counts where it arrives while one is awaited.
pub open spec fn replies_taken(phase: Phase, outcomes: Seq<OutcomeView>) -> nat
    decreases outcomes.len(),
{
    if outcomes.len() == 0 {
        0
    } else {
        let before = outcomes.drop_last();
        let taken: nat = if phase_after(phase, before).awaiting() && outcomes.last() is Replied {
            1
        } else {
            0
        };
        replies_taken(phase, before) + taken
    }
}

/// How many times the envelope was sent, the first time included, from `phase` on.
pub open spec fn sends_made(phase: Phase, outcomes: Seq<OutcomeView>) -> nat
    decreases outcomes.len(),
{
    if outcomes.len() == 0 {
        if phase == Phase::Idle {
            0
        } else if phase == Phase::RetryingOnce {
            2
        } else {
            1
        }
    } else {
        let before = outcomes.drop_last();
        let again: nat = if phase_after(phase, before) == Phase::AwaitingReply
            && outcomes.last() is TransportFailed {
            1
        } else {
            0
        };
        sends_made(phase, before) + again
    }
}

/// One call across the boundary.
#[derive(Debug, Clone, PartialEq, Eq)]
pub struct Relay {
    /// The envelope that the call sends.
    pub envelope: Message,
    pub phase: Phase,
}

impl Relay {
    /// A call of `operation` with `payload`, not yet started.
    pub fn new(operation: String, payload: String) -> (relay: Relay)
        ensures
            relay.phase == Phase::Idle,
            relay.envelope@.code == operation@,
            relay.envelope@.value == payload@,
    {
        Relay { envelope: Message::new(operation, payload), phase: Phase::Idle }
    }

    /// Starts the call: the envelope is to be sent. A call that was started before is left
    /// as it is.
    pub fn start(&mut self) -> (action: Action)
        ensures
            final(self).envelope == old(self).envelope,
            old(self).phase == Phase::Idle ==> final(self).phase == Phase::AwaitingReply
                && action@ == ActionView::Send(old(self).envelope@),
            old(self).phase != Phase::Idle ==> final(self).phase == old(self).phase && action@
                == ActionView::Ignore,
    {
        match self.phase {
            Phase::Idle => {
                self.phase = Phase::AwaitingReply;
                Action::Send(self.envelope.duplicate())
            },
            _ => Action::Ignore,
        }
    }

    /// Takes the outcome of the attempt last asked for and says what follows.
    pub fn on_outcome(&mut self, outcome: Outcome) -> (action: Action)
        ensures
            final(self).envelope == old(self).envelope,
            final(self).phase == next_phase(old(self).phase, outcome@),
            action@ == next_action(old(self).envelope@, old(self).phase, outcome@),
    {
        match self.phase {
            Phase::AwaitingReply | Phase::RetryingOnce => {},
            _ => {
                return Action::Ignore;
            },
        }
        match outcome {
            Outcome::Replied(reply) => match reply.into_outcome() {
                Ok(payload) => {
                    self.phase = Phase::Succeeded;
                    Action::Return(payload)
                },
                Err(e) => {
                    self.phase = Phase::Failed;
                    Action::Fail(e)
                },
            },
            Outcome::TransportFailed { src } => match self.phase {
                Phase::AwaitingReply => {
                    self.phase = Phase::RetryingOnce;
                    Action::Send(self.envelope.duplicate())
                },
                _ => {
                    self.phase = Phase::Failed;
                    Action::Fail(Error::RelayTransport { src })
                },
            },
            Outcome::Unreadable { src } => {
                self.phase = Phase::Failed;
                Action::Fail(Error::Serialization { src })
            },
        }
    }
}

/// Once a call is over, nothing that is reported changes it.
pub proof fn lemma_over_is_final(phase: Phase, outcomes: Seq<OutcomeView>)
    requires
        phase.over(),
    ensures
        phase_after(phase, outcomes) == phase,
        replies_taken(phase, outcomes) == 0,
    decreases outcomes.len(),
{
    if outcomes.len() > 0 {
        lemma_over_is_final(phase, outcomes.drop_last());
    }
}

/// A call that was started is awaiting a reply or over, whatever is reported.
pub proof fn lemma_started_stays_started(outcomes: Seq<OutcomeView>)
    ensures
        phase_after(Phase::AwaitingReply, outcomes) != Phase::Idle,
    decreases outcomes.len(),
{
    if outcomes.len() > 0 {
        lemma_started_stays_started(outcomes.drop_last());
    }
}

/// A call takes in at most one reply. It has taken exactly one where it succeeded, and
/// a reply that reports a failure never makes it succeed.
pub proof fn lemma_one_reply_per_call(outcomes: Seq<OutcomeView>)
    ensures
        replies_taken(Phase::AwaitingReply, outcomes) <= 1,
        phase_after(Phase::AwaitingReply, outcomes).awaiting() ==> replies_taken(
            Phase::AwaitingReply,
            outcomes,
        ) == 0,
        phase_after(Phase::AwaitingReply, outcomes) == Phase::Succeeded ==> replies_taken(
            Phase::AwaitingReply,
            outcomes,
        ) == 1,
    decreases outcomes.len(),
{
    if outcomes.len() > 0 {
        lemma_one_reply_per_call(outcomes.drop_last());
        lemma_started_stays_started(outcomes.drop_last());
    }
}

/// The envelope is sent at most twice: once, and once more after the first failure of
/// the channel.
pub proof fn lemma_at_most_one_retry(outcomes: Seq<OutcomeView>)
    ensures
        1 <= sends_made(Phase::AwaitingReply, outcomes) <= 2,
        phase_after(Phase::AwaitingReply, outcomes) == Phase::AwaitingReply ==> sends_made(
            Phase::AwaitingReply,
            outcomes,
        ) == 1,
    decreases outcomes.len(),
{
    if outcomes.len() > 0 {
        lemma_at_most_one_retry(outcomes.drop_last());
    }
}

/// Where the last outcome taken in is a reply, the call succeeds exactly if the reply
/// reports no failure, and then with the reply's payload.
pub proof fn lemma_reply_decides(envelope: MessageView, phase: Phase, reply: MessageView)
    requires
        phase.awaiting(),
    ensures
        next_phase(phase, OutcomeView::Replied(reply)) == Phase::Succeeded <==> !reply.is_error(),
        !reply.is_error() ==> next_action(envelope, phase, OutcomeView::Replied(reply))
            == ActionView::Return(reply.value),
        reply.is_error() ==> next_action(envelope, phase, OutcomeView::Replied(reply))
            == ActionView::Fail(ErrorView::RelayApplication { message: reply.value }),
{
}

/// A failure of the channel followed by a reply on the retry is a success; two failures
/// of the channel in a row end the call with the second failure.
pub proof fn lemma_retry_once(envelope: MessageView, first: Seq<char>, second: OutcomeView)
    ensures
        next_phase(Phase::AwaitingReply, OutcomeView::TransportFailed { src: first })
            == Phase::RetryingOnce,
        next_action(envelope, Phase::AwaitingReply, OutcomeView::TransportFailed { src: first })
            == ActionView::Send(envelope),
        second matches OutcomeView::Replied(reply) ==> (!reply.is_error() ==> {
            &&& next_phase(Phase::RetryingOnce, second) == Phase::Succeeded
            &&& next_action(envelope, Phase::RetryingOnce, second) == ActionView::Return(
                reply.value,
            )
        }),
        second matches OutcomeView::TransportFailed { src } ==> {
            &&& next_phase(Phase::RetryingOnce, second) == Phase::Failed
            &&& next_action(envelope, Phase::RetryingOnce, second) == ActionView::Fail(
                ErrorView::RelayTransport { src },
            )
        },
{
}

} // verus!
