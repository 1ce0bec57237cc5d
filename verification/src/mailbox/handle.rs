//! Handles to a mailbox: the senders' and the incarnation's own.

use crate::identity::{ChildId, Incarnation, Membership};
use crate::mailbox::call::CallFuture;
use crate::mailbox::cell::MailboxCell;
use crate::mailbox::effects::MailboxEffects;
use crate::mailbox::futures::{SendFuture, SendFutureState, SendTimeout};
use crate::mailbox::model::{no_effects, EffectsModel};
use crate::mailbox::reply::{OneShot, Reply, ReplyReceiver};
use crate::mailbox::state::{AcceptedSequence, Phase, ReceiveMode};
use crate::mailbox::{SendError, SendErrorKind};
use crate::time::{DeadlineBudget, Duration};
use std::marker::PhantomData;
use vstd::prelude::*;
use vstd::std_specs::cmp::PartialEqSpecImpl;

verus! {

/// A child slot: its name, and the membership it currently stands for.
#[derive(Debug)]
pub struct MemberCell {
    /// Tells this slot from any other.
    pub slot: u64,
    /// The child's name.
    pub id: ChildId,
    /// The membership.
    pub membership: Membership,
}

impl MemberCell {
    /// A slot for child `id`.
    pub fn new(slot: u64, id: ChildId, membership: Membership) -> (cell: MemberCell)
        ensures
            cell == (MemberCell { slot, id, membership }),
    {
        MemberCell { slot, id, membership }
    }

    /// Takes on the membership that lowering adopted for this slot.
    pub fn rebase(&mut self, membership: Membership)
        ensures
            *final(self) == (MemberCell { membership, ..*old(self) }),
    {
        self.membership = membership;
    }
}

/// A cheap membership-addressed actor handle.
#[derive(Debug)]
pub struct ActorRef<M> {
    /// The addressed slot.
    pub slot: u64,
    /// The actor's child id.
    pub id: ChildId,
    /// Stands for the messages it sends.
    pub marker: PhantomData<M>,
}

impl<M> ActorRef<M> {
    /// A handle to `member`.
    pub fn new(member: &MemberCell) -> (actor: ActorRef<M>)
        ensures
            actor.slot == member.slot,
            actor.id@ == member.id@,
    {
        ActorRef { slot: member.slot, id: member.id.clone(), marker: PhantomData }
    }

    /// The actor's child id.
    #[must_use]
    pub fn id(&self) -> (id: &ChildId)
        ensures
            *id == self.id,
    {
        &self.id
    }

    /// The actor's membership, which its slot holds: lowering may move it
    /// behind live handles.
    #[must_use]
    pub fn membership(&self, member: &MemberCell) -> (membership: Membership)
        requires
            member.slot == self.slot,
        ensures
            membership == member.membership,
    {
        member.membership
    }

    /// Sends with backpressure and waits through rebind windows.
    pub fn send(&self, message: M) -> (send: SendFuture<M>)
        ensures
            send.state == SendFutureState::Immediate(message),
    {
        SendFuture::new(message)
    }

    /// Attempts immediate acceptance without parking.
    pub fn try_send(&self, mailbox: &mut MailboxCell<M>, message: M) -> (outcome: (
        Result<Incarnation, SendError<M>>,
        MailboxEffects<M>,
    ))
        requires
            old(mailbox)@.wf(),
            old(mailbox)@.serial == self.slot,
            old(mailbox)@.accepted < u64::MAX,
        ensures
            final(mailbox)@.wf(),
            outcome.0 is Ok <==> (old(mailbox)@.phase matches Phase::Bound(binding) && old(
                mailbox,
            )@.accepts_now(binding.kind)),
            outcome.0 matches Ok(incarnation) ==> {
                let binding = old(mailbox)@.phase->Bound_0;
                &&& incarnation == binding.incarnation
                &&& final(mailbox)@ == old(mailbox)@.pushed(binding.kind, message)
                &&& outcome.1@ == old(mailbox)@.acceptance_effects(binding.kind)
            },
            outcome.0 matches Err(error) ==> {
                &&& final(mailbox)@ == old(mailbox)@
                &&& outcome.1@ == no_effects::<M>()
                &&& error.actor_id@ == old(mailbox)@.actor
                &&& error.message == message
                &&& match old(mailbox)@.phase {
                    Phase::Terminal(final_incarnation) => error.kind == SendErrorKind::Terminated
                        && error.incarnation_observed == final_incarnation,
                    Phase::Unbound => error.kind == SendErrorKind::NotRunning
                        && error.incarnation_observed is None,
                    Phase::Frozen(binding) => error.kind == SendErrorKind::NotRunning
                        && error.incarnation_observed == Some(binding.incarnation),
                    Phase::Bound(binding) => error.kind == SendErrorKind::Full
                        && error.incarnation_observed == Some(binding.incarnation),
                }
            },
    {
        mailbox.try_send(message)
    }

    /// Sends within one acceptance budget, recovering an unaccepted message.
    pub fn send_timeout(&self, message: M, deadline: Duration) -> (send: SendTimeout<M>)
        ensures
            send.deadlined.wf(),
            !send.deadlined.started,
            send.deadlined.phase is InitialAttempt,
            send.deadlined.budget_width.width == deadline,
            send.deadlined.operation.send.state == SendFutureState::Immediate(message),
    {
        SendTimeout::new(message, DeadlineBudget::new(deadline))
    }

    /// Sends a request built around one reply capability and awaits its reply.
    /// One deadline covers building, acceptance and response; it starts when
    /// the call is first polled.
    pub fn call<T>(&self, deadline: Duration) -> (call: CallFuture<M, T>)
        ensures
            call.deadlined.wf(),
            !call.deadlined.started,
            call.deadlined.phase is InitialAttempt,
            call.deadlined.budget_width.width == deadline,
            call.deadlined.operation.stage is Unstarted,
    {
        CallFuture::new(DeadlineBudget::new(deadline))
    }

    /// A reply capability to put into a message, the receiver that awaits it,
    /// and the channel between them.
    pub fn reply_channel<T>(&self) -> (made: (Reply<T>, ReplyReceiver<T>, OneShot<T>))
        ensures
            made.2 == OneShot::<T>::fresh(),
    {
        Reply::channel()
    }
}

/// Handles are equal where they address the same slot, so that one made before
/// lowering stays equal to itself.
impl<M> PartialEq for ActorRef<M> {
    fn eq(&self, other: &ActorRef<M>) -> (equal: bool) {
        self.slot == other.slot
    }
}

impl<M> PartialEqSpecImpl for ActorRef<M> {
    open spec fn obeys_eq_spec() -> bool {
        true
    }

    open spec fn eq_spec(&self, other: &ActorRef<M>) -> bool {
        self.slot == other.slot
    }
}

impl<M> Eq for ActorRef<M> {

}

impl<M> Clone for ActorRef<M> {
    fn clone(&self) -> (copy: ActorRef<M>)
        ensures
            copy.slot == self.slot,
            copy.id@ == self.id@,
    {
        ActorRef { slot: self.slot, id: self.id.clone(), marker: PhantomData }
    }
}

/// One incarnation's side of a mailbox.
#[derive(Clone, Copy, Debug, PartialEq, Eq, Structural)]
pub struct MailboxReceiver {
    /// The receiving incarnation.
    pub incarnation: Incarnation,
}

impl MailboxReceiver {
    /// The receiving side of `incarnation`.
    pub fn new(incarnation: Incarnation) -> (receiver: MailboxReceiver)
        ensures
            receiver.incarnation == incarnation,
    {
        MailboxReceiver { incarnation }
    }

    /// Receives the oldest accepted message, also from a frozen mailbox.
    pub fn try_recv<M>(&self, mailbox: &mut MailboxCell<M>) -> (outcome: (
        Option<M>,
        MailboxEffects<M>,
    ))
        requires
            old(mailbox)@.wf(),
            old(mailbox)@.accepted < u64::MAX,
        ensures
            final(mailbox)@.wf(),
            final(mailbox)@ == old(mailbox)@.after_receive(self.incarnation, ReceiveMode::Drain),
            outcome.0 == match old(mailbox)@.received(self.incarnation, ReceiveMode::Drain) {
                Some(envelope) => Some(envelope.message),
                None => None,
            },
            outcome.1@ == old(mailbox)@.receive_effects(self.incarnation, ReceiveMode::Drain),
    {
        mailbox.receive(self.incarnation, ReceiveMode::Drain)
    }

    /// Receives the oldest accepted message of a live mailbox, up to a cut.
    pub fn try_recv_live_through<M>(
        &self,
        mailbox: &mut MailboxCell<M>,
        accepted_sequence: AcceptedSequence,
    ) -> (outcome: (Option<M>, MailboxEffects<M>))
        requires
            old(mailbox)@.wf(),
            old(mailbox)@.accepted < u64::MAX,
        ensures
            final(mailbox)@.wf(),
            ({
                let mode = ReceiveMode::LiveThrough(accepted_sequence);
                &&& final(mailbox)@ == old(mailbox)@.after_receive(self.incarnation, mode)
                &&& outcome.0 == match old(mailbox)@.received(self.incarnation, mode) {
                    Some(envelope) => Some(envelope.message),
                    None => None,
                }
                &&& outcome.1@ == old(mailbox)@.receive_effects(self.incarnation, mode)
            }),
    {
        mailbox.receive(self.incarnation, ReceiveMode::LiveThrough(accepted_sequence))
    }

    /// The newest position in the acceptance order.
    pub fn accepted_sequence<M>(&self, mailbox: &MailboxCell<M>) -> (sequence: AcceptedSequence)
        ensures
            sequence.0 == mailbox@.accepted,
    {
        mailbox.accepted_sequence()
    }

    /// Stops acceptance; what was accepted can still be drained.
    pub fn freeze<M>(&self, mailbox: &mut MailboxCell<M>) -> (effects: MailboxEffects<M>)
        requires
            old(mailbox)@.wf(),
        ensures
            final(mailbox)@.wf(),
            final(mailbox)@ == old(mailbox)@.frozen(self.incarnation),
            effects@ == (EffectsModel::<M> {
                pulse: old(mailbox)@.frozen(self.incarnation) != old(mailbox)@,
                ..no_effects()
            }),
    {
        mailbox.freeze(self.incarnation)
    }
}

} // verus!
