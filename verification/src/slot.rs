//! The place of the one live subscriber of a broadcast channel, and the
//! protocol by which a newer subscriber takes it over.

use vstd::prelude::*;
use tokio::sync::watch;
use crate::channel::{payload_channel, payload_value, send_payload};
use crate::text::{chars_of, string_of};
use crate::wire::{empty_snapshot, replaced_notice};

verus! {

/// A subscriber that has lost its place to a newer one.
pub struct Displaced {
    /// The sending end of the channel towards the displaced subscriber.
    pub sender: watch::Sender<String>,
    /// Whether the subscriber was still there to be told.
    pub notified: bool,
}

/// What a new subscriber gets: the receiving end of its channel, and the
/// subscriber that it has displaced, if there was one.
pub struct Subscription {
    pub receiver: watch::Receiver<String>,
    pub displaced: Option<Displaced>,
}

impl Subscription {
    /// Whether this subscription is the first on its slot, so that the
    /// pump of the slot has to be started for it.
    pub open spec fn spec_starts_pump(&self) -> bool {
        self.displaced is None
    }

    /// Whether this subscription is the first on its slot, so that the
    /// pump of the slot has to be started for it.
    #[verifier::when_used_as_spec(spec_starts_pump)]
    pub fn starts_pump(&self) -> (first: bool)
        ensures
            first == self.spec_starts_pump(),
    {
        self.displaced.is_none()
    }
}

/// How an attempt to publish a payload ended.
#[derive(Clone, Copy, Debug, PartialEq, Eq, Structural)]
pub enum PushOutcome {
    /// The slot has no subscriber.
    Vacant,
    /// The subscriber has gone away; the payload was dropped.
    NoReceiver,
    /// The subscriber now sees the payload.
    Delivered,
}

/// The place of the one live subscriber of a broadcast channel.
pub struct BroadcastSlot {
    current: Option<watch::Sender<String>>,
}

impl BroadcastSlot {
    /// Whether a subscriber holds the slot.
    pub closed spec fn occupied(&self) -> bool {
        self.current is Some
    }

    /// The payload that the subscriber of an occupied slot currently sees.
    pub closed spec fn showing(&self) -> Seq<char> {
        payload_value(self.current->0)
    }

    /// The number of pumps that the caller is to have started for this
    /// slot: none while it is vacant, one once a subscriber has come, since
    /// only the first subscription asks for one.
    pub open spec fn pumps(&self) -> nat {
        if self.occupied() {
            1
        } else {
            0
        }
    }

    /// A slot without a subscriber.
    pub fn new() -> (slot: Self)
        ensures
            !slot.occupied(),
    {
        BroadcastSlot { current: None }
    }

    /// Whether a subscriber holds the slot.
    pub fn is_occupied(&self) -> (b: bool)
        ensures
            b == self.occupied(),
    {
        self.current.is_some()
    }

    /// Installs a new subscriber. A subscriber that held the slot is told
    /// that it has been replaced, before the new one is installed, and is
    /// handed back; the new subscriber has been shown nothing but the empty
    /// snapshot when this returns. The pump has to be started exactly when
    /// the slot was vacant.
    pub fn subscribe(&mut self) -> (subscription: Subscription)
        ensures
            final(self).occupied(),
            final(self).showing() == empty_snapshot(),
            subscription.spec_starts_pump() == !old(self).occupied(),
            subscription.displaced matches Some(displaced) ==> payload_value(displaced.sender)
                == if displaced.notified {
                replaced_notice()
            } else {
                old(self).showing()
            },
    {
        let (sender, receiver) = payload_channel(string_of(&chars_of("[]")));
        let displaced = match self.current.take() {
            Some(mut previous) => {
                let notice = string_of(&chars_of("CONNECTION_REPLACED"));
                let notified = send_payload(&mut previous, notice);
                Some(Displaced { sender: previous, notified })
            },
            None => None,
        };
        self.current = Some(sender);
        Subscription { receiver, displaced }
    }

    /// Publishes a payload to the subscriber of the slot. A payload that
    /// nobody is there to see is dropped.
    pub fn push(&mut self, payload: String) -> (outcome: PushOutcome)
        ensures
            final(self).occupied() == old(self).occupied(),
            match outcome {
                PushOutcome::Vacant => !old(self).occupied(),
                PushOutcome::NoReceiver => old(self).occupied() && final(self).showing() == old(
                    self,
                ).showing(),
                PushOutcome::Delivered => old(self).occupied() && final(self).showing()
                    == payload@,
            },
    {
        match &mut self.current {
            None => PushOutcome::Vacant,
            Some(sender) => {
                if send_payload(sender, payload) {
                    PushOutcome::Delivered
                } else {
                    PushOutcome::NoReceiver
                }
            },
        }
    }
}

/// The number of pumps that are started in the course of `subscriptions`
/// calls of [`BroadcastSlot::subscribe`] on a slot: a call starts one
/// exactly when it finds the slot vacant, and leaves the slot occupied.
pub open spec fn pumps_started(occupied: bool, subscriptions: nat) -> nat
    decreases subscriptions,
{
    if subscriptions == 0 {
        0
    } else if occupied {
        pumps_started(true, (subscriptions - 1) as nat)
    } else {
        1 + pumps_started(true, (subscriptions - 1) as nat)
    }
}

/// However many subscribers replace one another on a slot, no pump is
/// started for a slot that was occupied, and exactly one for a slot that
/// was vacant when the first of them came.
pub proof fn lemma_one_pump(occupied: bool, subscriptions: nat)
    ensures
        pumps_started(occupied, subscriptions) == if occupied || subscriptions == 0 {
            0nat
        } else {
            1nat
        },
    decreases subscriptions,
{
    if subscriptions > 0 {
        lemma_one_pump(true, (subscriptions - 1) as nat);
    }
}

} // verus!
