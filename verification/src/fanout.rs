//! Best-effort delivery of one event to every member of a room.

use crate::payload::ServerPayload;
use vstd::prelude::*;

verus! {

/// The mathematical model of a fan-out: the event, those who are to get it,
/// and how each delivery that was attempted so far went.
pub struct FanOutView {
    pub event: ServerPayload,
    pub recipients: Seq<u128>,
    pub outcomes: Seq<bool>,
}

impl FanOutView {
    /// The recipient whose delivery is to be attempted next, if any is left.
    pub open spec fn pending(self) -> Option<u128> {
        if self.outcomes.len() < self.recipients.len() {
            Some(self.recipients[self.outcomes.len() as int])
        } else {
            None
        }
    }

    /// The fan-out after the pending delivery went as `delivered` says.
    /// Without a pending delivery nothing changes.
    pub open spec fn recorded(self, delivered: bool) -> FanOutView {
        if self.outcomes.len() < self.recipients.len() {
            FanOutView { outcomes: self.outcomes.push(delivered), ..self }
        } else {
            self
        }
    }

    /// The fan-out after the next deliveries went as `outcomes` says, one
    /// after the other.
    pub open spec fn recorded_all(self, outcomes: Seq<bool>) -> FanOutView
        decreases outcomes.len(),
    {
        if outcomes.len() == 0 {
            self
        } else {
            self.recorded_all(outcomes.drop_last()).recorded(outcomes.last())
        }
    }

    /// The recipients among the first `n` whose delivery failed, in the
    /// order of the attempts.
    pub open spec fn failed_among(self, n: nat) -> Seq<u128>
        decreases n,
    {
        if n == 0 || n > self.outcomes.len() || n > self.recipients.len() {
            Seq::empty()
        } else {
            let before = self.failed_among((n - 1) as nat);
            if self.outcomes[n - 1] {
                before
            } else {
                before.push(self.recipients[n - 1])
            }
        }
    }

    /// The recipients whose delivery failed so far.
    pub open spec fn failed(self) -> Seq<u128> {
        self.failed_among(self.outcomes.len())
    }
}

/// One event on its way to the members of a room. Each member is tried
/// once, in turn; a failed delivery is noted and the next member is tried.
pub struct FanOut {
    event: ServerPayload,
    recipients: Vec<u128>,
    outcomes: Vec<bool>,
}

impl View for FanOut {
    type V = FanOutView;

    closed spec fn view(&self) -> FanOutView {
        FanOutView { event: self.event, recipients: self.recipients@, outcomes: self.outcomes@ }
    }
}

impl FanOut {
    /// The invariant of a fan-out: no more deliveries were attempted than
    /// there are recipients.
    pub open spec fn wf(&self) -> bool {
        self@.outcomes.len() <= self@.recipients.len()
    }

    /// A fan-out of `event` to `recipients` of which no delivery was
    /// attempted yet.
    pub fn new(event: ServerPayload, recipients: Vec<u128>) -> (fan_out: FanOut)
        ensures
            fan_out@ == (FanOutView { event, recipients: recipients@, outcomes: Seq::empty() }),
            fan_out.wf(),
    {
        FanOut { event, recipients, outcomes: Vec::new() }
    }

    /// The event that is delivered.
    pub fn event(&self) -> (event: &ServerPayload)
        ensures
            *event == self@.event,
    {
        &self.event
    }

    /// Those who are to get the event.
    pub fn recipients(&self) -> (recipients: &Vec<u128>)
        ensures
            recipients@ == self@.recipients,
    {
        &self.recipients
    }

    /// The recipient whose delivery is to be attempted next, if any is left.
    pub fn pending(&self) -> (next: Option<u128>)
        ensures
            next == self@.pending(),
    {
        let attempted: usize = self.outcomes.len();
        if attempted < self.recipients.len() {
            Some(self.recipients[attempted])
        } else {
            None
        }
    }

    /// Notes how the pending delivery went and moves on to the next
    /// recipient, whether it succeeded or not.
    pub fn record(&mut self, delivered: bool)
        ensures
            final(self)@ == old(self)@.recorded(delivered),
            old(self).wf() ==> final(self).wf(),
    {
        if self.outcomes.len() < self.recipients.len() {
            self.outcomes.push(delivered);
        }
    }

    /// The recipients whose delivery failed so far, in the order of the
    /// attempts.
    pub fn failed(&self) -> (failed: Vec<u128>)
        ensures
            failed@ == self@.failed(),
    {
        let mut failed: Vec<u128> = Vec::new();
        if self.outcomes.len() > self.recipients.len() {
            return failed;
        }
        let mut i: usize = 0;
        while i < self.outcomes.len()
            invariant
                i <= self.outcomes.len() <= self.recipients.len(),
                failed@ == self@.failed_among(i as nat),
            decreases self.outcomes.len() - i,
        {
            if !self.outcomes[i] {
                failed.push(self.recipients[i]);
            }
            i = i + 1;
        }
        failed
    }
}

/// Whether a delivery succeeds or fails, the fan-out goes on with the same
/// next recipient: a failure stops nothing.
pub proof fn lemma_failure_does_not_stop_fan_out(fan_out: FanOutView)
    ensures
        fan_out.recorded(false).pending() == fan_out.recorded(true).pending(),
        fan_out.recorded(false).recipients == fan_out.recipients,
        fan_out.recorded(false).event == fan_out.event,
{
}

/// Once as many outcomes were recorded as there are recipients, whatever
/// the outcomes were, every recipient had its one attempt and none is left.
pub proof fn lemma_every_recipient_is_tried_once(fan_out: FanOutView, outcomes: Seq<bool>)
    requires
        fan_out.outcomes.len() == 0,
        outcomes.len() <= fan_out.recipients.len(),
    ensures
        fan_out.recorded_all(outcomes).recipients == fan_out.recipients,
        fan_out.recorded_all(outcomes).event == fan_out.event,
        fan_out.recorded_all(outcomes).outcomes == outcomes,
        fan_out.recorded_all(outcomes).pending() == (if outcomes.len() < fan_out.recipients.len() {
            Some(fan_out.recipients[outcomes.len() as int])
        } else {
            None
        }),
    decreases outcomes.len(),
{
    if outcomes.len() > 0 {
        lemma_every_recipient_is_tried_once(fan_out, outcomes.drop_last());
        assert(outcomes.drop_last().push(outcomes.last()) =~= outcomes);
    }
}

} // verus!
