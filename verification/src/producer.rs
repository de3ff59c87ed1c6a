//! The at-least-once publish protocol.
//!
//! Messages go out strictly in order, one in flight at a time, each awaited
//! for its delivery confirmation before the next send.  The first delivery
//! failure stops the batch: everything before it is already durably
//! published, nothing from it onward is attempted.  [`Publisher`] is the
//! protocol's state; the loop that performs the sends and awaits the broker
//! drives it through [`Publisher::next_index`] and
//! [`Publisher::record_delivery`], whose contracts step exactly as
//! [`publish_state`] says.

use vstd::prelude::*;

verus! {

/// The state of one publish call over a batch of `total` messages: how many
/// are confirmed delivered, and whether a delivery has failed.
pub struct Publisher {
    /// Number of messages in the batch.
    pub total: usize,
    /// Number of confirmed deliveries; the next message to send.
    pub sent: usize,
    /// A delivery failed: the rest of the batch is abandoned.
    pub failed: bool,
}

impl Publisher {
    /// A publish call that has sent nothing yet.
    pub fn new(total: usize) -> (p: Publisher)
        ensures
            p.total == total,
            p.sent == 0,
            !p.failed,
    {
        Publisher { total, sent: 0, failed: false }
    }

    /// The index of the next message to hand to the broker: always the first
    /// unsent one, so the batch goes out in order; `None` once the batch is
    /// done or a delivery has failed.
    pub fn next_index(&self) -> (r: Option<usize>)
        ensures
            r == (if !self.failed && self.sent < self.total {
                Some(self.sent)
            } else {
                None::<usize>
            }),
    {
        if !self.failed && self.sent < self.total {
            Some(self.sent)
        } else {
            None
        }
    }

    /// Takes the broker's confirmation for the in-flight message: a delivery
    /// confirms one more message, a failure abandons the rest of the batch
    /// and keeps the count of confirmed messages as it stands.
    pub fn record_delivery(&mut self, delivered: bool)
        requires
            !old(self).failed,
            old(self).sent < old(self).total,
        ensures
            final (self).total == old(self).total,
            delivered ==> final (self).sent == old(self).sent + 1 && !final (self).failed,
            !delivered ==> final (self).sent == old(self).sent && final (self).failed,
    {
        if delivered {
            self.sent = self.sent + 1;
        } else {
            self.failed = true;
        }
    }

    /// The whole batch is confirmed delivered.
    pub fn succeeded(&self) -> (r: bool)
        ensures
            r == (!self.failed && self.sent == self.total),
    {
        !self.failed && self.sent == self.total
    }

    /// A delivery failed and the batch was abandoned there.
    pub fn has_failed(&self) -> (r: bool)
        ensures
            r == self.failed,
    {
        self.failed
    }
}

/// The state — confirmed deliveries, and whether one failed — after a
/// publish call over `total` messages has consumed the given delivery
/// outcomes, one outcome per send, in order.  Once the batch is done or a
/// delivery has failed no send is issued, so later outcomes change nothing.
pub open spec fn publish_state(total: nat, outcomes: Seq<bool>) -> (nat, bool)
    decreases outcomes.len(),
{
    if outcomes.len() == 0 {
        (0nat, false)
    } else {
        let prev = publish_state(total, outcomes.drop_last());
        if prev.1 || prev.0 >= total {
            prev
        } else if outcomes.last() {
            ((prev.0 + 1) as nat, false)
        } else {
            (prev.0, true)
        }
    }
}

/// How many sends the publish call has issued after consuming the given
/// outcomes: one per confirmed delivery, plus the one send whose delivery
/// failed.
pub open spec fn sends_issued(total: nat, outcomes: Seq<bool>) -> nat {
    let st = publish_state(total, outcomes);
    st.0 + (if st.1 {
        1nat
    } else {
        0nat
    })
}

/// While every delivery is confirmed, the publish call confirms exactly one
/// message per outcome and nothing fails.  In particular a full batch of
/// confirmed deliveries is a successful publish call.
pub proof fn lemma_all_delivered(total: nat, outcomes: Seq<bool>)
    requires
        outcomes.len() <= total,
        forall|j: int| 0 <= j < outcomes.len() ==> outcomes[j],
    ensures
        publish_state(total, outcomes) == (outcomes.len(), false),
        sends_issued(total, outcomes) == outcomes.len(),
    decreases outcomes.len(),
{
    if outcomes.len() > 0 {
        lemma_all_delivered(total, outcomes.drop_last());
    }
}

/// Fail-fast: when message `i` of the batch is the first whose delivery
/// fails, exactly the messages before it are confirmed sent, exactly `i + 1`
/// sends were issued — the failed one included — and the publish call ends
/// failed, so no later message is ever attempted.
pub proof fn lemma_publish_fail_fast(total: nat, outcomes: Seq<bool>, i: nat)
    requires
        i < total,
        outcomes.len() == i + 1,
        forall|j: int| 0 <= j < i ==> outcomes[j],
        !outcomes[i as int],
    ensures
        publish_state(total, outcomes) == (i, true),
        sends_issued(total, outcomes) == i + 1,
{
    lemma_all_delivered(total, outcomes.drop_last());
}

} // verus!
