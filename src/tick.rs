use vstd::prelude::*;

use crate::data::payload_text;
use crate::registry::{dropped, kept, Subscriber};
use crate::state::HyprvisorState;
use crate::topic::SubscriptionID;

verus! {

/// Seconds between two broadcast ticks.
pub const TICK_SECONDS: u64 = 2;

/// The pids of the entries of `s` whose write did not go through (`ok` false at
/// their position), in their order.
pub open spec fn failed_pids<C>(s: Seq<Subscriber<C>>, ok: Seq<bool>) -> Seq<u32>
    decreases s.len(),
{
    if s.len() == 0 {
        Seq::empty()
    } else {
        let init = failed_pids(s.drop_last(), ok);
        if ok[s.len() - 1] {
            init
        } else {
            init.push(s.last().pid)
        }
    }
}

impl<C> HyprvisorState<C> {
    /// The payload that one tick writes to every subscriber of `t`.
    pub fn tick_payload(&self, t: SubscriptionID) -> (r: String)
        ensures
            r@ == payload_text(self.data, t),
    {
        self.data.payload(t)
    }

    /// Ends the tick's writes to topic `t`: `delivered[i]` tells whether the write
    /// to its `i`-th subscriber went through. Every subscriber whose write failed
    /// is evicted; the others stay, in their order. Returns the evicted pids.
    pub fn settle_topic(&mut self, t: SubscriptionID, delivered: &Vec<bool>) -> (r: Vec<u32>)
        requires
            old(self).subscribers.wf(),
            delivered@.len() == old(self).subscribers.list(t).len(),
        ensures
            final(self).subscribers.wf(),
            final(self).data == old(self).data,
            final(self).subscribers.list(t) == kept(
                old(self).subscribers.list(t),
                failed_pids(old(self).subscribers.list(t), delivered@),
            ),
            forall|u: SubscriptionID|
                u != t ==> #[trigger] final(self).subscribers.list(u) == old(self).subscribers.list(
                    u,
                ),
            r@ == dropped(
                old(self).subscribers.list(t),
                failed_pids(old(self).subscribers.list(t), delivered@),
            ),
    {
        let ghost s = self.subscribers.list(t);
        let mut failed: Vec<u32> = Vec::new();
        let mut i: usize = 0;
        assert(s.take(0) =~= Seq::<Subscriber<C>>::empty());
        while i < delivered.len()
            invariant
                i <= delivered@.len(),
                delivered@.len() == s.len(),
                s == self.subscribers.list(t),
                failed@ == failed_pids(s.take(i as int), delivered@),
            decreases delivered@.len() - i,
        {
            assert(s.take(i + 1).drop_last() =~= s.take(i as int));
            if !delivered[i] {
                failed.push(self.subscribers.pid_at(t, i));
            }
            i = i + 1;
        }
        assert(s.take(i as int) =~= s);
        self.subscribers.evict_failed(t, &failed)
    }
}

} // verus!
