use vstd::prelude::*;

use crate::data::{initial_workspaces, HyprvisorData};
use crate::registry::Registry;
use crate::topic::SubscriptionID;

verus! {

/// Everything the daemon shares between its tasks: the published facts and
/// who is subscribed to them. Connections are of type `C`.
pub struct HyprvisorState<C> {
    pub data: HyprvisorData,
    pub subscribers: Registry<C>,
}

impl<C> HyprvisorState<C> {
    /// The state at start: the initial snapshot and no subscribers.
    pub fn new() -> (r: Self)
        ensures
            r.subscribers.wf(),
            forall|t: SubscriptionID| #[trigger] r.subscribers.list(t).len() == 0,
            r.data.workspace_info@ == initial_workspaces(),
            r.data.window_title@ == Seq::<char>::empty(),
            r.data.sink_volume is None,
            r.data.source_volume is None,
    {
        HyprvisorState { data: HyprvisorData::new(), subscribers: Registry::new() }
    }
}

} // verus!
