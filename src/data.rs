use vstd::prelude::*;
use vstd::string::*;

use crate::topic::{topic_name, SubscriptionID};

verus! {

/// State of one workspace slot.
#[derive(Debug, Clone, Copy, PartialEq, Eq, Structural)]
pub enum WorkspaceState {
    Active,
    Occupied,
    Empty,
}

/// Number of workspace slots tracked.
pub const WORKSPACE_SLOTS: usize = 10;

/// The facts the daemon publishes. Volumes are percentages; `None` means muted.
pub struct HyprvisorData {
    pub workspace_info: Vec<WorkspaceState>,
    pub window_title: String,
    pub sink_volume: Option<u32>,
    pub source_volume: Option<u32>,
}

/// The workspace slots at start: the first active, the others empty.
pub open spec fn initial_workspaces() -> Seq<WorkspaceState> {
    Seq::new(
        WORKSPACE_SLOTS as nat,
        |i: int|
            if i == 0 {
                WorkspaceState::Active
            } else {
                WorkspaceState::Empty
            },
    )
}

/// The word that names a workspace state in a payload.
pub open spec fn state_word(w: WorkspaceState) -> Seq<char> {
    match w {
        WorkspaceState::Active => "active"@,
        WorkspaceState::Occupied => "occupied"@,
        WorkspaceState::Empty => "empty"@,
    }
}

/// The words of the states of `s`, separated by commas.
pub open spec fn states_text(s: Seq<WorkspaceState>) -> Seq<char>
    decreases s.len(),
{
    if s.len() == 0 {
        Seq::empty()
    } else if s.len() == 1 {
        state_word(s[0])
    } else {
        states_text(s.drop_last()) + ","@ + state_word(s.last())
    }
}

/// The decimal digit of `d`.
pub open spec fn digit_char(d: nat) -> char {
    if d == 0 {
        '0'
    } else if d == 1 {
        '1'
    } else if d == 2 {
        '2'
    } else if d == 3 {
        '3'
    } else if d == 4 {
        '4'
    } else if d == 5 {
        '5'
    } else if d == 6 {
        '6'
    } else if d == 7 {
        '7'
    } else if d == 8 {
        '8'
    } else {
        '9'
    }
}

/// The decimal digits of `n`, without leading zeros.
pub open spec fn decimal(n: nat) -> Seq<char>
    decreases n,
{
    if n < 10 {
        seq![digit_char(n)]
    } else {
        decimal(n / 10) + seq![digit_char(n % 10)]
    }
}

/// A volume as text: its percentage, or `muted`.
pub open spec fn volume_text(v: Option<u32>) -> Seq<char> {
    match v {
        Some(n) => decimal(n as nat),
        None => "muted"@,
    }
}

/// The value of topic `t` in `d`, as text.
pub open spec fn topic_value(d: HyprvisorData, t: SubscriptionID) -> Seq<char> {
    match t {
        SubscriptionID::WORKSPACE => states_text(d.workspace_info@),
        SubscriptionID::WINDOW => d.window_title@,
        SubscriptionID::SINKVOLUME => volume_text(d.sink_volume),
        SubscriptionID::SOURCEVOLUME => volume_text(d.source_volume),
    }
}

/// The payload sent to the subscribers of `t`: the topic's name, a colon, its value.
pub open spec fn payload_text(d: HyprvisorData, t: SubscriptionID) -> Seq<char> {
    topic_name(t) + ":"@ + topic_value(d, t)
}

fn digit(d: u32) -> (r: &'static str)
    requires
        d < 10,
    ensures
        r@ == seq![digit_char(d as nat)],
{
    proof {
        reveal_strlit("0");
        reveal_strlit("1");
        reveal_strlit("2");
        reveal_strlit("3");
        reveal_strlit("4");
        reveal_strlit("5");
        reveal_strlit("6");
        reveal_strlit("7");
        reveal_strlit("8");
        reveal_strlit("9");
    }
    match d {
        0 => "0",
        1 => "1",
        2 => "2",
        3 => "3",
        4 => "4",
        5 => "5",
        6 => "6",
        7 => "7",
        8 => "8",
        _ => "9",
    }
}

fn push_decimal(s: &mut String, n: u32)
    ensures
        final(s)@ == old(s)@ + decimal(n as nat),
    decreases n,
{
    if n >= 10 {
        push_decimal(s, n / 10);
    }
    s.append(digit(n % 10));
    assert(final(s)@ =~= old(s)@ + decimal(n as nat));
}

fn push_state(s: &mut String, w: WorkspaceState)
    ensures
        final(s)@ == old(s)@ + state_word(w),
{
    match w {
        WorkspaceState::Active => s.append("active"),
        WorkspaceState::Occupied => s.append("occupied"),
        WorkspaceState::Empty => s.append("empty"),
    }
}

fn push_volume(s: &mut String, v: Option<u32>)
    ensures
        final(s)@ == old(s)@ + volume_text(v),
{
    match v {
        Some(n) => push_decimal(s, n),
        None => s.append("muted"),
    }
}

fn push_states(s: &mut String, ws: &Vec<WorkspaceState>)
    ensures
        final(s)@ == old(s)@ + states_text(ws@),
{
    let ghost start = s@;
    let mut i: usize = 0;
    assert(ws@.take(0) =~= Seq::<WorkspaceState>::empty());
    assert(s@ =~= start + states_text(ws@.take(0)));
    while i < ws.len()
        invariant
            i <= ws@.len(),
            s@ == start + states_text(ws@.take(i as int)),
        decreases ws@.len() - i,
    {
        let ghost before = s@;
        assert(ws@.take(i + 1).drop_last() =~= ws@.take(i as int));
        if i > 0 {
            s.append(",");
        }
        push_state(s, ws[i]);
        i = i + 1;
        assert(s@ =~= start + states_text(ws@.take(i as int)));
    }
    assert(ws@.take(i as int) =~= ws@);
}

impl HyprvisorData {
    /// The snapshot at start: workspace 1 active, the others empty, no window
    /// title, both volumes muted.
    pub fn new() -> (r: Self)
        ensures
            r.workspace_info@ == initial_workspaces(),
            r.window_title@ == Seq::<char>::empty(),
            r.sink_volume is None,
            r.source_volume is None,
    {
        let mut workspace_info: Vec<WorkspaceState> = Vec::new();
        let mut i: usize = 0;
        while i < WORKSPACE_SLOTS
            invariant
                i <= WORKSPACE_SLOTS,
                workspace_info@ == initial_workspaces().take(i as int),
            decreases WORKSPACE_SLOTS - i,
        {
            if i == 0 {
                workspace_info.push(WorkspaceState::Active);
            } else {
                workspace_info.push(WorkspaceState::Empty);
            }
            i = i + 1;
            assert(workspace_info@ =~= initial_workspaces().take(i as int));
        }
        assert(workspace_info@ =~= initial_workspaces());
        HyprvisorData { workspace_info, window_title: String::new(), sink_volume: None, source_volume: None }
    }

    /// Sets the state of workspace slot `index`. Returns false, and changes
    /// nothing, when there is no such slot.
    pub fn set_workspace_state(&mut self, index: usize, state: WorkspaceState) -> (r: bool)
        ensures
            r == (index < old(self).workspace_info@.len()),
            r ==> final(self).workspace_info@ == old(self).workspace_info@.update(index as int, state),
            !r ==> final(self).workspace_info@ == old(self).workspace_info@,
            final(self).window_title@ == old(self).window_title@,
            final(self).sink_volume == old(self).sink_volume,
            final(self).source_volume == old(self).source_volume,
    {
        if index < self.workspace_info.len() {
            self.workspace_info.set(index, state);
            true
        } else {
            false
        }
    }

    /// Sets the focused window's title.
    pub fn set_window_title(&mut self, title: String)
        ensures
            final(self).window_title@ == title@,
            final(self).workspace_info@ == old(self).workspace_info@,
            final(self).sink_volume == old(self).sink_volume,
            final(self).source_volume == old(self).source_volume,
    {
        self.window_title = title;
    }

    /// Sets the output volume; `None` means muted.
    pub fn set_sink_volume(&mut self, volume: Option<u32>)
        ensures
            final(self).sink_volume == volume,
            final(self).workspace_info@ == old(self).workspace_info@,
            final(self).window_title@ == old(self).window_title@,
            final(self).source_volume == old(self).source_volume,
    {
        self.sink_volume = volume;
    }

    /// Sets the input volume; `None` means muted.
    pub fn set_source_volume(&mut self, volume: Option<u32>)
        ensures
            final(self).source_volume == volume,
            final(self).workspace_info@ == old(self).workspace_info@,
            final(self).window_title@ == old(self).window_title@,
            final(self).sink_volume == old(self).sink_volume,
    {
        self.source_volume = volume;
    }

    /// The payload for the subscribers of topic `t`: `<topic>:<value>`, where a
    /// workspace value lists the slots' states separated by commas and a muted
    /// volume reads `muted`.
    pub fn payload(&self, t: SubscriptionID) -> (r: String)
        ensures
            r@ == payload_text(*self, t),
    {
        let mut s = String::new();
        s.append(t.name());
        s.append(":");
        match t {
            SubscriptionID::WORKSPACE => push_states(&mut s, &self.workspace_info),
            SubscriptionID::WINDOW => s.append(self.window_title.as_str()),
            SubscriptionID::SINKVOLUME => push_volume(&mut s, self.sink_volume),
            SubscriptionID::SOURCEVOLUME => push_volume(&mut s, self.source_volume),
        }
        assert(s@ =~= payload_text(*self, t));
        s
    }
}

} // verus!
