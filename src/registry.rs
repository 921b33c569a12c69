use vstd::prelude::*;

use crate::topic::SubscriptionID;

verus! {

/// One live subscription of a topic: the client's process id and its connection.
pub struct Subscriber<C> {
    pub pid: u32,
    pub connection: C,
}

/// Index of the last entry whose pid is `p`, or -1 when there is none.
pub open spec fn find_pid<C>(s: Seq<Subscriber<C>>, p: u32) -> int
    decreases s.len(),
{
    if s.len() == 0 {
        -1
    } else if s.last().pid == p {
        s.len() - 1
    } else {
        find_pid(s.drop_last(), p)
    }
}

/// Whether some entry of `s` has pid `p`.
pub open spec fn has_pid<C>(s: Seq<Subscriber<C>>, p: u32) -> bool {
    exists|i: int| 0 <= i < s.len() && #[trigger] s[i].pid == p
}

/// No two entries of `s` share a pid.
pub open spec fn unique_pids<C>(s: Seq<Subscriber<C>>) -> bool {
    forall|i: int, j: int| 0 <= i < s.len() && 0 <= j < s.len() && i != j ==> #[trigger] s[i].pid
        != #[trigger] s[j].pid
}

/// Number of entries of `s` whose pid is `p`.
pub open spec fn pid_count<C>(s: Seq<Subscriber<C>>, p: u32) -> nat
    decreases s.len(),
{
    if s.len() == 0 {
        0
    } else {
        pid_count(s.drop_last(), p) + if s.last().pid == p { 1nat } else { 0nat }
    }
}

/// `s` after registering `c` for pid `p`: an entry with that pid gets the new
/// connection in place; otherwise the new entry goes last.
pub open spec fn put<C>(s: Seq<Subscriber<C>>, p: u32, c: C) -> Seq<Subscriber<C>> {
    let i = find_pid(s, p);
    if i >= 0 {
        s.update(i, Subscriber { pid: p, connection: c })
    } else {
        s.push(Subscriber { pid: p, connection: c })
    }
}

/// `s` without the entry of pid `p`, if there is one.
pub open spec fn without<C>(s: Seq<Subscriber<C>>, p: u32) -> Seq<Subscriber<C>> {
    let i = find_pid(s, p);
    if i >= 0 {
        s.remove(i)
    } else {
        s
    }
}

/// The entries of `s` whose pid is not in `failed`, in their order.
pub open spec fn kept<C>(s: Seq<Subscriber<C>>, failed: Seq<u32>) -> Seq<Subscriber<C>>
    decreases s.len(),
{
    if s.len() == 0 {
        Seq::empty()
    } else {
        let init = kept(s.drop_last(), failed);
        if failed.contains(s.last().pid) {
            init
        } else {
            init.push(s.last())
        }
    }
}

/// The pids of the entries of `s`, in their order.
pub open spec fn pids_of<C>(s: Seq<Subscriber<C>>) -> Seq<u32> {
    s.map_values(|e: Subscriber<C>| e.pid)
}

/// `find_pid` gives an index of an entry with the pid, or -1 when there is none.
pub proof fn lemma_find_pid<C>(s: Seq<Subscriber<C>>, p: u32)
    ensures
        -1 <= find_pid(s, p) < s.len(),
        find_pid(s, p) >= 0 ==> s[find_pid(s, p)].pid == p,
        find_pid(s, p) == -1 <==> !has_pid(s, p),
    decreases s.len(),
{
    if s.len() > 0 {
        lemma_find_pid(s.drop_last(), p);
        if s.last().pid != p && has_pid(s, p) {
            let i = choose|i: int| 0 <= i < s.len() && #[trigger] s[i].pid == p;
            assert(s.drop_last()[i].pid == p);
        }
        if find_pid(s.drop_last(), p) >= 0 {
            let i = find_pid(s.drop_last(), p);
            assert(s[i].pid == p);
        }
    }
}


/// Removing an entry keeps pids unique and shifts the later entries down by one.
pub proof fn lemma_remove_unique<C>(s: Seq<Subscriber<C>>, i: int)
    requires
        unique_pids(s),
        0 <= i < s.len(),
    ensures
        unique_pids(s.remove(i)),
        forall|k: int| 0 <= k < s.len() - 1 ==> #[trigger] s.remove(i)[k] == if k < i {
            s[k]
        } else {
            s[k + 1]
        },
{
    let r = s.remove(i);
    assert forall|a: int, b: int| 0 <= a < r.len() && 0 <= b < r.len() && a != b implies #[trigger] r[a].pid
        != #[trigger] r[b].pid by {
        let a0 = if a < i { a } else { a + 1 };
        let b0 = if b < i { b } else { b + 1 };
        assert(r[a] == s[a0] && r[b] == s[b0]);
    }
}

/// Registering keeps pids unique, and adds a pid only when it was not there.
pub proof fn lemma_put_unique<C>(s: Seq<Subscriber<C>>, p: u32, c: C)
    requires
        unique_pids(s),
    ensures
        unique_pids(put(s, p, c)),
        put(s, p, c).len() == s.len() + if has_pid(s, p) { 0int } else { 1int },
        pids_of(put(s, p, c)) == if has_pid(s, p) { pids_of(s) } else { pids_of(s).push(p) },
{
    lemma_find_pid(s, p);
    let r = put(s, p, c);
    if !has_pid(s, p) {
        assert forall|a: int, b: int| 0 <= a < r.len() && 0 <= b < r.len() && a != b implies #[trigger] r[a].pid
            != #[trigger] r[b].pid by {
            if a == s.len() {
                assert(s[b].pid == r[b].pid);
            } else if b == s.len() {
                assert(s[a].pid == r[a].pid);
            }
        }
    }
    assert(pids_of(r) =~= if has_pid(s, p) { pids_of(s) } else { pids_of(s).push(p) });
}

/// Position of the entry of pid `p` in `v`, found from the end.
fn find_in<C>(v: &Vec<Subscriber<C>>, p: u32) -> (r: Option<usize>)
    ensures
        match r {
            Some(i) => find_pid(v@, p) == i as int,
            None => find_pid(v@, p) == -1,
        },
{
    let mut i: usize = v.len();
    proof {
        lemma_find_pid_whole(v@, p);
    }
    while i > 0
        invariant
            i <= v@.len(),
            find_pid(v@, p) == find_pid(v@.take(i as int), p),
        decreases i,
    {
        let ghost t = v@.take(i as int);
        assert(t.drop_last() =~= v@.take(i - 1));
        if v[i - 1].pid == p {
            return Some(i - 1);
        }
        i = i - 1;
    }
    None
}

proof fn lemma_find_pid_whole<C>(s: Seq<Subscriber<C>>, p: u32)
    ensures
        find_pid(s, p) == find_pid(s.take(s.len() as int), p),
{
    assert(s.take(s.len() as int) =~= s);
}

/// Registers `c` for pid `p` in `v`; hands back the connection it replaces.
fn put_in<C>(v: &mut Vec<Subscriber<C>>, p: u32, c: C) -> (r: Option<C>)
    requires
        unique_pids(old(v)@),
    ensures
        final(v)@ == put(old(v)@, p, c),
        unique_pids(final(v)@),
        has_pid(old(v)@, p) ==> r == Some(old(v)@[find_pid(old(v)@, p)].connection),
        !has_pid(old(v)@, p) ==> r is None,
{
    proof {
        lemma_find_pid(v@, p);
        lemma_find_pid_whole(v@, p);
        lemma_put_unique(v@, p, c);
    }
    match find_in(v, p) {
        Some(i) => {
            let prev = v.remove(i);
            v.insert(i, Subscriber { pid: p, connection: c });
            assert(v@ =~= put(old(v)@, p, c));
            Some(prev.connection)
        },
        None => {
            v.push(Subscriber { pid: p, connection: c });
            None
        },
    }
}

/// Removes the entry of pid `p` from `v`, if any, and hands back its connection.
fn take_in<C>(v: &mut Vec<Subscriber<C>>, p: u32) -> (r: Option<C>)
    requires
        unique_pids(old(v)@),
    ensures
        final(v)@ == without(old(v)@, p),
        unique_pids(final(v)@),
        has_pid(old(v)@, p) ==> r == Some(old(v)@[find_pid(old(v)@, p)].connection),
        !has_pid(old(v)@, p) ==> r is None,
{
    proof {
        lemma_find_pid(v@, p);
        lemma_find_pid_whole(v@, p);
    }
    match find_in(v, p) {
        Some(i) => {
            proof {
                lemma_remove_unique(v@, i as int);
            }
            let prev = v.remove(i);
            Some(prev.connection)
        },
        None => None,
    }
}


/// The pids of the entries of `s` that are in `failed`, in their order.
pub open spec fn dropped<C>(s: Seq<Subscriber<C>>, failed: Seq<u32>) -> Seq<u32>
    decreases s.len(),
{
    if s.len() == 0 {
        Seq::empty()
    } else {
        let init = dropped(s.drop_last(), failed);
        if failed.contains(s.last().pid) {
            init.push(s.last().pid)
        } else {
            init
        }
    }
}

fn contains_pid(pids: &Vec<u32>, p: u32) -> (r: bool)
    ensures
        r == pids@.contains(p),
{
    let mut i: usize = 0;
    while i < pids.len()
        invariant
            i <= pids@.len(),
            forall|k: int| 0 <= k < i ==> pids@[k] != p,
        decreases pids@.len() - i,
    {
        if pids[i] == p {
            return true;
        }
        i = i + 1;
    }
    false
}

/// Removes from `v` every entry whose pid is in `failed`; returns their pids.
fn keep_in<C>(v: &mut Vec<Subscriber<C>>, failed: &Vec<u32>) -> (r: Vec<u32>)
    requires
        unique_pids(old(v)@),
    ensures
        final(v)@ == kept(old(v)@, failed@),
        unique_pids(final(v)@),
        r@ == dropped(old(v)@, failed@),
{
    let ghost o = v@;
    let ghost f = failed@;
    let mut gone: Vec<u32> = Vec::new();
    let mut i: usize = 0;
    let ghost mut j: int = 0;
    assert(o.take(0) =~= Seq::<Subscriber<C>>::empty());
    assert(v@ =~= kept(o.take(0), f) + o.skip(0));
    while i < v.len()
        invariant
            0 <= j <= o.len(),
            v@ == kept(o.take(j), f) + o.skip(j),
            i == kept(o.take(j), f).len(),
            v@.len() == i + (o.len() - j),
            unique_pids(v@),
            gone@ == dropped(o.take(j), f),
            f == failed@,
        decreases o.len() - j,
    {
        assert(o.take(j + 1).drop_last() =~= o.take(j));
        assert(o.take(j + 1).last() == o[j]);
        assert(v@[i as int] == o[j]);
        let p = v[i].pid;
        if contains_pid(failed, p) {
            proof {
                lemma_remove_unique(v@, i as int);
            }
            v.remove(i);
            gone.push(p);
            assert(v@ =~= kept(o.take(j + 1), f) + o.skip(j + 1));
        } else {
            i = i + 1;
            assert(v@ =~= kept(o.take(j + 1), f) + o.skip(j + 1));
        }
        proof {
            j = j + 1;
        }
    }
    assert(o.take(j) =~= o);
    assert(v@ =~= kept(o, f));
    gone
}

/// Subscribers of each topic, keyed by pid: at most one per pid and topic
/// (`wf`), in the order in which they were first registered.
///
/// Each topic is a `Vec` rather than a map from pid: a tick writes to the
/// subscribers by position (`connection_mut`), reports the outcomes in that same
/// order, and the order stays the same from one tick to the next.
pub struct Registry<C> {
    workspace: Vec<Subscriber<C>>,
    window: Vec<Subscriber<C>>,
    sink_volume: Vec<Subscriber<C>>,
    source_volume: Vec<Subscriber<C>>,
}

impl<C> Registry<C> {
    /// The subscribers of topic `t`, in iteration order.
    pub closed spec fn list(&self, t: SubscriptionID) -> Seq<Subscriber<C>> {
        match t {
            SubscriptionID::WORKSPACE => self.workspace@,
            SubscriptionID::WINDOW => self.window@,
            SubscriptionID::SINKVOLUME => self.sink_volume@,
            SubscriptionID::SOURCEVOLUME => self.source_volume@,
        }
    }

    /// Each topic holds at most one subscriber per pid.
    pub open spec fn wf(&self) -> bool {
        &&& unique_pids(self.list(SubscriptionID::WORKSPACE))
        &&& unique_pids(self.list(SubscriptionID::WINDOW))
        &&& unique_pids(self.list(SubscriptionID::SINKVOLUME))
        &&& unique_pids(self.list(SubscriptionID::SOURCEVOLUME))
    }

    /// An empty registry.
    pub fn new() -> (r: Self)
        ensures
            r.wf(),
            forall|t: SubscriptionID| #[trigger] r.list(t).len() == 0,
    {
        Registry {
            workspace: Vec::new(),
            window: Vec::new(),
            sink_volume: Vec::new(),
            source_volume: Vec::new(),
        }
    }
    /// Registers `connection` for `pid` on topic `t`, replacing the connection that
    /// pid held there, which is handed back so that the caller can close it.
    pub fn register(&mut self, t: SubscriptionID, pid: u32, connection: C) -> (r: Option<C>)
        requires
            old(self).wf(),
        ensures
            final(self).wf(),
            final(self).list(t) == put(old(self).list(t), pid, connection),
            forall|u: SubscriptionID| u != t ==> #[trigger] final(self).list(u) == old(self).list(u),
            has_pid(old(self).list(t), pid) ==> r == Some(
                old(self).list(t)[find_pid(old(self).list(t), pid)].connection,
            ),
            !has_pid(old(self).list(t), pid) ==> r is None,
    {
        match t {
            SubscriptionID::WORKSPACE => put_in(&mut self.workspace, pid, connection),
            SubscriptionID::WINDOW => put_in(&mut self.window, pid, connection),
            SubscriptionID::SINKVOLUME => put_in(&mut self.sink_volume, pid, connection),
            SubscriptionID::SOURCEVOLUME => put_in(&mut self.source_volume, pid, connection),
        }
    }

    /// Removes the subscriber of `pid` from topic `t` and hands back its connection;
    /// does nothing when there is none.
    pub fn evict(&mut self, t: SubscriptionID, pid: u32) -> (r: Option<C>)
        requires
            old(self).wf(),
        ensures
            final(self).wf(),
            final(self).list(t) == without(old(self).list(t), pid),
            forall|u: SubscriptionID| u != t ==> #[trigger] final(self).list(u) == old(self).list(u),
            has_pid(old(self).list(t), pid) ==> r == Some(
                old(self).list(t)[find_pid(old(self).list(t), pid)].connection,
            ),
            !has_pid(old(self).list(t), pid) ==> r is None,
    {
        match t {
            SubscriptionID::WORKSPACE => take_in(&mut self.workspace, pid),
            SubscriptionID::WINDOW => take_in(&mut self.window, pid),
            SubscriptionID::SINKVOLUME => take_in(&mut self.sink_volume, pid),
            SubscriptionID::SOURCEVOLUME => take_in(&mut self.source_volume, pid),
        }
    }

    /// Removes from topic `t` every subscriber whose pid is in `failed`, keeping the
    /// order of the others; returns the pids removed.
    pub fn evict_failed(&mut self, t: SubscriptionID, failed: &Vec<u32>) -> (r: Vec<u32>)
        requires
            old(self).wf(),
        ensures
            final(self).wf(),
            final(self).list(t) == kept(old(self).list(t), failed@),
            forall|u: SubscriptionID| u != t ==> #[trigger] final(self).list(u) == old(self).list(u),
            r@ == dropped(old(self).list(t), failed@),
    {
        match t {
            SubscriptionID::WORKSPACE => keep_in(&mut self.workspace, failed),
            SubscriptionID::WINDOW => keep_in(&mut self.window, failed),
            SubscriptionID::SINKVOLUME => keep_in(&mut self.sink_volume, failed),
            SubscriptionID::SOURCEVOLUME => keep_in(&mut self.source_volume, failed),
        }
    }

    fn list_ref(&self, t: SubscriptionID) -> (r: &Vec<Subscriber<C>>)
        ensures
            r@ == self.list(t),
    {
        match t {
            SubscriptionID::WORKSPACE => &self.workspace,
            SubscriptionID::WINDOW => &self.window,
            SubscriptionID::SINKVOLUME => &self.sink_volume,
            SubscriptionID::SOURCEVOLUME => &self.source_volume,
        }
    }

    /// Number of subscribers of topic `t`.
    pub fn subscriber_count(&self, t: SubscriptionID) -> (r: usize)
        ensures
            r == self.list(t).len(),
    {
        self.list_ref(t).len()
    }

    /// Whether `pid` is subscribed to topic `t`.
    pub fn contains(&self, t: SubscriptionID, pid: u32) -> (r: bool)
        ensures
            r == has_pid(self.list(t), pid),
    {
        proof {
            lemma_find_pid(self.list(t), pid);
            lemma_find_pid_whole(self.list(t), pid);
        }
        find_in(self.list_ref(t), pid).is_some()
    }

    /// The pids subscribed to topic `t`, in iteration order.
    pub fn pids(&self, t: SubscriptionID) -> (r: Vec<u32>)
        ensures
            r@ == pids_of(self.list(t)),
    {
        let v = self.list_ref(t);
        let mut out: Vec<u32> = Vec::new();
        let mut i: usize = 0;
        while i < v.len()
            invariant
                i <= v@.len(),
                out@ == pids_of(v@.take(i as int)),
            decreases v@.len() - i,
        {
            out.push(v[i].pid);
            i = i + 1;
            assert(pids_of(v@.take(i as int)) =~= pids_of(v@.take(i - 1)).push(v@[i - 1].pid));
        }
        assert(v@.take(i as int) =~= v@);
        out
    }

    /// The pid of the `i`-th subscriber of topic `t`.
    pub fn pid_at(&self, t: SubscriptionID, i: usize) -> (r: u32)
        requires
            i < self.list(t).len(),
        ensures
            r == self.list(t)[i as int].pid,
    {
        self.list_ref(t)[i].pid
    }

    /// The connection of the `i`-th subscriber of topic `t`, to write to.
    pub fn connection_mut(&mut self, t: SubscriptionID, i: usize) -> (r: &mut C)
        requires
            i < old(self).list(t).len(),
        ensures
            *r == old(self).list(t)[i as int].connection,
            final(self).list(t) == old(self).list(t).update(
                i as int,
                Subscriber { pid: old(self).list(t)[i as int].pid, connection: *final(r) },
            ),
            forall|u: SubscriptionID| u != t ==> #[trigger] final(self).list(u) == old(self).list(u),
    {
        match t {
            SubscriptionID::WORKSPACE => &mut self.workspace[i].connection,
            SubscriptionID::WINDOW => &mut self.window[i].connection,
            SubscriptionID::SINKVOLUME => &mut self.sink_volume[i].connection,
            SubscriptionID::SOURCEVOLUME => &mut self.source_volume[i].connection,
        }
    }
}

} // verus!
