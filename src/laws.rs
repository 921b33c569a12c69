use vstd::prelude::*;

use crate::tick::failed_pids;
use crate::data::{payload_text, HyprvisorData};
use crate::registry::{
    dropped, find_pid, has_pid, kept, lemma_find_pid, lemma_put_unique, pid_count, pids_of, put,
    unique_pids, Registry, Subscriber,
};
use crate::topic::{topic_name, SubscriptionID};

verus! {

proof fn lemma_unique_drop_last<C>(s: Seq<Subscriber<C>>)
    requires
        unique_pids(s),
        s.len() > 0,
    ensures
        unique_pids(s.drop_last()),
        !has_pid(s.drop_last(), s.last().pid),
{
    let d = s.drop_last();
    assert forall|a: int, b: int| 0 <= a < d.len() && 0 <= b < d.len() && a != b implies #[trigger] d[a].pid
        != #[trigger] d[b].pid by {
        assert(d[a] == s[a] && d[b] == s[b]);
    }
    if has_pid(d, s.last().pid) {
        let i = choose|i: int| 0 <= i < d.len() && #[trigger] d[i].pid == s.last().pid;
        assert(s[i].pid == s[s.len() - 1].pid);
    }
}

proof fn lemma_unique_index<C>(s: Seq<Subscriber<C>>, i: int)
    requires
        unique_pids(s),
        0 <= i < s.len(),
    ensures
        find_pid(s, s[i].pid) == i,
        has_pid(s, s[i].pid),
{
    lemma_find_pid(s, s[i].pid);
}

proof fn lemma_pid_count_unique<C>(s: Seq<Subscriber<C>>, p: u32)
    requires
        unique_pids(s),
    ensures
        pid_count(s, p) == if has_pid(s, p) { 1nat } else { 0nat },
    decreases s.len(),
{
    if s.len() > 0 {
        let d = s.drop_last();
        lemma_unique_drop_last(s);
        lemma_pid_count_unique(d, p);
        if has_pid(d, p) {
            let i = choose|i: int| 0 <= i < d.len() && #[trigger] d[i].pid == p;
            assert(s[i].pid == p);
        }
        if has_pid(s, p) && s.last().pid != p {
            let i = choose|i: int| 0 <= i < s.len() && #[trigger] s[i].pid == p;
            assert(d[i].pid == p);
        }
    }
}

proof fn lemma_kept_absent<C>(s: Seq<Subscriber<C>>, p: u32)
    requires
        !has_pid(s, p),
    ensures
        kept(s, seq![p]) == s,
        dropped(s, seq![p]) == Seq::<u32>::empty(),
    decreases s.len(),
{
    if s.len() > 0 {
        let d = s.drop_last();
        if has_pid(d, p) {
            let i = choose|i: int| 0 <= i < d.len() && #[trigger] d[i].pid == p;
            assert(s[i].pid == p);
        }
        lemma_kept_absent(d, p);
        assert(s[s.len() - 1].pid != p);
        assert(!seq![p].contains(s.last().pid));
        assert(d.push(s.last()) =~= s);
    }
}

proof fn lemma_kept_single<C>(s: Seq<Subscriber<C>>, i: int)
    requires
        unique_pids(s),
        0 <= i < s.len(),
    ensures
        kept(s, seq![s[i].pid]) == s.remove(i),
        dropped(s, seq![s[i].pid]) == seq![s[i].pid],
    decreases s.len(),
{
    let p = s[i].pid;
    let d = s.drop_last();
    lemma_unique_drop_last(s);
    assert(seq![p][0] == p);
    if i == s.len() - 1 {
        lemma_kept_absent(d, p);
        assert(s.remove(i) =~= d);
        assert(Seq::<u32>::empty().push(p) =~= seq![p]);
    } else {
        assert(d[i].pid == p);
        lemma_kept_single(d, i);
        assert(s[s.len() - 1].pid != p);
        assert(!seq![p].contains(s.last().pid));
        assert(d.remove(i).push(s.last()) =~= s.remove(i));
    }
}

proof fn lemma_failed_single<C>(s: Seq<Subscriber<C>>, ok: Seq<bool>, i: int, n: int)
    requires
        ok.len() == s.len(),
        0 <= i < s.len(),
        0 <= n <= s.len(),
        forall|k: int| 0 <= k < ok.len() ==> (#[trigger] ok[k] <==> k != i),
    ensures
        failed_pids(s.take(n), ok) == if n > i {
            seq![s[i].pid]
        } else {
            Seq::<u32>::empty()
        },
    decreases n,
{
    if n > 0 {
        let t = s.take(n);
        assert(t.drop_last() =~= s.take(n - 1));
        lemma_failed_single(s, ok, i, n - 1);
        if n - 1 == i {
            assert(Seq::<u32>::empty().push(s[i].pid) =~= seq![s[i].pid]);
        }
    }
}

proof fn lemma_put_single<C>(s: Seq<Subscriber<C>>, p: u32, c: C)
    requires
        unique_pids(s),
    ensures
        pid_count(put(s, p, c), p) == 1,
        find_pid(put(s, p, c), p) >= 0,
        put(s, p, c)[find_pid(put(s, p, c), p)].connection == c,
{
    lemma_put_unique(s, p, c);
    lemma_find_pid(s, p);
    let s1 = put(s, p, c);
    let i1 = if has_pid(s, p) { find_pid(s, p) } else { s.len() as int };
    assert(s1[i1].pid == p);
    lemma_unique_index(s1, i1);
    lemma_pid_count_unique(s1, p);
}

/// Registering connection `c` for pid `p` on topic `t` leaves exactly one
/// subscriber of `t` with pid `p`, holding `c`: a tick, which writes once to each
/// subscriber of `t`, writes to `p` once, on `c`, a payload that opens with the
/// name of `t`.
pub proof fn lemma_register_then_tick_delivers_once<C>(
    r: Registry<C>,
    t: SubscriptionID,
    p: u32,
    c: C,
    d: HyprvisorData,
)
    requires
        r.wf(),
    ensures
        pid_count(put(r.list(t), p, c), p) == 1,
        put(r.list(t), p, c)[find_pid(put(r.list(t), p, c), p)].connection == c,
        find_pid(put(r.list(t), p, c), p) >= 0,
        payload_text(d, t).take(topic_name(t).len() as int) == topic_name(t),
{
    lemma_put_single(r.list(t), p, c);
    assert(payload_text(d, t).take(topic_name(t).len() as int) =~= topic_name(t));
}

/// A second registration of pid `p` on topic `t` replaces the first: the topic
/// ends as if only the second had been made, the first connection is the one
/// handed back by the second registration, and `p` has one subscriber, on the
/// newest connection.
pub proof fn lemma_resubscribe_replaces<C>(r: Registry<C>, t: SubscriptionID, p: u32, c1: C, c2: C)
    requires
        r.wf(),
    ensures
        put(put(r.list(t), p, c1), p, c2) == put(r.list(t), p, c2),
        has_pid(put(r.list(t), p, c1), p),
        put(r.list(t), p, c1)[find_pid(put(r.list(t), p, c1), p)].connection == c1,
        pid_count(put(put(r.list(t), p, c1), p, c2), p) == 1,
        put(put(r.list(t), p, c1), p, c2)[find_pid(put(put(r.list(t), p, c1), p, c2), p)].connection
            == c2,
{
    let s = r.list(t);
    lemma_put_unique(s, p, c1);
    lemma_find_pid(s, p);
    let s1 = put(s, p, c1);
    let i1 = if has_pid(s, p) { find_pid(s, p) } else { s.len() as int };
    assert(s1[i1].pid == p);
    lemma_unique_index(s1, i1);
    let s2 = put(s1, p, c2);
    assert(s2 =~= put(s, p, c2));
    lemma_put_single(s, p, c2);
}

/// When one tick's write fails for exactly one subscriber of `t`, the tick evicts
/// that subscriber alone: the topic loses exactly one subscriber, the others stay
/// in their order, and the evicted pid is the failed one.
pub proof fn lemma_dead_subscriber_evicted<C>(
    r: Registry<C>,
    t: SubscriptionID,
    delivered: Seq<bool>,
    i: int,
)
    requires
        r.wf(),
        0 <= i < r.list(t).len(),
        delivered.len() == r.list(t).len(),
        forall|k: int| 0 <= k < delivered.len() ==> (#[trigger] delivered[k] <==> k != i),
    ensures
        kept(r.list(t), failed_pids(r.list(t), delivered)) == r.list(t).remove(i),
        kept(r.list(t), failed_pids(r.list(t), delivered)).len() == r.list(t).len() - 1,
        dropped(r.list(t), failed_pids(r.list(t), delivered)) == seq![r.list(t)[i].pid],
{
    let s = r.list(t);
    lemma_failed_single(s, delivered, i, s.len() as int);
    assert(s.take(s.len() as int) =~= s);
    lemma_kept_single(s, i);
}

proof fn lemma_failed_within<C>(s: Seq<Subscriber<C>>, ok: Seq<bool>, x: u32)
    requires
        ok.len() >= s.len(),
    ensures
        failed_pids(s, ok).contains(x) ==> has_pid(s, x),
    decreases s.len(),
{
    if s.len() > 0 {
        let d = s.drop_last();
        lemma_failed_within(d, ok, x);
        if failed_pids(s, ok).contains(x) {
            if failed_pids(d, ok).contains(x) {
                let i = choose|i: int| 0 <= i < d.len() && #[trigger] d[i].pid == x;
                assert(s[i].pid == x);
            } else {
                let f = failed_pids(d, ok);
                let j = choose|j: int| 0 <= j < f.push(s.last().pid).len() && f.push(s.last().pid)[j] == x;
                assert(j == f.len());
                assert(s[s.len() - 1].pid == x);
            }
        }
    }
}

proof fn lemma_failed_exactly<C>(s: Seq<Subscriber<C>>, ok: Seq<bool>, k: int)
    requires
        unique_pids(s),
        ok.len() >= s.len(),
        0 <= k < s.len(),
    ensures
        failed_pids(s, ok).contains(s[k].pid) <==> !ok[k],
    decreases s.len(),
{
    let d = s.drop_last();
    let f = failed_pids(d, ok);
    lemma_unique_drop_last(s);
    if k == s.len() - 1 {
        lemma_failed_within(d, ok, s[k].pid);
        if !ok[k] {
            assert(f.push(s.last().pid)[f.len() as int] == s[k].pid);
        }
    } else {
        assert(d[k] == s[k]);
        lemma_failed_exactly(d, ok, k);
        assert(s[s.len() - 1].pid != s[k].pid);
        if !ok[s.len() - 1] && f.push(s.last().pid).contains(s[k].pid) {
            let j = choose|j: int| 0 <= j < f.push(s.last().pid).len() && f.push(s.last().pid)[j] == s[k].pid;
            assert(j < f.len());
            assert(f[j] == s[k].pid);
        }
        if f.contains(s[k].pid) && !ok[s.len() - 1] {
            let j = choose|j: int| 0 <= j < f.len() && f[j] == s[k].pid;
            assert(f.push(s.last().pid)[j] == s[k].pid);
        }
    }
}

proof fn lemma_kept_members<C>(s: Seq<Subscriber<C>>, f: Seq<u32>, k: int)
    requires
        0 <= k < s.len(),
    ensures
        !f.contains(s[k].pid) ==> kept(s, f).contains(s[k]),
    decreases s.len(),
{
    let d = s.drop_last();
    if k < s.len() - 1 {
        assert(d[k] == s[k]);
        lemma_kept_members(d, f, k);
        if !f.contains(s[k].pid) {
            let j = choose|j: int| 0 <= j < kept(d, f).len() && kept(d, f)[j] == s[k];
            if !f.contains(s.last().pid) {
                assert(kept(s, f)[j] == s[k]);
            }
        }
    } else if !f.contains(s[k].pid) {
        assert(kept(s, f)[kept(d, f).len() as int] == s[k]);
    }
}

proof fn lemma_kept_pids<C>(s: Seq<Subscriber<C>>, f: Seq<u32>, x: u32)
    ensures
        f.contains(x) ==> !has_pid(kept(s, f), x),
    decreases s.len(),
{
    if s.len() > 0 {
        let d = s.drop_last();
        lemma_kept_pids(d, f, x);
        if f.contains(x) && has_pid(kept(s, f), x) {
            let k = kept(s, f);
            let i = choose|i: int| 0 <= i < k.len() && #[trigger] k[i].pid == x;
            if !f.contains(s.last().pid) && i == kept(d, f).len() {
                assert(s.last().pid == x);
            } else {
                assert(kept(d, f)[i].pid == x);
            }
        }
    }
}

/// One tick, whatever set of its writes fails, leaves every subscriber whose
/// write went through registered on the same connection, and no subscriber
/// whose write failed.
pub proof fn lemma_tick_outcome<C>(r: Registry<C>, t: SubscriptionID, delivered: Seq<bool>)
    requires
        r.wf(),
        delivered.len() == r.list(t).len(),
    ensures
        forall|k: int|
            0 <= k < r.list(t).len() && #[trigger] delivered[k] ==> kept(
                r.list(t),
                failed_pids(r.list(t), delivered),
            ).contains(r.list(t)[k]),
        forall|k: int|
            0 <= k < r.list(t).len() && !#[trigger] delivered[k] ==> !has_pid(
                kept(r.list(t), failed_pids(r.list(t), delivered)),
                r.list(t)[k].pid,
            ),
{
    let s = r.list(t);
    let f = failed_pids(s, delivered);
    assert forall|k: int| 0 <= k < s.len() && #[trigger] delivered[k] implies kept(s, f).contains(
        s[k],
    ) by {
        lemma_failed_exactly(s, delivered, k);
        lemma_kept_members(s, f, k);
    }
    assert forall|k: int| 0 <= k < s.len() && !#[trigger] delivered[k] implies !has_pid(
        kept(s, f),
        s[k].pid,
    ) by {
        lemma_failed_exactly(s, delivered, k);
        lemma_kept_pids(s, f, s[k].pid);
    }
}

/// The pids of a sequence of registrations.
pub open spec fn pids_in<C>(es: Seq<(u32, C)>) -> Seq<u32> {
    es.map_values(|e: (u32, C)| e.0)
}

/// The subscribers that the registrations `es` describe, in order.
pub open spec fn subscribers_of<C>(es: Seq<(u32, C)>) -> Seq<Subscriber<C>> {
    es.map_values(|e: (u32, C)| Subscriber { pid: e.0, connection: e.1 })
}

/// A topic after the registrations `es`, made one after another from `s`.
pub open spec fn put_all<C>(s: Seq<Subscriber<C>>, es: Seq<(u32, C)>) -> Seq<Subscriber<C>>
    decreases es.len(),
{
    if es.len() == 0 {
        s
    } else {
        put(put_all(s, es.drop_last()), es.last().0, es.last().1)
    }
}

/// Registrations of distinct pids on one topic, from a topic without
/// subscribers and in whatever order the lock lets them through, are all kept:
/// the topic ends with one subscriber per registration, each on the connection
/// it registered, in registration order.
pub proof fn lemma_distinct_registrations_all_visible<C>(es: Seq<(u32, C)>)
    requires
        pids_in(es).no_duplicates(),
    ensures
        put_all(Seq::<Subscriber<C>>::empty(), es).len() == es.len(),
        pids_of(put_all(Seq::<Subscriber<C>>::empty(), es)) == pids_in(es),
        unique_pids(put_all(Seq::<Subscriber<C>>::empty(), es)),
        put_all(Seq::<Subscriber<C>>::empty(), es) == subscribers_of(es),
    decreases es.len(),
{
    let e = Seq::<Subscriber<C>>::empty();
    if es.len() > 0 {
        let init = es.drop_last();
        assert(pids_in(init) =~= pids_in(es).drop_last());
        lemma_distinct_registrations_all_visible(init);
        let s = put_all(e, init);
        let p = es.last().0;
        if has_pid(s, p) {
            let k = choose|k: int| 0 <= k < s.len() && #[trigger] s[k].pid == p;
            assert(pids_of(s)[k] == p);
            assert(pids_in(es)[k] == pids_in(es)[es.len() - 1]);
        }
        lemma_put_unique(s, p, es.last().1);
        lemma_find_pid(s, p);
        assert(pids_in(es) =~= pids_in(init).push(p));
        assert(subscribers_of(es) =~= subscribers_of(init).push(
            Subscriber { pid: p, connection: es.last().1 },
        ));
    } else {
        assert(pids_of(e) =~= pids_in(es));
        assert(subscribers_of(es) =~= e);
    }
}

} // verus!
