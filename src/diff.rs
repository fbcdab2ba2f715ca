//! The decisions of reconciliation: how a reported change or a complete
//! snapshot moves the list of known networks, and which events it gives.
use crate::net::{IfEvent, IpNet};
use vstd::prelude::*;

verus! {

broadcast use vstd::seq_lib::group_seq_properties;

/// The set `s` after the event `e`.
pub open spec fn step(s: Set<IpNet>, e: IfEvent) -> Set<IpNet> {
    match e {
        IfEvent::Up(n) => s.insert(n),
        IfEvent::Down(n) => s.remove(n),
    }
}

/// The set `s` after the events `evs`, in order.
pub open spec fn apply_events(s: Set<IpNet>, evs: Seq<IfEvent>) -> Set<IpNet>
    decreases evs.len(),
{
    if evs.len() == 0 {
        s
    } else {
        apply_events(step(s, evs[0]), evs.drop_first())
    }
}

/// Holds of the networks other than `n`.
pub open spec fn other_than(n: IpNet) -> spec_fn(IpNet) -> bool {
    |x: IpNet| x != n
}

/// Holds of the networks that `snap` lists.
pub open spec fn listed_in(snap: Seq<IpNet>) -> spec_fn(IpNet) -> bool {
    |x: IpNet| snap.contains(x)
}

/// Holds of the networks that `snap` does not list.
pub open spec fn unlisted_in(snap: Seq<IpNet>) -> spec_fn(IpNet) -> bool {
    |x: IpNet| !snap.contains(x)
}

/// `s` without the network `n`.
pub open spec fn removed(s: Seq<IpNet>, n: IpNet) -> Seq<IpNet> {
    s.filter(other_than(n))
}

/// What a change reported by the kernel does to the list `cur`: an added
/// network that is not listed yet is appended and reported `Up`; a removed
/// network that is listed is taken out and reported `Down`; anything else
/// changes nothing and reports nothing.
pub open spec fn notify(cur: Seq<IpNet>, change: IfEvent) -> (Seq<IpNet>, Seq<IfEvent>) {
    match change {
        IfEvent::Up(n) => if cur.contains(n) {
            (cur, Seq::empty())
        } else {
            (cur.push(n), seq![change])
        },
        IfEvent::Down(n) => if cur.contains(n) {
            (removed(cur, n), seq![change])
        } else {
            (cur, Seq::empty())
        },
    }
}

/// The changes `cs` applied one after the other; see `notify`.
pub open spec fn notify_all(cur: Seq<IpNet>, cs: Seq<IfEvent>) -> (Seq<IpNet>, Seq<IfEvent>)
    decreases cs.len(),
{
    if cs.len() == 0 {
        (cur, Seq::empty())
    } else {
        let (c1, e1) = notify(cur, cs[0]);
        let (c2, e2) = notify_all(c1, cs.drop_first());
        (c2, e1 + e2)
    }
}

/// The networks of `cur` that the snapshot `snap` still lists.
pub open spec fn kept(cur: Seq<IpNet>, snap: Seq<IpNet>) -> Seq<IpNet> {
    cur.filter(listed_in(snap))
}

/// The networks of `cur` that the snapshot `snap` no longer lists.
pub open spec fn dropped(cur: Seq<IpNet>, snap: Seq<IpNet>) -> Seq<IpNet> {
    cur.filter(unlisted_in(snap))
}

/// The networks of `snap` that `seen` does not hold, each once, in the
/// order of their first appearance in `snap`.
pub open spec fn fresh(snap: Seq<IpNet>, seen: Seq<IpNet>) -> Seq<IpNet>
    decreases snap.len(),
{
    if snap.len() == 0 {
        Seq::empty()
    } else {
        let prev = fresh(snap.drop_last(), seen);
        let x = snap.last();
        if seen.contains(x) || prev.contains(x) {
            prev
        } else {
            prev.push(x)
        }
    }
}

pub open spec fn downs(s: Seq<IpNet>) -> Seq<IfEvent> {
    s.map_values(|n: IpNet| IfEvent::Down(n))
}

pub open spec fn ups(s: Seq<IpNet>) -> Seq<IfEvent> {
    s.map_values(|n: IpNet| IfEvent::Up(n))
}

/// What a complete snapshot `snap` does to the list `cur`: the networks it
/// no longer lists are taken out and reported `Down`, in the list's order;
/// those it lists that are new are appended and reported `Up`, in the
/// snapshot's order.
pub open spec fn snapshot_diff(cur: Seq<IpNet>, snap: Seq<IpNet>) -> (Seq<IpNet>, Seq<IfEvent>) {
    (kept(cur, snap) + fresh(snap, cur), downs(dropped(cur, snap)) + ups(fresh(snap, cur)))
}

pub proof fn lemma_apply_events_concat(s: Set<IpNet>, a: Seq<IfEvent>, b: Seq<IfEvent>)
    ensures
        apply_events(s, a + b) == apply_events(apply_events(s, a), b),
    decreases a.len(),
{
    if a.len() == 0 {
        assert(a + b =~= b);
    } else {
        assert((a + b).drop_first() =~= a.drop_first() + b);
        lemma_apply_events_concat(step(s, a[0]), a.drop_first(), b);
    }
}

pub proof fn lemma_filter_contains_iff<A>(s: Seq<A>, p: spec_fn(A) -> bool, x: A)
    ensures
        s.filter(p).contains(x) <==> s.contains(x) && p(x),
{
    if s.filter(p).contains(x) {
        s.lemma_filter_contains_rev(p, x);
        let k = choose|k: int| 0 <= k < s.filter(p).len() && s.filter(p)[k] == x;
        s.lemma_filter_pred(p, k);
    }
    if s.contains(x) && p(x) {
        let i = choose|i: int| 0 <= i < s.len() && s[i] == x;
        s.lemma_filter_contains(p, i);
    }
}

pub proof fn lemma_push_no_duplicates<A>(s: Seq<A>, x: A)
    requires
        s.no_duplicates(),
        !s.contains(x),
    ensures
        s.push(x).no_duplicates(),
{
    let t = s.push(x);
    assert forall|i: int, j: int| 0 <= i < t.len() && 0 <= j < t.len() && i != j implies t[i]
        != t[j] by {
        if i == s.len() {
            assert(s[j] == t[j]);
        } else if j == s.len() {
            assert(s[i] == t[i]);
        }
    }
}

pub proof fn lemma_filter_no_duplicates<A>(s: Seq<A>, p: spec_fn(A) -> bool)
    requires
        s.no_duplicates(),
    ensures
        s.filter(p).no_duplicates(),
    decreases s.len(),
{
    reveal(Seq::filter);
    if s.len() > 0 {
        let d = s.drop_last();
        lemma_filter_no_duplicates(d, p);
        if p(s.last()) {
            lemma_filter_contains_iff(d, p, s.last());
            lemma_push_no_duplicates(d.filter(p), s.last());
        }
    }
}

/// What `fresh` holds: the networks of the snapshot that were not seen,
/// each once.
pub proof fn lemma_fresh(snap: Seq<IpNet>, seen: Seq<IpNet>)
    ensures
        forall|x: IpNet| #[trigger]
            fresh(snap, seen).contains(x) <==> snap.contains(x) && !seen.contains(x),
        fresh(snap, seen).no_duplicates(),
    decreases snap.len(),
{
    if snap.len() > 0 {
        let d = snap.drop_last();
        lemma_fresh(d, seen);
        assert(snap =~= d.push(snap.last()));
        let prev = fresh(d, seen);
        if !(seen.contains(snap.last()) || prev.contains(snap.last())) {
            lemma_push_no_duplicates(prev, snap.last());
        }
    }
}

pub proof fn lemma_apply_downs(s: Set<IpNet>, d: Seq<IpNet>)
    ensures
        apply_events(s, downs(d)) == s.difference(d.to_set()),
    decreases d.len(),
{
    if d.len() == 0 {
        assert(s.difference(d.to_set()) =~= s);
    } else {
        assert(downs(d).drop_first() =~= downs(d.drop_first()));
        lemma_apply_downs(s.remove(d[0]), d.drop_first());
        assert(s.remove(d[0]).difference(d.drop_first().to_set()) =~= s.difference(d.to_set()))
            by {
            assert forall|x: IpNet| #[trigger] d.contains(x) <==> x == d[0] || d.drop_first().contains(
                x,
            ) by {
                if d.contains(x) && x != d[0] {
                    let i = choose|i: int| 0 <= i < d.len() && d[i] == x;
                    assert(d.drop_first()[i - 1] == x);
                }
            }
        }
    }
}

pub proof fn lemma_apply_ups(s: Set<IpNet>, u: Seq<IpNet>)
    ensures
        apply_events(s, ups(u)) == s.union(u.to_set()),
    decreases u.len(),
{
    if u.len() == 0 {
        assert(s.union(u.to_set()) =~= s);
    } else {
        assert(ups(u).drop_first() =~= ups(u.drop_first()));
        lemma_apply_ups(s.insert(u[0]), u.drop_first());
        assert(s.insert(u[0]).union(u.drop_first().to_set()) =~= s.union(u.to_set())) by {
            assert forall|x: IpNet| #[trigger] u.contains(x) <==> x == u[0] || u.drop_first().contains(
                x,
            ) by {
                if u.contains(x) && x != u[0] {
                    let i = choose|i: int| 0 <= i < u.len() && u[i] == x;
                    assert(u.drop_first()[i - 1] == x);
                }
            }
        }
    }
}

/// A change keeps the list free of duplicates, moves its set as the change
/// says, and the events it reports move a set the same way.
pub proof fn lemma_notify(cur: Seq<IpNet>, change: IfEvent)
    requires
        cur.no_duplicates(),
    ensures
        notify(cur, change).0.no_duplicates(),
        notify(cur, change).0.to_set() == step(cur.to_set(), change),
        apply_events(cur.to_set(), notify(cur, change).1) == step(cur.to_set(), change),
{
    let (c, e) = notify(cur, change);
    match change {
        IfEvent::Up(n) => {
            if !cur.contains(n) {
                lemma_push_no_duplicates(cur, n);
            }
        },
        IfEvent::Down(n) => {
            if cur.contains(n) {
                lemma_filter_no_duplicates(cur, other_than(n));
                assert forall|x: IpNet| #[trigger] c.contains(x) <==> cur.contains(x) && x != n by {
                    lemma_filter_contains_iff(cur, other_than(n), x);
                }
            }
        },
    }
    assert(c.to_set() =~= step(cur.to_set(), change));
    if e.len() == 1 {
        assert(e.drop_first() =~= Seq::<IfEvent>::empty());
        assert(e[0] == change);
        assert(apply_events(step(cur.to_set(), change), e.drop_first()) == step(cur.to_set(), change));
    } else {
        assert(cur.to_set() =~= step(cur.to_set(), change));
    }
}

pub proof fn lemma_notify_all(cur: Seq<IpNet>, cs: Seq<IfEvent>)
    requires
        cur.no_duplicates(),
    ensures
        notify_all(cur, cs).0.no_duplicates(),
        apply_events(cur.to_set(), notify_all(cur, cs).1) == notify_all(cur, cs).0.to_set(),
    decreases cs.len(),
{
    if cs.len() > 0 {
        let (c1, e1) = notify(cur, cs[0]);
        lemma_notify(cur, cs[0]);
        lemma_notify_all(c1, cs.drop_first());
        let (c2, e2) = notify_all(c1, cs.drop_first());
        lemma_apply_events_concat(cur.to_set(), e1, e2);
    }
}

/// A snapshot leaves the list free of duplicates and holding exactly the
/// snapshot's networks, and the events it reports move the old set to the
/// new one.
pub proof fn lemma_snapshot_diff(cur: Seq<IpNet>, snap: Seq<IpNet>)
    requires
        cur.no_duplicates(),
    ensures
        snapshot_diff(cur, snap).0.no_duplicates(),
        snapshot_diff(cur, snap).0.to_set() == snap.to_set(),
        apply_events(cur.to_set(), snapshot_diff(cur, snap).1) == snapshot_diff(
            cur,
            snap,
        ).0.to_set(),
{
    let k = kept(cur, snap);
    let d = dropped(cur, snap);
    let f = fresh(snap, cur);
    let (c, e) = snapshot_diff(cur, snap);
    lemma_fresh(snap, cur);
    lemma_filter_no_duplicates(cur, listed_in(snap));
    assert forall|x: IpNet| #[trigger] k.contains(x) <==> cur.contains(x) && snap.contains(x) by {
        lemma_filter_contains_iff(cur, listed_in(snap), x);
    }
    assert forall|x: IpNet| #[trigger] d.contains(x) <==> cur.contains(x) && !snap.contains(x) by {
        lemma_filter_contains_iff(cur, unlisted_in(snap), x);
    }
    assert forall|i: int, j: int| 0 <= i < k.len() && 0 <= j < f.len() implies k[i] != f[j] by {
        assert(k.contains(k[i]));
        assert(f.contains(f[j]));
    }
    vstd::seq_lib::lemma_no_dup_in_concat(k, f);
    assert(c.to_set() =~= snap.to_set());
    lemma_apply_events_concat(cur.to_set(), downs(d), ups(f));
    lemma_apply_downs(cur.to_set(), d);
    lemma_apply_ups(cur.to_set().difference(d.to_set()), f);
    assert(cur.to_set().difference(d.to_set()).union(f.to_set()) =~= c.to_set());
}

/// Whether `v` holds `n`.
pub fn contains(v: &[IpNet], n: &IpNet) -> (r: bool)
    ensures
        r == v@.contains(*n),
{
    let mut i: usize = 0;
    while i < v.len()
        invariant
            i <= v@.len(),
            forall|j: int| 0 <= j < i ==> v@[j] != *n,
        decreases v@.len() - i,
    {
        if v[i] == *n {
            assert(v@[i as int] == *n);
            return true;
        }
        i = i + 1;
    }
    false
}

/// `v` without `n`.
pub fn remove_network(v: &[IpNet], n: &IpNet) -> (r: Vec<IpNet>)
    ensures
        r@ == removed(v@, *n),
{
    let mut out: Vec<IpNet> = Vec::new();
    let mut i: usize = 0;
    while i < v.len()
        invariant
            i <= v@.len(),
            out@ == removed(v@.subrange(0, i as int), *n),
        decreases v@.len() - i,
    {
        let ghost before = v@.subrange(0, i as int);
        assert(v@.subrange(0, i + 1) =~= before.push(v@[i as int]));
        proof {
            before.lemma_filter_push(v@[i as int], other_than(*n));
        }
        if v[i] != *n {
            out.push(v[i]);
        }
        i = i + 1;
    }
    assert(v@.subrange(0, v@.len() as int) =~= v@);
    out
}

/// Applies one change reported by the kernel to `cur`; see `notify`.
/// Returns the event it gives, if any.
pub fn apply_change(cur: &mut Vec<IpNet>, change: IfEvent) -> (r: Option<IfEvent>)
    ensures
        notify(old(cur)@, change) == (final(cur)@, match r {
            None => Seq::empty(),
            Some(e) => seq![e],
        }),
{
    match change {
        IfEvent::Up(n) => {
            if contains(cur.as_slice(), &n) {
                None
            } else {
                cur.push(n);
                Some(change)
            }
        },
        IfEvent::Down(n) => {
            if contains(cur.as_slice(), &n) {
                *cur = remove_network(cur.as_slice(), &n);
                Some(change)
            } else {
                None
            }
        },
    }
}

/// Applies the changes `changes` to `cur` in order; see `notify_all`.
/// Returns the events they give.
pub fn apply_changes(cur: &mut Vec<IpNet>, changes: &[IfEvent]) -> (r: Vec<IfEvent>)
    ensures
        notify_all(old(cur)@, changes@) == (final(cur)@, r@),
{
    let mut out: Vec<IfEvent> = Vec::new();
    let mut i: usize = 0;
    assert(changes@.subrange(0, changes@.len() as int) =~= changes@);
    assert(out@ + notify_all(cur@, changes@).1 =~= notify_all(cur@, changes@).1);
    while i < changes.len()
        invariant
            i <= changes@.len(),
            notify_all(old(cur)@, changes@) == (
            notify_all(cur@, changes@.subrange(i as int, changes@.len() as int)).0,
            out@ + notify_all(cur@, changes@.subrange(i as int, changes@.len() as int)).1),
        decreases changes@.len() - i,
    {
        let ghost rest = changes@.subrange(i as int, changes@.len() as int);
        let ghost c0 = cur@;
        let ghost o0 = out@;
        assert(rest.drop_first() =~= changes@.subrange(i + 1, changes@.len() as int));
        assert(rest[0] == changes@[i as int]);
        match apply_change(cur, changes[i]) {
            None => {},
            Some(e) => {
                out.push(e);
            },
        }
        proof {
            let (c1, e1) = notify(c0, rest[0]);
            let (c2, e2) = notify_all(c1, rest.drop_first());
            assert(o0 + (e1 + e2) =~= out@ + e2);
        }
        i = i + 1;
    }
    assert(changes@.subrange(i as int, changes@.len() as int) =~= Seq::<IfEvent>::empty());
    assert(out@ + Seq::<IfEvent>::empty() =~= out@);
    out
}

/// The list that the snapshot `snap` leaves of `cur`, and the events it
/// gives; see `snapshot_diff`.
pub fn diff_snapshot(cur: &[IpNet], snap: &[IpNet]) -> (r: (Vec<IpNet>, Vec<IfEvent>))
    ensures
        snapshot_diff(cur@, snap@) == (r.0@, r.1@),
{
    let mut next: Vec<IpNet> = Vec::new();
    let mut events: Vec<IfEvent> = Vec::new();
    let mut i: usize = 0;
    while i < cur.len()
        invariant
            i <= cur@.len(),
            next@ == kept(cur@.subrange(0, i as int), snap@),
            events@ == downs(dropped(cur@.subrange(0, i as int), snap@)),
        decreases cur@.len() - i,
    {
        let ghost before = cur@.subrange(0, i as int);
        let ghost d0 = dropped(before, snap@);
        assert(cur@.subrange(0, i + 1) =~= before.push(cur@[i as int]));
        proof {
            before.lemma_filter_push(cur@[i as int], listed_in(snap@));
            before.lemma_filter_push(cur@[i as int], unlisted_in(snap@));
        }
        let x = cur[i];
        if contains(snap, &x) {
            next.push(x);
        } else {
            events.push(IfEvent::Down(x));
            assert(downs(d0.push(x)) =~= downs(d0).push(IfEvent::Down(x)));
        }
        i = i + 1;
    }
    assert(cur@.subrange(0, cur@.len() as int) =~= cur@);
    let ghost k = next@;
    let ghost d = events@;
    let mut j: usize = 0;
    while j < snap.len()
        invariant
            j <= snap@.len(),
            k == kept(cur@, snap@),
            d == downs(dropped(cur@, snap@)),
            next@ == k + fresh(snap@.subrange(0, j as int), cur@),
            events@ == d + ups(fresh(snap@.subrange(0, j as int), cur@)),
        decreases snap@.len() - j,
    {
        let ghost before = snap@.subrange(0, j as int);
        let ghost f0 = fresh(before, cur@);
        let y = snap[j];
        assert(snap@.subrange(0, j + 1).drop_last() =~= before);
        assert(snap@.subrange(0, j + 1).last() == y);
        proof {
            lemma_filter_contains_iff(cur@, listed_in(snap@), y);
            assert(snap@.contains(y));
        }
        if !contains(next.as_slice(), &y) {
            next.push(y);
            events.push(IfEvent::Up(y));
            assert(k + f0.push(y) =~= (k + f0).push(y));
            assert(ups(f0.push(y)) =~= ups(f0).push(IfEvent::Up(y)));
            assert(d + ups(f0).push(IfEvent::Up(y)) =~= (d + ups(f0)).push(IfEvent::Up(y)));
        }
        j = j + 1;
    }
    assert(snap@.subrange(0, snap@.len() as int) =~= snap@);
    (next, events)
}

} // verus!

verus! {

pub proof fn lemma_filter_all<A>(s: Seq<A>, p: spec_fn(A) -> bool)
    requires
        forall|i: int| 0 <= i < s.len() ==> p(#[trigger] s[i]),
    ensures
        s.filter(p) == s,
    decreases s.len(),
{
    reveal(Seq::filter);
    if s.len() > 0 {
        lemma_filter_all(s.drop_last(), p);
        assert(s.drop_last().push(s.last()) =~= s);
    }
}

pub proof fn lemma_filter_none<A>(s: Seq<A>, p: spec_fn(A) -> bool)
    requires
        forall|i: int| 0 <= i < s.len() ==> !p(#[trigger] s[i]),
    ensures
        s.filter(p) == Seq::<A>::empty(),
    decreases s.len(),
{
    reveal(Seq::filter);
    if s.len() > 0 {
        lemma_filter_none(s.drop_last(), p);
    }
}

/// Which events `downs(d) + ups(u)` holds: a `Down` for each network of `d`
/// and an `Up` for each network of `u`, none twice when neither list repeats
/// a network.
pub proof fn lemma_downs_ups(d: Seq<IpNet>, u: Seq<IpNet>)
    ensures
        forall|n: IpNet| #[trigger]
            (downs(d) + ups(u)).contains(IfEvent::Down(n)) <==> d.contains(n),
        forall|n: IpNet| #[trigger]
            (downs(d) + ups(u)).contains(IfEvent::Up(n)) <==> u.contains(n),
        d.no_duplicates() && u.no_duplicates() ==> (downs(d) + ups(u)).no_duplicates(),
{
    let e = downs(d) + ups(u);
    assert forall|n: IpNet| #[trigger] e.contains(IfEvent::Down(n)) <==> d.contains(n) by {
        if d.contains(n) {
            let i = choose|i: int| 0 <= i < d.len() && d[i] == n;
            assert(e[i] == IfEvent::Down(n));
        }
        if e.contains(IfEvent::Down(n)) {
            let i = choose|i: int| 0 <= i < e.len() && e[i] == IfEvent::Down(n);
            assert(i < d.len());
            assert(d[i] == n);
        }
    }
    assert forall|n: IpNet| #[trigger] e.contains(IfEvent::Up(n)) <==> u.contains(n) by {
        if u.contains(n) {
            let i = choose|i: int| 0 <= i < u.len() && u[i] == n;
            assert(e[d.len() + i] == IfEvent::Up(n));
        }
        if e.contains(IfEvent::Up(n)) {
            let i = choose|i: int| 0 <= i < e.len() && e[i] == IfEvent::Up(n);
            assert(i >= d.len());
            assert(u[i - d.len()] == n);
        }
    }
    if d.no_duplicates() && u.no_duplicates() {
        assert forall|i: int, j: int| 0 <= i < e.len() && 0 <= j < e.len() && i != j implies e[i]
            != e[j] by {
            if i < d.len() && j < d.len() {
                assert(d[i] != d[j]);
            } else if i >= d.len() && j >= d.len() {
                assert(u[i - d.len()] != u[j - d.len()]);
            }
        }
    }
}

} // verus!
