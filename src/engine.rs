//! The reconciliation engine: the authoritative list of networks believed
//! present, the queue of events not yet delivered, and the dump protocol
//! that brings the list back in step with the kernel.
use crate::aligned_buffer::MAX_SPAN;
use crate::diff::{
    apply_change, apply_changes, apply_events, diff_snapshot, lemma_apply_events_concat, lemma_notify,
    lemma_notify_all, lemma_snapshot_diff, notify, notify_all, snapshot_diff,
};
use crate::net::{IfEvent, IpNet};
use crate::netlink::messages;
use crate::parse::{
    dump_part, notification_changes, parse_dump, parse_notification, Table, WatchError,
};
use crate::transport::{
    dump_request, dump_request_body, dump_request_header, encode_nlmsghdr, encode_rtmsg, next_seq,
    next_seq_spec,
};
use std::collections::VecDeque;
use vstd::prelude::*;

verus! {

/// Size of the receive buffer at start.
pub const INITIAL_BUFFER: usize = 4096;

/// The receive buffer never grows beyond this many bytes.
pub const MAX_BUFFER: usize = 0x40000;

/// Where the engine stands with the kernel's full dump.
#[derive(Clone, Copy, Debug, PartialEq, Eq, Structural)]
pub enum Phase {
    /// A dump must be requested: at start, and after a desync.
    NeedsDump,
    /// A dump was requested; its messages are being collected.
    Dumping,
    /// In step with the kernel: datagrams are notifications.
    Idle,
}

/// The engine's state, as its contracts speak of it.
pub struct ReconcilerModel {
    /// The networks believed present, in the order they were added.
    pub current: Seq<IpNet>,
    /// The networks that the events delivered so far announce.
    pub reported: Seq<IpNet>,
    /// The events decided but not delivered yet, oldest first.
    pub queue: Seq<IfEvent>,
    /// The networks listed so far by the dump under way.
    pub snapshot: Seq<IpNet>,
    pub phase: Phase,
    /// The kernel table watched.
    pub table: Table,
    /// Sequence number of the latest dump request.
    pub seq: u32,
    /// Size of the buffer that datagrams are to be received into.
    pub buffer_size: nat,
}

impl ReconcilerModel {
    /// Both lists are free of duplicates, and delivering the queued events
    /// brings the reported networks to the current ones.
    pub open spec fn wf(self) -> bool {
        &&& self.current.no_duplicates()
        &&& self.reported.no_duplicates()
        &&& apply_events(self.reported.to_set(), self.queue) == self.current.to_set()
        &&& INITIAL_BUFFER <= self.buffer_size <= MAX_BUFFER
    }
}

/// The state of an engine that watches `table` and knows nothing yet.
pub open spec fn empty_model(table: Table) -> ReconcilerModel {
    ReconcilerModel {
        current: Seq::empty(),
        reported: Seq::empty(),
        queue: Seq::empty(),
        snapshot: Seq::empty(),
        phase: Phase::NeedsDump,
        table,
        seq: 0,
        buffer_size: INITIAL_BUFFER as nat,
    }
}

/// The buffer size after one more desync: doubled, up to `MAX_BUFFER`.
pub open spec fn grown(size: nat) -> nat {
    if size * 2 > MAX_BUFFER {
        MAX_BUFFER as nat
    } else {
        size * 2
    }
}

/// Delivering the oldest queued event, if there is one.
pub open spec fn pop_spec(m: ReconcilerModel) -> (ReconcilerModel, Option<IfEvent>) {
    if m.queue.len() == 0 {
        (m, None)
    } else {
        let e = m.queue[0];
        (ReconcilerModel { queue: m.queue.drop_first(), reported: notify(m.reported, e).0, ..m }, Some(e))
    }
}

/// A desync: the queued events are stale and dropped, and with them the
/// decisions they announced, so that the current networks go back to the
/// reported ones; the buffer grows and a new dump is needed. Once the
/// buffer is at its largest, the desync is also returned.
pub open spec fn desync_spec(m: ReconcilerModel) -> (ReconcilerModel, Result<(), WatchError>) {
    (
        ReconcilerModel {
            current: m.reported,
            queue: Seq::empty(),
            snapshot: Seq::empty(),
            phase: Phase::NeedsDump,
            buffer_size: grown(m.buffer_size),
            ..m
        },
        if m.buffer_size >= MAX_BUFFER {
            Err(WatchError::Desync)
        } else {
            Ok(())
        },
    )
}

/// A complete snapshot diffed against the current networks; see
/// `snapshot_diff`. Its events join the queue.
pub open spec fn snapshot_spec(m: ReconcilerModel, snap: Seq<IpNet>) -> ReconcilerModel {
    ReconcilerModel {
        current: snapshot_diff(m.current, snap).0,
        queue: m.queue + snapshot_diff(m.current, snap).1,
        ..m
    }
}

/// A dump request: the next sequence number, and an empty snapshot.
pub open spec fn start_dump_spec(m: ReconcilerModel) -> ReconcilerModel {
    ReconcilerModel { seq: next_seq_spec(m.seq), phase: Phase::Dumping, snapshot: Seq::empty(), ..m }
}

/// One received datagram. While a dump is under way, it is read as a part of
/// the dump, and the dump's end diffs the whole snapshot. Otherwise it is
/// read as notifications, applied one by one; see `notify_all`. A desync
/// goes as `desync_spec` says; a protocol error leaves the state as it was.
pub open spec fn datagram_spec(m: ReconcilerModel, data: Seq<u8>) -> (
    ReconcilerModel,
    Result<(), WatchError>,
) {
    if m.phase == Phase::Dumping {
        match dump_part(messages(data), m.seq, m.table) {
            Ok((ns, done)) => if done {
                (
                    ReconcilerModel {
                        snapshot: Seq::empty(),
                        phase: Phase::Idle,
                        ..snapshot_spec(m, m.snapshot + ns)
                    },
                    Ok(()),
                )
            } else {
                (ReconcilerModel { snapshot: m.snapshot + ns, ..m }, Ok(()))
            },
            Err(WatchError::Desync) => desync_spec(m),
            Err(e) => (m, Err(e)),
        }
    } else {
        match notification_changes(messages(data), m.table) {
            Ok(cs) => (
                ReconcilerModel {
                    current: notify_all(m.current, cs).0,
                    queue: m.queue + notify_all(m.current, cs).1,
                    ..m
                },
                Ok(()),
            ),
            Err(WatchError::Desync) => desync_spec(m),
            Err(e) => (m, Err(e)),
        }
    }
}

/// The engine's fields; `Reconciler` wraps them with their invariant.
struct State {
    current: Vec<IpNet>,
    reported: Vec<IpNet>,
    queue: VecDeque<IfEvent>,
    snapshot: Vec<IpNet>,
    phase: Phase,
    table: Table,
    seq: u32,
    buffer_size: usize,
}

impl View for State {
    type V = ReconcilerModel;

    closed spec fn view(&self) -> ReconcilerModel {
        ReconcilerModel {
            current: self.current@,
            reported: self.reported@,
            queue: self.queue@,
            snapshot: self.snapshot@,
            phase: self.phase,
            table: self.table,
            seq: self.seq,
            buffer_size: self.buffer_size as nat,
        }
    }
}

fn copy_networks(v: &[IpNet]) -> (r: Vec<IpNet>)
    ensures
        r@ == v@,
{
    let mut out: Vec<IpNet> = Vec::new();
    let mut i: usize = 0;
    while i < v.len()
        invariant
            i <= v@.len(),
            out@ == v@.subrange(0, i as int),
        decreases v@.len() - i,
    {
        out.push(v[i]);
        i = i + 1;
        assert(out@ =~= v@.subrange(0, i as int));
    }
    assert(v@.subrange(0, v@.len() as int) =~= v@);
    out
}

impl State {
    /// The state of an engine that watches the interface addresses and
    /// knows nothing yet.
    fn new() -> (r: State)
        ensures
            r@ == empty_model(Table::Addresses),
            r@.wf(),
    {
        State::with_table(Table::Addresses)
    }

    /// The state of an engine that watches `table` and knows nothing yet.
    fn with_table(table: Table) -> (r: State)
        ensures
            r@ == empty_model(table),
            r@.wf(),
    {
        let r = State {
            current: Vec::new(),
            reported: Vec::new(),
            queue: VecDeque::new(),
            snapshot: Vec::new(),
            phase: Phase::NeedsDump,
            table,
            seq: 0,
            buffer_size: INITIAL_BUFFER,
        };
        assert(r@.current.to_set() =~= Set::<IpNet>::empty());
        assert(r@.reported.to_set() =~= Set::<IpNet>::empty());
        r
    }

    /// Delivers the oldest queued event; see `pop_spec`.
    fn pop_event(&mut self) -> (r: Option<IfEvent>)
        requires
            old(self)@.wf(),
        ensures
            (final(self)@, r) == pop_spec(old(self)@),
            final(self)@.wf(),
    {
        let ghost m = self@;
        match self.queue.pop_front() {
            None => None,
            Some(e) => {
                proof {
                    lemma_notify(m.reported, e);
                    assert(self.queue@ =~= m.queue.drop_first());
                }
                apply_change(&mut self.reported, e);
                Some(e)
            },
        }
    }

    /// Starts a dump of the watched table: moves to the next sequence number
    /// and returns the request to send from port `pid`.
    fn start_dump(&mut self, pid: u32) -> (r: Vec<u8>)
        requires
            old(self)@.wf(),
        ensures
            final(self)@ == start_dump_spec(old(self)@),
            final(self)@.wf(),
            r@ == encode_nlmsghdr(
                dump_request_header(old(self)@.table.spec_get_type(), final(self)@.seq, pid),
            )
                + encode_rtmsg(dump_request_body()),
    {
        self.seq = next_seq(self.seq);
        self.phase = Phase::Dumping;
        self.snapshot = Vec::new();
        dump_request(self.table.get_type(), self.seq, pid)
    }

    /// Diffs a complete snapshot against the current networks; see
    /// `snapshot_spec`.
    fn apply_snapshot(&mut self, snapshot: &[IpNet])
        requires
            old(self)@.wf(),
        ensures
            final(self)@ == snapshot_spec(old(self)@, snapshot@),
            final(self)@.wf(),
    {
        let ghost m = self@;
        let (next, events) = diff_snapshot(self.current.as_slice(), snapshot);
        self.current = next;
        self.push_events(&events);
        proof {
            lemma_snapshot_diff(m.current, snapshot@);
            lemma_apply_events_concat(m.reported.to_set(), m.queue, events@);
        }
    }

    fn push_events(&mut self, events: &Vec<IfEvent>)
        ensures
            final(self)@ == (ReconcilerModel { queue: old(self)@.queue + events@, ..old(self)@ }),
    {
        let ghost q0 = self.queue@;
        let mut i: usize = 0;
        while i < events.len()
            invariant
                i <= events@.len(),
                self.queue@ == q0 + events@.subrange(0, i as int),
                self@ == (ReconcilerModel { queue: self.queue@, ..old(self)@ }),
            decreases events@.len() - i,
        {
            self.queue.push_back(events[i]);
            i = i + 1;
            assert(self.queue@ =~= q0 + events@.subrange(0, i as int));
        }
        assert(events@.subrange(0, events@.len() as int) =~= events@);
    }

    /// Handles a desync; see `desync_spec`.
    fn handle_desync(&mut self) -> (r: Result<(), WatchError>)
        requires
            old(self)@.wf(),
        ensures
            (final(self)@, r) == desync_spec(old(self)@),
            final(self)@.wf(),
    {
        let at_limit = self.buffer_size >= MAX_BUFFER;
        self.queue.clear();
        self.current = copy_networks(self.reported.as_slice());
        self.snapshot = Vec::new();
        self.phase = Phase::NeedsDump;
        self.buffer_size = if self.buffer_size > MAX_BUFFER / 2 {
            MAX_BUFFER
        } else {
            self.buffer_size * 2
        };
        if at_limit {
            Err(WatchError::Desync)
        } else {
            Ok(())
        }
    }

    /// Handles one datagram received from the kernel; see `datagram_spec`.
    fn handle_datagram(&mut self, data: &[u8]) -> (r: Result<(), WatchError>)
        requires
            old(self)@.wf(),
            data@.len() < MAX_SPAN,
        ensures
            (final(self)@, r) == datagram_spec(old(self)@, data@),
            final(self)@.wf(),
    {
        let ghost m = self@;
        match self.phase {
            Phase::Dumping => match parse_dump(data, self.seq, self.table) {
                Ok(part) => {
                    let ghost s0 = self.snapshot@;
                    let mut i: usize = 0;
                    while i < part.networks.len()
                        invariant
                            i <= part.networks@.len(),
                            self.snapshot@ == s0 + part.networks@.subrange(0, i as int),
                            self@ == (ReconcilerModel { snapshot: self.snapshot@, ..m }),
                        decreases part.networks@.len() - i,
                    {
                        self.snapshot.push(part.networks[i]);
                        i = i + 1;
                        assert(self.snapshot@ =~= s0 + part.networks@.subrange(0, i as int));
                    }
                    assert(part.networks@.subrange(0, part.networks@.len() as int) =~= part.networks@);
                    if part.done {
                        let mut snap: Vec<IpNet> = Vec::new();
                        std::mem::swap(&mut snap, &mut self.snapshot);
                        self.apply_snapshot(snap.as_slice());
                        self.phase = Phase::Idle;
                    }
                    Ok(())
                },
                Err(WatchError::Desync) => self.handle_desync(),
                Err(e) => Err(e),
            },
            _ => match parse_notification(data, self.table) {
                Ok(changes) => {
                    let events = apply_changes(&mut self.current, changes.as_slice());
                    self.push_events(&events);
                    proof {
                        lemma_notify_all(m.current, changes@);
                        lemma_apply_events_concat(m.reported.to_set(), m.queue, events@);
                    }
                    Ok(())
                },
                Err(WatchError::Desync) => self.handle_desync(),
                Err(e) => Err(e),
            },
        }
    }
}


/// Keeps the host's networks in step with the kernel and queues the events
/// that tell of their changes.
pub struct Reconciler {
    state: State,
}

impl View for Reconciler {
    type V = ReconcilerModel;

    closed spec fn view(&self) -> ReconcilerModel {
        self.state@
    }
}

impl Reconciler {
    #[verifier::type_invariant]
    spec fn inv(self) -> bool {
        self.state@.wf()
    }

    /// An engine that watches the interface addresses, knows no network yet
    /// and needs a first dump.
    pub fn new() -> (r: Reconciler)
        ensures
            r@ == empty_model(Table::Addresses),
            r@.wf(),
    {
        Reconciler { state: State::new() }
    }

    /// An engine that watches `table`, knows no network yet and needs a
    /// first dump.
    pub fn with_table(table: Table) -> (r: Reconciler)
        ensures
            r@ == empty_model(table),
            r@.wf(),
    {
        Reconciler { state: State::with_table(table) }
    }

    /// The kernel table watched.
    pub fn table(&self) -> (r: Table)
        ensures
            r == self@.table,
    {
        self.state.table
    }

    /// The networks believed present.
    pub fn networks(&self) -> (r: &[IpNet])
        ensures
            r@ == self@.current,
    {
        self.state.current.as_slice()
    }

    /// Size of the buffer that datagrams are to be received into.
    pub fn buffer_size(&self) -> (r: usize)
        ensures
            r == self@.buffer_size,
    {
        self.state.buffer_size
    }

    /// Whether a dump must be requested.
    pub fn wants_dump(&self) -> (r: bool)
        ensures
            r == (self@.phase == Phase::NeedsDump),
    {
        match self.state.phase {
            Phase::NeedsDump => true,
            _ => false,
        }
    }

    /// Delivers the oldest queued event; see `pop_spec`.
    pub fn pop_event(&mut self) -> (r: Option<IfEvent>)
        ensures
            old(self)@.wf(),
            (final(self)@, r) == pop_spec(old(self)@),
            final(self)@.wf(),
    {
        proof {
            use_type_invariant(&*self);
        }
        let mut st = State::new();
        std::mem::swap(&mut st, &mut self.state);
        let r = st.pop_event();
        self.state = st;
        r
    }

    /// Starts a dump of the watched table: moves to the next sequence number
    /// and returns the request to send from port `pid`.
    pub fn start_dump(&mut self, pid: u32) -> (r: Vec<u8>)
        ensures
            old(self)@.wf(),
            final(self)@ == start_dump_spec(old(self)@),
            final(self)@.wf(),
            r@ == encode_nlmsghdr(
                dump_request_header(old(self)@.table.spec_get_type(), final(self)@.seq, pid),
            ) + encode_rtmsg(dump_request_body()),
    {
        proof {
            use_type_invariant(&*self);
        }
        let mut st = State::new();
        std::mem::swap(&mut st, &mut self.state);
        let r = st.start_dump(pid);
        self.state = st;
        r
    }

    /// Diffs a complete snapshot against the current networks; see
    /// `snapshot_spec`.
    pub fn apply_snapshot(&mut self, snapshot: &[IpNet])
        ensures
            old(self)@.wf(),
            final(self)@ == snapshot_spec(old(self)@, snapshot@),
            final(self)@.wf(),
    {
        proof {
            use_type_invariant(&*self);
        }
        let mut st = State::new();
        std::mem::swap(&mut st, &mut self.state);
        st.apply_snapshot(snapshot);
        self.state = st;
    }

    /// Handles a desync; see `desync_spec`.
    pub fn handle_desync(&mut self) -> (r: Result<(), WatchError>)
        ensures
            old(self)@.wf(),
            (final(self)@, r) == desync_spec(old(self)@),
            final(self)@.wf(),
    {
        proof {
            use_type_invariant(&*self);
        }
        let mut st = State::new();
        std::mem::swap(&mut st, &mut self.state);
        let r = st.handle_desync();
        self.state = st;
        r
    }

    /// Handles one datagram received from the kernel; see `datagram_spec`.
    pub fn handle_datagram(&mut self, data: &[u8]) -> (r: Result<(), WatchError>)
        requires
            data@.len() < MAX_SPAN,
        ensures
            old(self)@.wf(),
            (final(self)@, r) == datagram_spec(old(self)@, data@),
            final(self)@.wf(),
    {
        proof {
            use_type_invariant(&*self);
        }
        let mut st = State::new();
        std::mem::swap(&mut st, &mut self.state);
        let r = st.handle_datagram(data);
        self.state = st;
        r
    }
}

} // verus!

verus! {

/// Diffing a snapshot and then a second one: the second reports, each once,
/// a `Down` for every network that the first listed and the second does
/// not, and an `Up` for every network that the second lists and the first
/// did not; networks in both or in neither give no event.
pub proof fn lemma_second_snapshot_reports_symmetric_difference(
    m: ReconcilerModel,
    s1: Seq<IpNet>,
    s2: Seq<IpNet>,
)
    requires
        m.wf(),
    ensures
        ({
            let m1 = snapshot_spec(m, s1);
            let evs = snapshot_diff(m1.current, s2).1;
            &&& snapshot_spec(m1, s2).queue == m1.queue + evs
            &&& evs.no_duplicates()
            &&& forall|n: IpNet| #[trigger]
                evs.contains(IfEvent::Down(n)) <==> s1.contains(n) && !s2.contains(n)
            &&& forall|n: IpNet| #[trigger]
                evs.contains(IfEvent::Up(n)) <==> s2.contains(n) && !s1.contains(n)
        }),
{
    let c1 = snapshot_diff(m.current, s1).0;
    lemma_snapshot_diff(m.current, s1);
    assert forall|n: IpNet| c1.contains(n) <==> s1.contains(n) by {
        assert(c1.to_set().contains(n) == s1.to_set().contains(n));
    }
    let d = crate::diff::dropped(c1, s2);
    let f = crate::diff::fresh(s2, c1);
    crate::diff::lemma_fresh(s2, c1);
    crate::diff::lemma_filter_no_duplicates(c1, crate::diff::unlisted_in(s2));
    assert forall|n: IpNet| #[trigger] d.contains(n) <==> c1.contains(n) && !s2.contains(n) by {
        crate::diff::lemma_filter_contains_iff(c1, crate::diff::unlisted_in(s2), n);
    }
    crate::diff::lemma_downs_ups(d, f);
}

/// A snapshot diffed twice in succession, the kernel's state being the
/// same: the second time changes nothing and queues no event.
pub proof fn lemma_resync_idempotent(m: ReconcilerModel, s: Seq<IpNet>)
    requires
        m.wf(),
    ensures
        snapshot_spec(snapshot_spec(m, s), s) == snapshot_spec(m, s),
        snapshot_diff(snapshot_spec(m, s).current, s).1 == Seq::<IfEvent>::empty(),
{
    let c1 = snapshot_diff(m.current, s).0;
    lemma_snapshot_diff(m.current, s);
    assert forall|n: IpNet| c1.contains(n) <==> s.contains(n) by {
        assert(c1.to_set().contains(n) == s.to_set().contains(n));
    }
    assert forall|i: int| 0 <= i < c1.len() implies #[trigger] crate::diff::listed_in(s)(c1[i]) by {
        assert(c1.contains(c1[i]));
    }
    crate::diff::lemma_filter_all(c1, crate::diff::listed_in(s));
    assert forall|i: int| 0 <= i < c1.len() implies !#[trigger] crate::diff::unlisted_in(s)(
        c1[i],
    ) by {
        assert(c1.contains(c1[i]));
    }
    crate::diff::lemma_filter_none(c1, crate::diff::unlisted_in(s));
    let f = crate::diff::fresh(s, c1);
    crate::diff::lemma_fresh(s, c1);
    if f.len() > 0 {
        assert(f.contains(f[0]));
    }
    assert(f =~= Seq::<IpNet>::empty());
    assert(c1 + f =~= c1);
    let evs = snapshot_diff(c1, s).1;
    assert(evs =~= Seq::<IfEvent>::empty());
    assert(snapshot_spec(m, s).queue + evs =~= snapshot_spec(m, s).queue);
}

/// A desync followed by a complete dump: the current networks are then
/// exactly those of the dump, and the queue holds only the events that move
/// the networks already reported to those of the dump. Nothing decided
/// before the desync and not yet delivered leaves a trace.
pub proof fn lemma_desync_then_dump(m: ReconcilerModel, dump: Seq<IpNet>)
    requires
        m.wf(),
    ensures
        ({
            let m3 = snapshot_spec(start_dump_spec(desync_spec(m).0), dump);
            &&& m3.current.to_set() == dump.to_set()
            &&& m3.queue == snapshot_diff(m.reported, dump).1
            &&& m3.reported == m.reported
            &&& forall|n: IpNet| #[trigger]
                m3.queue.contains(IfEvent::Down(n)) <==> m.reported.contains(n) && !dump.contains(n)
            &&& forall|n: IpNet| #[trigger]
                m3.queue.contains(IfEvent::Up(n)) <==> dump.contains(n) && !m.reported.contains(n)
        }),
{
    let m1 = desync_spec(m).0;
    let m2 = start_dump_spec(m1);
    lemma_snapshot_diff(m.reported, dump);
    assert(m2.queue + snapshot_diff(m.reported, dump).1 =~= snapshot_diff(m.reported, dump).1);
    let d = crate::diff::dropped(m.reported, dump);
    let f = crate::diff::fresh(dump, m.reported);
    crate::diff::lemma_fresh(dump, m.reported);
    assert forall|n: IpNet| #[trigger] d.contains(n) <==> m.reported.contains(n) && !dump.contains(
        n,
    ) by {
        crate::diff::lemma_filter_contains_iff(m.reported, crate::diff::unlisted_in(dump), n);
    }
    crate::diff::lemma_downs_ups(d, f);
}

} // verus!

verus! {

/// Two complete dumps in succession that list the same networks, each in a
/// single datagram: the second changes neither the current networks nor the
/// queue.
pub proof fn lemma_repeated_dump_is_silent(
    m: ReconcilerModel,
    first: Seq<u8>,
    second: Seq<u8>,
    ns: Seq<IpNet>,
)
    requires
        m.wf(),
        m.phase == Phase::Dumping,
        m.snapshot == Seq::<IpNet>::empty(),
        dump_part(messages(first), m.seq, m.table) == Ok::<(Seq<IpNet>, bool), WatchError>(
            (ns, true),
        ),
        dump_part(
            messages(second),
            start_dump_spec(datagram_spec(m, first).0).seq,
            m.table,
        ) == Ok::<(Seq<IpNet>, bool), WatchError>((ns, true)),
    ensures
        ({
            let m1 = datagram_spec(m, first).0;
            let m2 = datagram_spec(start_dump_spec(m1), second).0;
            &&& m2.current == m1.current
            &&& m2.queue == m1.queue
            &&& m1.current.to_set() == ns.to_set()
        }),
{
    assert(m.snapshot + ns =~= ns);
    lemma_resync_idempotent(m, ns);
    lemma_snapshot_diff(m.current, ns);
    let m1 = datagram_spec(m, first).0;
    let m2s = start_dump_spec(m1);
    assert(m2s.snapshot + ns =~= ns);
}

} // verus!
