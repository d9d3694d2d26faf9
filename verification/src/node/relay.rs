//! The relay between logical streams and sockets.
//!
//! A relay knows which streams are open, and where their data goes. It is told what
//! came out of the tunnel and what came out of a socket, and says what to do.

use super::socks::{StateView, StepView};
use crate::shaping::cadence;
use crate::shaping::cadence::Cadence;
use crate::transport::mux;
use crate::transport::mux::{EventView, MuxEvent};
use crate::wire::address::{Addr, AddrView, AddressFrame, AddressView, Cmd};
use rand::rngs::StdRng;
use std::collections::HashMap;
use vstd::prelude::*;

verus! {

/// Which end of the tunnel this is.
#[derive(Debug, Clone, Copy, PartialEq, Eq, Structural)]
pub enum Role {
    Server,
    Client,
}

/// How many bytes went up and came down, wrapping around at the end of their range.
#[derive(Debug, Clone, Copy, PartialEq, Eq, Structural)]
pub struct TunnelStats {
    up: u64,
    down: u64,
}

/// The sum of two counts, wrapping around.
pub open spec fn wrapped(a: u64, n: nat) -> u64 {
    ((a + n) % 0x1_0000_0000_0000_0000) as u64
}

impl TunnelStats {
    pub closed spec fn total_up(self) -> u64 {
        self.up
    }

    pub closed spec fn total_down(self) -> u64 {
        self.down
    }

    /// Counts from zero.
    pub fn new() -> (s: Self)
        ensures
            s.total_up() == 0,
            s.total_down() == 0,
    {
        TunnelStats { up: 0, down: 0 }
    }

    /// What went up.
    pub fn bytes_up(&self) -> (n: u64)
        ensures
            n == self.total_up(),
    {
        self.up
    }

    /// What came down.
    pub fn bytes_down(&self) -> (n: u64)
        ensures
            n == self.total_down(),
    {
        self.down
    }

    /// Counts what goes up.
    pub fn add_up(&mut self, n: usize)
        ensures
            final(self).total_up() == wrapped(old(self).total_up(), n as nat),
            final(self).total_down() == old(self).total_down(),
    {
        self.up = self.up.wrapping_add(n as u64);
    }

    /// Counts what comes down.
    pub fn add_down(&mut self, n: usize)
        ensures
            final(self).total_down() == wrapped(old(self).total_down(), n as nat),
            final(self).total_up() == old(self).total_up(),
    {
        self.down = self.down.wrapping_add(n as u64);
    }
}

impl Default for TunnelStats {
    fn default() -> (s: Self)
        ensures
            s.total_up() == 0,
            s.total_down() == 0,
    {
        TunnelStats::new()
    }
}

/// What to do about something that came out of the tunnel.
#[derive(Debug, Clone, PartialEq, Eq)]
pub enum RelayAction {
    /// Connect to the target of a new stream; report with `register` or
    /// `connect_failed`.
    Connect(AddressFrame),
    /// Hand data to the sink of its stream.
    Deliver { stream_id: u16, data: Vec<u8> },
    /// Nothing.
    Nothing,
}

/// What an action says.
pub enum ActionView {
    Connect(AddressView),
    Deliver { stream_id: u16, data: Seq<u8> },
    Nothing,
}

impl View for RelayAction {
    type V = ActionView;

    open spec fn view(&self) -> ActionView {
        match self {
            RelayAction::Connect(af) => ActionView::Connect(af@),
            RelayAction::Deliver { stream_id, data } => ActionView::Deliver {
                stream_id: *stream_id,
                data: data@,
            },
            RelayAction::Nothing => ActionView::Nothing,
        }
    }
}

/// What reading from a socket gave.
#[derive(Debug, Clone, PartialEq, Eq)]
pub enum SocketRead {
    /// Some bytes.
    Data(Vec<u8>),
    /// The end.
    Eof,
    /// An error.
    Failed,
}

/// What a relay holds: its role, a sink for each open stream, the counts, whether data
/// went up since it was last asked, and the number of the next stream.
pub struct RelayView<T> {
    pub role: Role,
    pub sinks: Map<u16, T>,
    pub up: u64,
    pub down: u64,
    pub active: bool,
    pub next_id: u16,
}

impl<T> RelayView<T> {
    /// What to do about an event out of the tunnel.
    pub open spec fn action(self, ev: EventView) -> ActionView {
        match ev {
            EventView::Open(af) => if self.role == Role::Server {
                ActionView::Connect(af)
            } else {
                ActionView::Nothing
            },
            EventView::Data { stream_id, data } => if self.sinks.contains_key(stream_id) {
                ActionView::Deliver { stream_id, data }
            } else {
                ActionView::Nothing
            },
            _ => ActionView::Nothing,
        }
    }

    /// The relay behind that event: data is counted whether or not its stream is open,
    /// and a stream that is closed has no sink any more.
    pub open spec fn after_event(self, ev: EventView) -> RelayView<T> {
        match ev {
            EventView::Data { stream_id, data } => RelayView {
                down: wrapped(self.down, data.len()),
                ..self
            },
            EventView::Close { stream_id } => RelayView {
                sinks: self.sinks.remove(stream_id),
                ..self
            },
            _ => self,
        }
    }

    /// With a sink for a stream.
    pub open spec fn with_sink(self, stream_id: u16, sink: T) -> RelayView<T> {
        RelayView { sinks: self.sinks.insert(stream_id, sink), ..self }
    }

    /// Without the sink of a stream.
    pub open spec fn without_sink(self, stream_id: u16) -> RelayView<T> {
        RelayView { sinks: self.sinks.remove(stream_id), ..self }
    }

    /// Without any sink.
    pub open spec fn without_sinks(self) -> RelayView<T> {
        RelayView { sinks: Map::<u16, T>::empty(), ..self }
    }

    /// Behind something that came out of a socket: data counts, and as activity.
    pub open spec fn after_read(self, read: SocketRead) -> RelayView<T> {
        match read {
            SocketRead::Data(data) => RelayView {
                up: wrapped(self.up, data@.len()),
                active: true,
                ..self
            },
            _ => self,
        }
    }

    /// Behind an opened stream.
    pub open spec fn after_open(self) -> RelayView<T> {
        RelayView { next_id: id_after(self.next_id), ..self }
    }

    /// Whether a sign of life is due when the rhythm asks.
    pub open spec fn is_idle(self, fills_idle: bool) -> bool {
        fills_idle && !self.active
    }

    /// Behind that question.
    pub open spec fn after_tick(self, fills_idle: bool) -> RelayView<T> {
        RelayView { active: self.active && !fills_idle, ..self }
    }
}

/// What to send about something that came out of a socket, and whether to go on reading.
pub open spec fn read_outcome(stream_id: u16, read: SocketRead) -> (EventView, bool) {
    match read {
        SocketRead::Data(data) => (EventView::Data { stream_id, data: data@ }, true),
        _ => (EventView::Close { stream_id }, false),
    }
}

/// The relay of one tunnel. A sink is wherever the data of a stream goes.
pub struct Relay<T> {
    role: Role,
    sinks: HashMap<u16, T>,
    stats: TunnelStats,
    active: bool,
    next_id: u16,
}

impl<T> View for Relay<T> {
    type V = RelayView<T>;

    closed spec fn view(&self) -> RelayView<T> {
        RelayView {
            role: self.role,
            sinks: self.sinks@,
            up: self.stats.total_up(),
            down: self.stats.total_down(),
            active: self.active,
            next_id: self.next_id,
        }
    }
}

impl<T> Relay<T> {
    /// A relay without streams. The first stream gets the number 1.
    pub fn new(role: Role) -> (r: Self)
        ensures
            r@ == fresh_relay::<T>(role),
    {
        Relay {
            role,
            sinks: HashMap::new(),
            stats: TunnelStats::new(),
            active: false,
            next_id: 1,
        }
    }

    /// Something came out of the tunnel.
    pub fn on_event(&mut self, ev: MuxEvent) -> (a: RelayAction)
        ensures
            a@ == old(self)@.action(ev@),
            final(self)@ == old(self)@.after_event(ev@),
    {
        broadcast use vstd::std_specs::hash::group_hash_axioms;

        match ev {
            MuxEvent::Open(af) => {
                if self.role == Role::Server {
                    RelayAction::Connect(af)
                } else {
                    RelayAction::Nothing
                }
            },
            MuxEvent::Data { stream_id, data } => {
                self.stats.add_down(data.len());
                if self.sinks.contains_key(&stream_id) {
                    RelayAction::Deliver { stream_id, data }
                } else {
                    RelayAction::Nothing
                }
            },
            MuxEvent::Close { stream_id } => {
                self.sinks.remove(&stream_id);
                assert(self.sinks@ =~= old(self).sinks@.remove(stream_id));
                RelayAction::Nothing
            },
            MuxEvent::KeepAlive => RelayAction::Nothing,
        }
    }

    /// Where the data of a stream goes.
    pub fn sink(&self, stream_id: u16) -> (s: Option<&T>)
        ensures
            match s {
                Some(t) => self@.sinks.contains_key(stream_id) && *t == self@.sinks[stream_id],
                None => !self@.sinks.contains_key(stream_id),
            },
    {
        broadcast use vstd::std_specs::hash::group_hash_axioms;

        self.sinks.get(&stream_id)
    }

    /// A socket was connected to a stream.
    pub fn register(&mut self, stream_id: u16, sink: T)
        ensures
            final(self)@ == old(self)@.with_sink(stream_id, sink),
    {
        broadcast use vstd::std_specs::hash::group_hash_axioms;

        self.sinks.insert(stream_id, sink);
    }

    /// A target could not be reached: what to tell the other end.
    pub fn connect_failed(&self, stream_id: u16) -> (ev: MuxEvent)
        ensures
            ev@ == refusal(stream_id),
    {
        MuxEvent::Close { stream_id }
    }

    /// Something came out of a socket: what to send, and whether to go on reading. Data
    /// counts as activity; the end and an error close the stream.
    pub fn on_socket_read(&mut self, stream_id: u16, read: SocketRead) -> (r: (MuxEvent, bool))
        ensures
            (r.0@, r.1) == read_outcome(stream_id, read),
            final(self)@ == old(self)@.after_read(read),
    {
        match read {
            SocketRead::Data(data) => {
                self.active = true;
                self.stats.add_up(data.len());
                (MuxEvent::Data { stream_id, data }, true)
            },
            SocketRead::Eof => (MuxEvent::Close { stream_id }, false),
            SocketRead::Failed => (MuxEvent::Close { stream_id }, false),
        }
    }

    /// A socket is done: its stream has no sink any more.
    pub fn stream_ended(&mut self, stream_id: u16)
        ensures
            final(self)@ == old(self)@.without_sink(stream_id),
    {
        broadcast use vstd::std_specs::hash::group_hash_axioms;

        self.sinks.remove(&stream_id);
        assert(self.sinks@ =~= old(self).sinks@.remove(stream_id));
    }

    /// The tunnel is done: no stream has a sink any more.
    pub fn tunnel_ended(&mut self)
        ensures
            final(self)@ == old(self)@.without_sinks(),
    {
        self.sinks.clear();
    }

    /// Opens a stream to a target: its number, and what to send.
    pub fn open(&mut self, addr: Addr, port: u16) -> (r: (u16, MuxEvent))
        ensures
            r.0 == old(self)@.next_id,
            r.1@ == opening(r.0, addr@, port),
            final(self)@ == old(self)@.after_open(),
    {
        let stream_id: u16 = self.next_id;
        self.next_id = stream_id.wrapping_add(2);
        let af = AddressFrame::new(stream_id, Cmd::Tcp, port, addr);
        (stream_id, MuxEvent::Open(af))
    }

    /// The rhythm asks whether a sign of life is due: only if idle times are filled and
    /// no data went up since it was last asked.
    pub fn idle_tick(&mut self, cadence: &Cadence) -> (fill: bool)
        ensures
            fill == old(self)@.is_idle(cadence.fills_idle()),
            final(self)@ == old(self)@.after_tick(cadence.fills_idle()),
    {
        if !cadence.should_fill_idle() {
            return false;
        }
        let was_active = self.active;
        self.active = false;
        !was_active
    }

    /// The counts.
    pub fn stats(&self) -> (s: TunnelStats)
        ensures
            s.total_up() == self@.up,
            s.total_down() == self@.down,
    {
        self.stats
    }
}

/// What the other end is told of a target that could not be reached.
pub open spec fn refusal(stream_id: u16) -> EventView {
    EventView::Close { stream_id }
}

/// A relay without streams.
pub open spec fn fresh_relay<T>(role: Role) -> RelayView<T> {
    RelayView {
        role,
        sinks: Map::<u16, T>::empty(),
        up: 0,
        down: 0,
        active: false,
        next_id: 1,
    }
}

/// The event that opens a stream to a target over TCP.
pub open spec fn opening(stream_id: u16, addr: AddrView, port: u16) -> EventView {
    EventView::Open(AddressView { stream_id, cmd: Cmd::Tcp, port, addr })
}

/// The number of the stream after this one.
pub open spec fn id_after(id: u16) -> u16 {
    ((id + 2) % 0x1_0000) as u16
}

/// The number of the stream that is opened after `k` others.
pub open spec fn nth_id(k: nat) -> u16 {
    ((1 + 2 * k) % 0x1_0000) as u16
}

/// How long the rhythm waits, at least a millisecond.
pub fn tick_delay_ms(c: &Cadence, rng: &mut StdRng) -> (ms: u64)
    requires
        c.fits(),
    ensures
        ms >= 1,
        c.interval() - c.jitter() <= ms,
        ms <= c.interval() + c.jitter() || ms == 1,
        c.jitter() == 0 ==> ms == (if c.interval() == 0 {
            1
        } else {
            c.interval()
        }) && *final(rng) == *old(rng),
        c.jitter() != 0 ==> {
            let drawn = crate::random::std_rng_range(*old(rng), 0, (2 * c.jitter()) as u64);
            let d = cadence::delay(c.interval(), c.jitter(), drawn.0);
            &&& *final(rng) == drawn.1
            &&& ms == (if d < 1 {
                1
            } else {
                d
            })
        },
{
    let ms: u64 = c.next_delay_ms(rng);
    if ms < 1 {
        1
    } else {
        ms
    }
}

/// Streams get odd numbers, and no two among any 32768 in a row get the same.
pub proof fn law_stream_ids(k: nat, j: nat)
    ensures
        nth_id(0) == 1,
        nth_id(k + 1) == id_after(nth_id(k)),
        nth_id(k) % 2 == 1,
        k < j < k + 32768 ==> nth_id(k) != nth_id(j),
{
}

/// Data reaches a socket only while its stream is open: behind a close nothing is
/// delivered, until the stream is registered again.
pub proof fn law_closed_stream_gets_nothing<T>(
    r: RelayView<T>,
    stream_id: u16,
    data: Seq<u8>,
)
    ensures
        r.after_event(EventView::Close { stream_id }).action(EventView::Data { stream_id, data })
            == ActionView::Nothing,
        r.sinks.contains_key(stream_id) ==> r.action(EventView::Data { stream_id, data }) == (
        ActionView::Deliver { stream_id, data }),
{
}

/// Closing one stream leaves the others alone.
pub proof fn law_close_is_local<T>(r: RelayView<T>, stream_id: u16, other: u16, data: Seq<u8>)
    requires
        other != stream_id,
    ensures
        r.after_event(EventView::Close { stream_id }).action(
            EventView::Data { stream_id: other, data },
        ) == r.action(EventView::Data { stream_id: other, data }),
{
}

/// Only a server connects to targets.
pub proof fn law_client_opens_nothing<T>(r: RelayView<T>, af: AddressView)
    requires
        r.role == Role::Client,
    ensures
        r.action(EventView::Open(af)) == ActionView::Nothing,
        r.after_event(EventView::Open(af)) == r,
{
}

/// A server connects to the target that an event names and to no other: the stream, the
/// command, the port and the address are those of the event. The event changes nothing else,
/// and nothing but such an event makes it connect.
pub proof fn law_server_connects_to_named_target<T>(r: RelayView<T>, ev: EventView)
    requires
        r.role == Role::Server,
    ensures
        ev matches EventView::Open(af) ==> (r.action(ev) matches ActionView::Connect(target)
            && target.stream_id == af.stream_id && target.cmd == af.cmd && target.port == af.port
            && target.addr == af.addr) && r.after_event(ev) == r,
        r.action(ev) is Connect ==> ev is Open,
{
}

/// The target that an application names is the one that is connected to: the address and
/// the two bytes of the port that it sends to the near end are what the far end connects to,
/// over TCP, for the stream that was opened.
pub proof fn law_application_reaches_named_target<T>(
    client: RelayView<T>,
    server: RelayView<T>,
    addr: AddrView,
    hi: u8,
    lo: u8,
)
    requires
        server.role == Role::Server,
        addr.well_formed(),
        addr.fits(),
    ensures
        ({
            let asked = StateView::Port { addr }.step(seq![hi, lo]);
            let opened = opening(client.next_id, asked->Done_addr, asked->Done_port);
            &&& asked is Done
            &&& mux::parse_event(mux::event_frame(opened)) matches Ok(ev) && server.action(ev) == (
            ActionView::Connect(
                AddressView {
                    stream_id: client.next_id,
                    cmd: Cmd::Tcp,
                    port: (256 * hi + lo) as u16,
                    addr,
                },
            ))
        }),
{
    let port = (256 * hi + lo) as u16;
    mux::law_event_roundtrip(opening(client.next_id, addr, port));
}

/// What an event does, for either role: data goes to its own stream if that is open, and
/// counts in any case; a close takes away the sink of its stream and no other; nothing else
/// changes.
pub proof fn law_event_effects<T>(r: RelayView<T>, ev: EventView, other: u16)
    ensures
        ({
            let after = r.after_event(ev);
            &&& after.role == r.role && after.up == r.up
            &&& after.active == r.active && after.next_id == r.next_id
            &&& ev matches EventView::Data { stream_id, data } ==> {
                &&& after.sinks == r.sinks
                &&& (after.down - r.down - data.len()) % 0x1_0000_0000_0000_0000 == 0
                &&& r.down + data.len() <= u64::MAX ==> after.down == r.down + data.len()
                &&& r.sinks.contains_key(stream_id) ==> r.action(ev) == (ActionView::Deliver {
                    stream_id,
                    data,
                })
                &&& !r.sinks.contains_key(stream_id) ==> r.action(ev) == ActionView::Nothing
            }
            &&& ev matches EventView::Close { stream_id } ==> {
                &&& r.action(ev) == ActionView::Nothing
                &&& !after.sinks.contains_key(stream_id)
                &&& other != stream_id ==> after.sinks.contains_key(other)
                    == r.sinks.contains_key(other) && after.sinks[other] == r.sinks[other]
                &&& after.down == r.down
            }
            &&& ev is KeepAlive ==> r.action(ev) == ActionView::Nothing && after == r
            &&& ev is Open ==> after == r
        }),
{
}

/// The life of a stream: once registered it gets its data at its sink, other streams stay as
/// they were, and once it has ended, or the tunnel has, it gets nothing.
pub proof fn law_stream_lifecycle<T>(
    r: RelayView<T>,
    stream_id: u16,
    sink: T,
    other: u16,
    data: Seq<u8>,
)
    ensures
        ({
            let open = r.with_sink(stream_id, sink);
            let ended = open.without_sink(stream_id);
            let ev = EventView::Data { stream_id, data };
            &&& open.action(ev) == (ActionView::Deliver { stream_id, data })
            &&& open.sinks[stream_id] == sink
            &&& ended.action(ev) == ActionView::Nothing
            &&& other != stream_id ==> {
                &&& open.sinks.contains_key(other) == r.sinks.contains_key(other)
                &&& open.sinks[other] == r.sinks[other]
                &&& ended.sinks.contains_key(other) == r.sinks.contains_key(other)
                &&& ended.sinks[other] == r.sinks[other]
            }
            &&& !r.without_sinks().sinks.contains_key(other)
            &&& forall|v: RelayView<T>| #[trigger]
                same_but_sinks(r, v) <== v == open || v == ended || v == r.without_sinks()
        }),
{
}

/// Whether two relays differ in their sinks alone.
pub open spec fn same_but_sinks<T>(a: RelayView<T>, b: RelayView<T>) -> bool {
    a.role == b.role && a.up == b.up && a.down == b.down && a.active == b.active && a.next_id
        == b.next_id
}

/// What a socket gives goes up under the number of its stream, unchanged and counted, and
/// reading goes on; its end and an error close that stream, change nothing, and end the
/// reading.
pub proof fn law_socket_reads<T>(r: RelayView<T>, stream_id: u16, read: SocketRead)
    ensures
        ({
            let (ev, goes_on) = read_outcome(stream_id, read);
            let after = r.after_read(read);
            &&& goes_on == (read is Data)
            &&& read matches SocketRead::Data(data) ==> {
                &&& ev == (EventView::Data { stream_id, data: data@ })
                &&& (after.up - r.up - data@.len()) % 0x1_0000_0000_0000_0000 == 0
                &&& r.up + data@.len() <= u64::MAX ==> after.up == r.up + data@.len()
                &&& after.active
                &&& after == (RelayView { up: after.up, active: after.active, ..r })
            }
            &&& !(read is Data) ==> ev == (EventView::Close { stream_id }) && after == r
        }),
{
}

/// A sign of life comes exactly when idle times are filled and nothing went up since the
/// rhythm last asked: after data there is none, but after a further silent round there is.
pub proof fn law_idle_is_filled<T>(r: RelayView<T>, data: Vec<u8>)
    ensures
        !r.is_idle(false) && r.after_tick(false) == r,
        r.is_idle(true) <==> !r.active,
        !r.after_read(SocketRead::Data(data)).is_idle(true),
        r.after_tick(true).is_idle(true),
        r.after_tick(true) == (RelayView { active: false, ..r }),
{
}

/// An opened stream gets the number that is next, and the one after it gets a number that is
/// larger by two, until the numbers start over at 1; nothing else changes.
pub proof fn law_opened_streams<T>(r: RelayView<T>, addr: AddrView, port: u16)
    ensures
        opening(r.next_id, addr, port) matches EventView::Open(af) && af.stream_id == r.next_id
            && af.port == port && af.addr == addr && af.cmd == Cmd::Tcp,
        r.next_id < 65534 ==> r.after_open().next_id == r.next_id + 2,
        r.next_id == 65535 ==> r.after_open().next_id == 1,
        r.after_open() == (RelayView { next_id: r.after_open().next_id, ..r }),
{
}

/// A relay begins without streams and without traffic, in the role that it was given, and the
/// streams that it opens are numbered 1, 3, 5 and so on.
pub proof fn law_relay_begins<T>(role: Role, id: u16, data: Seq<u8>)
    ensures
        ({
            let r = fresh_relay::<T>(role);
            &&& r.role == role
            &&& r.action(EventView::Data { stream_id: id, data }) == ActionView::Nothing
            &&& !r.sinks.contains_key(id)
            &&& r.up == 0 && r.down == 0
            &&& r.is_idle(true)
            &&& r.next_id == 1 && r.after_open().next_id == 3 && r.after_open().after_open().next_id
                == 5
        }),
{
}

/// What is told of a target that could not be reached ends that stream at the other end, and
/// no other.
pub proof fn law_refusal_ends_stream<T>(r: RelayView<T>, stream_id: u16, other: u16)
    ensures
        ({
            let after = r.after_event(refusal(stream_id));
            &&& !after.sinks.contains_key(stream_id)
            &&& other != stream_id ==> after.sinks.contains_key(other) == r.sinks.contains_key(
                other,
            )
            &&& after.up == r.up && after.down == r.down && after.next_id == r.next_id
        }),
{
}

} // verus!
