use crate::error::{ErrKind, MspErr};
use crate::number::{parse_u16, uint16_of};
use crate::text::{chars_of, copy_range, find, find_spec, string_of};
use crate::utf8::from_utf8;
use std::hash::{Hash, Hasher};
use vstd::prelude::*;
use vstd::std_specs::cmp::{PartialEqSpec, PartialEqSpecImpl};
use vstd::utf8::{decode_utf8, valid_utf8};

verus! {

/// Servers are announced to this multicast group: 224.0.2.60.
pub const MULTICAST_ADDR: [u8; 4] = [224, 0, 2, 60];

/// Servers are announced on this port.
pub const MULTICAST_PORT: u16 = 4445;

/// An IPv4 address with a port.
#[derive(Clone, Copy, Debug, PartialEq, Eq, Hash, Structural)]
pub struct LanAddr {
    /// The address as one number, its first octet weighing most.
    pub ip: u32,
    /// The port.
    pub port: u16,
}

impl LanAddr {
    /// The address `a.b.c.d` with the port `port`.
    pub fn from_octets(a: u8, b: u8, c: u8, d: u8, port: u16) -> (r: Self)
        ensures
            r.ip == a * 0x100_0000 + b * 0x1_0000 + c * 0x100 + d,
            r.port == port,
    {
        let ip: u32 = (a as u32) * 0x100_0000 + (b as u32) * 0x1_0000 + (c as u32) * 0x100
            + d as u32;
        LanAddr { ip, port }
    }
}

/// LAN server info structure.
///
/// Two of them are equal where they come from the same address, whatever
/// they announce.
#[derive(Debug)]
pub struct LanServer {
    /// The address that the announcement came from.
    pub addr: LanAddr,
    /// MOTD of the target server.
    pub motd: String,
    /// Open port of the target server.
    pub port: u16,
}

/// A `LanServer` with its MOTD as a character sequence.
pub struct LanServerView {
    pub addr: LanAddr,
    pub motd: Seq<char>,
    pub port: u16,
}

impl View for LanServer {
    type V = LanServerView;

    open spec fn view(&self) -> LanServerView {
        LanServerView { addr: self.addr, motd: self.motd@, port: self.port }
    }
}

impl PartialEq for LanServer {
    /// Whether both come from the same address.
    fn eq(&self, other: &Self) -> (r: bool) {
        self.addr == other.addr
    }
}

impl PartialEqSpecImpl for LanServer {
    open spec fn obeys_eq_spec() -> bool {
        true
    }

    open spec fn eq_spec(&self, other: &Self) -> bool {
        self.addr == other.addr
    }
}

impl Eq for LanServer {

}

impl Hash for LanServer {
    /// Feeds the address, and nothing else, to the hasher, through `Hash`
    /// for `LanAddr`.
    #[verifier::external_body]
    fn hash<H: Hasher>(&self, state: &mut H) {
        self.addr.hash(state);
    }
}

impl LanServer {
    /// The server at `addr` that announces `motd` and `port`.
    pub fn create(addr: LanAddr, motd: String, port: u16) -> (r: Self)
        ensures
            r.addr == addr,
            r.motd == motd,
            r.port == port,
    {
        Self { addr, motd, port }
    }

    /// What stands for this server in a table: its address as one number.
    /// Servers with the same address have the same key, and no others.
    pub fn table_key(&self) -> (key: u64)
        ensures
            key == self.addr.ip * 0x1_0000 + self.addr.port,
    {
        (self.addr.ip as u64) * 0x1_0000 + self.addr.port as u64
    }
}

/// Servers from the same address are equal and have the same table key,
/// whatever MOTD and port they announce.
pub proof fn lemma_equal_by_address(a: LanServer, b: LanServer)
    requires
        a.addr == b.addr,
    ensures
        PartialEqSpec::eq_spec(&a, &b),
        a.addr.ip * 0x1_0000 + a.addr.port == b.addr.ip * 0x1_0000 + b.addr.port,
{
}

/// Servers with the same table key come from the same address.
pub proof fn lemma_table_key_tells_address(a: LanServer, b: LanServer)
    requires
        a.addr.ip * 0x1_0000 + a.addr.port == b.addr.ip * 0x1_0000 + b.addr.port,
    ensures
        a.addr == b.addr,
{
}

/// `[MOTD]`
pub open spec fn motd_open() -> Seq<char> {
    seq!['[', 'M', 'O', 'T', 'D', ']']
}

/// `[/MOTD]`
pub open spec fn motd_close() -> Seq<char> {
    seq!['[', '/', 'M', 'O', 'T', 'D', ']']
}

/// `[AD]`
pub open spec fn ad_open() -> Seq<char> {
    seq!['[', 'A', 'D', ']']
}

/// `[/AD]`
pub open spec fn ad_close() -> Seq<char> {
    seq!['[', '/', 'A', 'D', ']']
}

/// Whether `message` holds each of the four markers somewhere.
pub open spec fn has_markers(message: Seq<char>) -> bool {
    &&& find_spec(message, motd_open()) is Some
    &&& find_spec(message, motd_close()) is Some
    &&& find_spec(message, ad_open()) is Some
    &&& find_spec(message, ad_close()) is Some
}

/// The MOTD and the port in an announcement: what stands between the first
/// `[MOTD]` and the first `[/MOTD]`, and the number between the first `[AD]`
/// and the first `[/AD]`. A `Data` error where a marker is missing, where a
/// closing marker begins before its opening marker ends, and where the port
/// does not read as an unsigned 16-bit number.
pub open spec fn broadcast_of(message: Seq<char>) -> Result<(Seq<char>, u16), ErrKind> {
    let motd_start = find_spec(message, motd_open());
    let motd_end = find_spec(message, motd_close());
    let port_start = find_spec(message, ad_open());
    let port_end = find_spec(message, ad_close());
    if !has_markers(message) || motd_start->0 + 6 > motd_end->0 || port_start->0 + 4
        > port_end->0 {
        Err(ErrKind::Data)
    } else {
        match uint16_of(message.subrange(port_start->0 + 4, port_end->0)) {
            Some(port) => Ok((message.subrange(motd_start->0 + 6, motd_end->0), port as u16)),
            None => Err(ErrKind::Data),
        }
    }
}

/// The positions of the four markers in `message`, where it holds them all.
fn marker_positions(message: &[char]) -> (r: Option<(usize, usize, usize, usize)>)
    ensures
        match r {
            Some(at) => has_markers(message@) && find_spec(message@, motd_open()) == Some(
                at.0 as int,
            ) && find_spec(message@, motd_close()) == Some(at.1 as int) && find_spec(
                message@,
                ad_open(),
            ) == Some(at.2 as int) && find_spec(message@, ad_close()) == Some(at.3 as int)
                && at.0 <= message.len() && at.1 <= message.len() && at.2 <= message.len()
                && at.3 <= message.len(),
            None => !has_markers(message@),
        },
{
    let m1: [char; 6] = ['[', 'M', 'O', 'T', 'D', ']'];
    let m2: [char; 7] = ['[', '/', 'M', 'O', 'T', 'D', ']'];
    let m3: [char; 4] = ['[', 'A', 'D', ']'];
    let m4: [char; 5] = ['[', '/', 'A', 'D', ']'];
    let motd_start = match find(message, m1.as_slice()) {
        Some(i) => i,
        None => { return None; },
    };
    let motd_end = match find(message, m2.as_slice()) {
        Some(i) => i,
        None => { return None; },
    };
    let port_start = match find(message, m3.as_slice()) {
        Some(i) => i,
        None => { return None; },
    };
    let port_end = match find(message, m4.as_slice()) {
        Some(i) => i,
        None => { return None; },
    };
    Some((motd_start, motd_end, port_start, port_end))
}

/// Take the MOTD and the port out of an announcement.
pub fn abstract_broadcast_message(message: &str) -> (r: Result<(String, u16), MspErr>)
    ensures
        match r {
            Ok(found) => broadcast_of(message@) == Ok::<_, ErrKind>((found.0@, found.1)),
            Err(e) => broadcast_of(message@) is Err && e.kind() == ErrKind::Data,
        },
{
    let chars = chars_of(message);
    let (motd_start, motd_end, port_start, port_end) = match marker_positions(chars.as_slice()) {
        Some(at) => at,
        None => { return Err(MspErr::data("The announcement lacks a marker")); },
    };
    if motd_end < 6 || motd_start > motd_end - 6 || port_end < 4 || port_start > port_end - 4 {
        return Err(MspErr::data("The markers of the announcement are out of order"));
    }
    let port_text = copy_range(chars.as_slice(), port_start + 4, port_end);
    match parse_u16(port_text.as_slice()) {
        Some(port) => {
            let motd = copy_range(chars.as_slice(), motd_start + 6, motd_end);
            Ok((string_of(motd.as_slice()), port))
        },
        None => Err(MspErr::data("Can not parse the port number of the announcement")),
    }
}

/// Where a datagram came from.
#[derive(Clone, Copy, Debug)]
pub enum LanSource {
    /// An IPv4 address.
    V4(LanAddr),
    /// An IPv6 address, which is not supported.
    V6,
}

/// What the listener does with the bytes of one datagram: it publishes a
/// server, goes on without a word (`Ok(None)`), or stops with an error.
/// Bytes that are not UTF-8 are an `Internal` error; an announcement that
/// lacks a marker is passed over; one in which the markers are out of order
/// or the port is no number is a `Data` error; a good announcement from an
/// IPv6 address is a `NoImpl` error.
pub open spec fn received(buffer: Seq<u8>, source: LanSource) -> Result<
    Option<LanServerView>,
    ErrKind,
> {
    if !valid_utf8(buffer) {
        Err(ErrKind::Internal)
    } else if !has_markers(decode_utf8(buffer)) {
        Ok(None)
    } else {
        match broadcast_of(decode_utf8(buffer)) {
            Err(k) => Err(k),
            Ok(found) => match source {
                LanSource::V4(addr) => Ok(
                    Some(LanServerView { addr, motd: found.0, port: found.1 }),
                ),
                LanSource::V6 => Err(ErrKind::NoImpl),
            },
        }
    }
}

/// Decide what to do with the bytes of a datagram.
pub fn process_broadcast(buffer: &[u8], source: LanSource) -> (r: Result<
    Option<LanServer>,
    MspErr,
>)
    ensures
        match r {
            Ok(Some(server)) => received(buffer@, source) == Ok::<_, ErrKind>(Some(server@)),
            Ok(None) => received(buffer@, source) == Ok::<Option<LanServerView>, ErrKind>(None),
            Err(e) => received(buffer@, source) == Err::<Option<LanServerView>, _>(e.kind()),
        },
{
    let message = match from_utf8(buffer) {
        Some(s) => s,
        None => { return Err(MspErr::internal("invalid utf-8: corrupt contents")); },
    };
    let chars = chars_of(message.as_str());
    if marker_positions(chars.as_slice()).is_none() {
        return Ok(None);
    }
    let (motd, port) = match abstract_broadcast_message(message.as_str()) {
        Ok(found) => found,
        Err(e) => { return Err(e); },
    };
    match source {
        LanSource::V4(v4) => Ok(Some(LanServer::create(v4, motd, port))),
        LanSource::V6 => Err(MspErr::no_impl("Not impl for ipv6.")),
    }
}

/// What the listener meets at its socket.
#[derive(Debug)]
pub enum LanEvent {
    /// The consumer asked it to stop, or is gone.
    Stopped,
    /// Nothing arrived before the read timed out.
    TimedOut,
    /// The read failed otherwise.
    Failed(std::io::Error),
    /// A datagram arrived: the bytes that were received and where they came
    /// from.
    Received(Vec<u8>, LanSource),
}

/// What the listener does next.
#[derive(Debug)]
pub enum LanAction {
    /// Leave the multicast group and end.
    Leave,
    /// Go on listening without a word.
    Skip,
    /// Tell the consumer of a server, or with `None` that time goes by, and
    /// go on listening.
    Tell(Option<LanServer>),
    /// Tell the consumer of the error and end.
    Fail(MspErr),
}

/// The listener's decision on each event. Asked to stop, it leaves; on a
/// timeout it sends a keep-alive; a failed read ends it with an `IoErr`; a
/// datagram is dealt with as `process_broadcast` says.
pub fn listener_step(event: LanEvent) -> (action: LanAction)
    ensures
        match event {
            LanEvent::Stopped => action is Leave,
            LanEvent::TimedOut => action matches LanAction::Tell(None),
            LanEvent::Failed(err) => action matches LanAction::Fail(MspErr::IoErr(e)) && e == err,
            LanEvent::Received(buffer, source) => match received(buffer@, source) {
                Ok(Some(server)) => action matches LanAction::Tell(Some(told)) && told@ == server,
                Ok(None) => action is Skip,
                Err(k) => action matches LanAction::Fail(e) && e.kind() == k,
            },
        },
{
    match event {
        LanEvent::Stopped => LanAction::Leave,
        LanEvent::TimedOut => LanAction::Tell(None),
        LanEvent::Failed(err) => LanAction::Fail(MspErr::IoErr(err)),
        LanEvent::Received(buffer, source) => match process_broadcast(buffer.as_slice(), source) {
            Ok(Some(server)) => LanAction::Tell(Some(server)),
            Ok(None) => LanAction::Skip,
            Err(e) => LanAction::Fail(e),
        },
    }
}

/// The consumer sweeps its table when this many milliseconds have gone by
/// since the last sweep.
pub const STORE_CHECK_INTERVAL: u64 = 4000;

/// The table holds no more servers than this.
pub const MAXIMUM_SERVERS: usize = 100;

/// A server that was last seen more than this many milliseconds ago is
/// offline.
pub const SERVER_OFFLINE_TIMEOUT: u64 = 2000;

/// A server and the time, in milliseconds, at which it was last seen.
#[derive(Debug)]
pub struct LanEntry {
    pub server: LanServer,
    pub last_seen: u64,
}

/// A `LanEntry` with the view of its server.
pub struct LanEntryView {
    pub server: LanServerView,
    pub last_seen: u64,
}

impl View for LanEntry {
    type V = LanEntryView;

    open spec fn view(&self) -> LanEntryView {
        LanEntryView { server: self.server@, last_seen: self.last_seen }
    }
}

/// The views of the entries of `v`.
pub open spec fn entry_views(v: Seq<LanEntry>) -> Seq<LanEntryView> {
    Seq::new(v.len(), |i: int| v[i]@)
}

/// The views of the servers of `v`.
pub open spec fn server_views(v: Seq<LanServer>) -> Seq<LanServerView> {
    Seq::new(v.len(), |i: int| v[i]@)
}

/// The servers of the entries, in their order.
pub open spec fn servers_of(entries: Seq<LanEntryView>) -> Seq<LanServerView> {
    Seq::new(entries.len(), |i: int| entries[i].server)
}

/// Whether no two entries have the same address.
pub open spec fn distinct_addrs(entries: Seq<LanEntryView>) -> bool {
    forall|i: int, j: int|
        0 <= i < entries.len() && 0 <= j < entries.len() && i != j ==> entries[i].server.addr
            != entries[j].server.addr
}

/// Whether an entry has the address `addr`.
pub open spec fn knows(entries: Seq<LanEntryView>, addr: LanAddr) -> bool {
    exists|i: int| 0 <= i < entries.len() && entries[i].server.addr == addr
}

/// The table after `server` was seen at `now`. A server that the table knows
/// keeps what it announced first and gets the new time. Another one is added
/// at the end, unless the table is full: then nothing changes.
pub open spec fn observed(entries: Seq<LanEntryView>, server: LanServerView, now: u64) -> Seq<
    LanEntryView,
> {
    if knows(entries, server.addr) {
        Seq::new(
            entries.len(),
            |i: int|
                if entries[i].server.addr == server.addr {
                    LanEntryView { server: entries[i].server, last_seen: now }
                } else {
                    entries[i]
                },
        )
    } else if entries.len() < MAXIMUM_SERVERS {
        entries.push(LanEntryView { server, last_seen: now })
    } else {
        entries
    }
}

/// Whether a server that was last seen at `last_seen` is online at `now`:
/// it was seen no later than `now` and no longer ago than the offline
/// timeout.
pub open spec fn is_online(last_seen: u64, now: u64) -> bool {
    last_seen <= now && now - last_seen <= SERVER_OFFLINE_TIMEOUT
}

/// The entries that are online at `now`, in their order.
pub open spec fn online(entries: Seq<LanEntryView>, now: u64) -> Seq<LanEntryView>
    decreases entries.len(),
{
    if entries.len() == 0 {
        Seq::empty()
    } else if is_online(entries.last().last_seen, now) {
        online(entries.drop_last(), now).push(entries.last())
    } else {
        online(entries.drop_last(), now)
    }
}

/// The entries that are left after a sweep are the entries that were online,
/// no more and no fewer.
pub proof fn lemma_online_keeps_the_online(entries: Seq<LanEntryView>, now: u64)
    ensures
        online(entries, now).len() <= entries.len(),
        forall|e: LanEntryView|
            online(entries, now).contains(e) <==> entries.contains(e) && is_online(
                e.last_seen,
                now,
            ),
    decreases entries.len(),
{
    if entries.len() > 0 {
        let rest = entries.drop_last();
        let last = entries.last();
        let kept = online(entries, now);
        let kept_rest = online(rest, now);
        lemma_online_keeps_the_online(rest, now);
        assert forall|e: LanEntryView| kept.contains(e) implies entries.contains(e) && is_online(
            e.last_seen,
            now,
        ) by {
            let i = choose|i: int| 0 <= i < kept.len() && kept[i] == e;
            if i < kept_rest.len() {
                assert(kept_rest[i] == e);
                assert(kept_rest.contains(e));
                assert(rest.contains(e));
                let j = choose|j: int| 0 <= j < rest.len() && rest[j] == e;
                assert(entries[j] == e);
            } else {
                assert(entries[entries.len() - 1] == e);
            }
        }
        assert forall|e: LanEntryView|
            entries.contains(e) && is_online(e.last_seen, now) implies kept.contains(e) by {
            let j = choose|j: int| 0 <= j < entries.len() && entries[j] == e;
            if j < rest.len() {
                assert(rest[j] == e);
                assert(rest.contains(e));
                assert(kept_rest.contains(e));
                let i = choose|i: int| 0 <= i < kept_rest.len() && kept_rest[i] == e;
                assert(kept[i] == e);
            } else {
                assert(kept[kept_rest.len() as int] == e);
            }
        }
    }
}

/// After a sweep the table knows an address where, and only where, it held
/// an entry for it that was seen no longer ago than the offline timeout: a
/// server that has been silent for longer is gone.
pub proof fn lemma_sweep_evicts_the_silent(entries: Seq<LanEntryView>, now: u64, addr: LanAddr)
    ensures
        knows(online(entries, now), addr) <==> exists|i: int|
            0 <= i < entries.len() && entries[i].server.addr == addr && is_online(
                #[trigger] entries[i].last_seen,
                now,
            ),
{
    lemma_online_keeps_the_online(entries, now);
    let kept = online(entries, now);
    if knows(kept, addr) {
        let k = choose|k: int| 0 <= k < kept.len() && kept[k].server.addr == addr;
        assert(kept.contains(kept[k]));
        assert(entries.contains(kept[k]));
        let i = choose|i: int| 0 <= i < entries.len() && entries[i] == kept[k];
        assert(entries[i].server.addr == addr && is_online(entries[i].last_seen, now));
    }
    if exists|i: int|
        0 <= i < entries.len() && entries[i].server.addr == addr && is_online(
            #[trigger] entries[i].last_seen,
            now,
        ) {
        let i = choose|i: int|
            0 <= i < entries.len() && entries[i].server.addr == addr && is_online(
                #[trigger] entries[i].last_seen,
                now,
            );
        assert(entries.contains(entries[i]));
        assert(kept.contains(entries[i]));
        let k = choose|k: int| 0 <= k < kept.len() && kept[k] == entries[i];
        assert(kept[k].server.addr == addr);
    }
}

/// The table of the servers that were seen on the network, in the order in
/// which they were first seen.
#[derive(Debug)]
pub struct LanStore {
    entries: Vec<LanEntry>,
    last_check: u64,
}

impl View for LanStore {
    type V = Seq<LanEntryView>;

    closed spec fn view(&self) -> Seq<LanEntryView> {
        entry_views(self.entries@)
    }
}

impl LanStore {
    /// The time of the last sweep, or of the creation.
    pub closed spec fn last_check(&self) -> u64 {
        self.last_check
    }

    /// What holds of every table: no address occurs twice, and there are no
    /// more entries than `MAXIMUM_SERVERS`.
    pub open spec fn wf(&self) -> bool {
        distinct_addrs(self@) && self@.len() <= MAXIMUM_SERVERS
    }

    /// An empty table, made at `now`.
    pub fn new(now: u64) -> (r: Self)
        ensures
            r.wf(),
            r@.len() == 0,
            r.last_check() == now,
    {
        Self { entries: Vec::new(), last_check: now }
    }

    /// The number of servers in the table.
    pub fn len(&self) -> (n: usize)
        ensures
            n == self@.len(),
    {
        self.entries.len()
    }

    /// Whether the table holds as many servers as it may: the listener is
    /// then to be stopped.
    pub fn is_full(&self) -> (b: bool)
        ensures
            b == (self@.len() == MAXIMUM_SERVERS),
    {
        self.entries.len() == MAXIMUM_SERVERS
    }

    /// The servers of the table, in the order in which they were first seen.
    pub fn servers(&self) -> (r: Vec<LanServer>)
        ensures
            server_views(r@) == servers_of(self@),
    {
        let mut r: Vec<LanServer> = Vec::new();
        let mut i: usize = 0;
        while i < self.entries.len()
            invariant
                i <= self.entries.len(),
                r@.len() == i,
                forall|k: int| 0 <= k < i ==> r@[k]@ == self@[k].server,
            decreases self.entries.len() - i,
        {
            let server = &self.entries[i].server;
            r.push(LanServer::create(server.addr, server.motd.clone(), server.port));
            i += 1;
        }
        r
    }

    /// The position of the entry with the address `addr`, if there is one.
    fn position(&self, addr: LanAddr) -> (r: Option<usize>)
        ensures
            match r {
                Some(i) => i < self@.len() && self@[i as int].server.addr == addr,
                None => !knows(self@, addr),
            },
    {
        let mut i: usize = 0;
        while i < self.entries.len()
            invariant
                i <= self.entries.len(),
                forall|k: int| 0 <= k < i ==> self@[k].server.addr != addr,
            decreases self.entries.len() - i,
        {
            if self.entries[i].server.addr == addr {
                return Some(i);
            }
            i += 1;
        }
        None
    }

    /// When the server at `addr` was last seen, if the table knows it.
    pub fn last_seen(&self, addr: LanAddr) -> (r: Option<u64>)
        ensures
            match r {
                Some(t) => exists|i: int|
                    0 <= i < self@.len() && self@[i].server.addr == addr && self@[i].last_seen
                        == t,
                None => !knows(self@, addr),
            },
    {
        match self.position(addr) {
            Some(i) => Some(self.entries[i].last_seen),
            None => None,
        }
    }

    /// Note that `server` was seen at `now`.
    pub fn observe(&mut self, server: LanServer, now: u64)
        requires
            old(self).wf(),
        ensures
            final(self).wf(),
            final(self)@ == observed(old(self)@, server@, now),
            final(self).last_check() == old(self).last_check(),
    {
        let ghost before = self@;
        match self.position(server.addr) {
            Some(i) => {
                self.entries[i].last_seen = now;
                assert(self@ =~= observed(before, server@, now));
            },
            None => {
                if self.entries.len() < MAXIMUM_SERVERS {
                    self.entries.push(LanEntry { server, last_seen: now });
                    assert(self@ =~= observed(before, server@, now));
                }
            },
        }
    }

    /// Sweep the table where the check interval has gone by since the last
    /// sweep: the servers that are offline at `now` leave, and `now` is
    /// noted. Gives back whether it swept. Fails with `InternalErr`, and
    /// changes nothing, where `now` lies before the last sweep.
    pub fn sweep(&mut self, now: u64) -> (r: Result<bool, MspErr>)
        requires
            old(self).wf(),
        ensures
            final(self).wf(),
            match r {
                Ok(swept) => now >= old(self).last_check() && swept == (now - old(
                    self,
                ).last_check() > STORE_CHECK_INTERVAL) && final(self)@ == (if swept {
                    online(old(self)@, now)
                } else {
                    old(self)@
                }) && final(self).last_check() == (if swept {
                    now
                } else {
                    old(self).last_check()
                }),
                Err(e) => now < old(self).last_check() && e.kind() == ErrKind::Internal
                    && final(self)@ == old(self)@ && final(self).last_check() == old(
                    self,
                ).last_check(),
            },
    {
        if now < self.last_check {
            return Err(MspErr::internal("second time provided was later than self"));
        }
        if now - self.last_check <= STORE_CHECK_INTERVAL {
            return Ok(false);
        }
        let ghost before = self@;
        let ghost mut done: int = 0;
        let mut i: usize = 0;
        while i < self.entries.len()
            invariant
                0 <= done <= before.len(),
                before.len() <= MAXIMUM_SERVERS,
                i == online(before.take(done), now).len(),
                i <= done,
                self@ == online(before.take(done), now) + before.skip(done),
                distinct_addrs(self@),
                self.last_check() == old(self).last_check(),
            decreases before.len() - done,
        {
            let ghost current = self@;
            proof {
                assert(current[i as int] == before[done]);
                assert(before.take(done + 1).drop_last() =~= before.take(done));
            }
            let seen = self.entries[i].last_seen;
            if seen <= now && now - seen <= SERVER_OFFLINE_TIMEOUT {
                i += 1;
            } else {
                self.entries.remove(i);
                assert(self@ =~= current.remove(i as int));
            }
            proof {
                done = done + 1;
            }
        }
        proof {
            assert(before.take(done) =~= before);
        }
        self.last_check = now;
        Ok(true)
    }
}

} // verus!
