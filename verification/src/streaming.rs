//! The live-stream relay: datagrams from the encoder are wrapped as events and
//! forwarded to every WebSocket viewer.
use vstd::prelude::*;
use crate::config::FFMPEG_UP_ADDR;

verus! {

/// Where a stream event comes from.
#[derive(Debug, Clone, Copy, PartialEq, Eq, Structural)]
pub enum StreamEvtType {
    UDP,
    WS,
    FFMPEG,
}

/// A chunk of stream data with its origin.
#[derive(Debug)]
pub struct StreamEvt {
    evt_type: StreamEvtType,
    evt_data: Vec<u8>,
}

impl StreamEvt {
    pub closed spec fn spec_evt_type(&self) -> StreamEvtType {
        self.evt_type
    }

    pub closed spec fn spec_evt_data(&self) -> Seq<u8> {
        self.evt_data@
    }

    /// An event of the given origin holding `evt_data`.
    pub fn new(evt_type: StreamEvtType, evt_data: Vec<u8>) -> (r: Self)
        ensures
            r.spec_evt_type() == evt_type,
            r.spec_evt_data() == evt_data@,
    {
        StreamEvt { evt_type, evt_data }
    }

    /// The event for a datagram whose first `n` bytes of `buf` were received.
    pub fn from_datagram(buf: &[u8], n: usize) -> (r: Self)
        requires
            n <= buf@.len(),
        ensures
            r.spec_evt_type() == StreamEvtType::UDP,
            r.spec_evt_data() == buf@.take(n as int),
    {
        let mut data: Vec<u8> = Vec::new();
        for i in 0..n
            invariant
                n <= buf@.len(),
                data@ == buf@.take(i as int),
        {
            data.push(buf[i]);
            assert(data@ =~= buf@.take(i + 1));
        }
        StreamEvt { evt_type: StreamEvtType::UDP, evt_data: data }
    }

    /// The event's origin.
    pub fn evt_type(&self) -> (r: StreamEvtType)
        ensures
            r == self.spec_evt_type(),
    {
        self.evt_type
    }

    /// The event's data.
    pub fn evt_data(&self) -> (r: &Vec<u8>)
        ensures
            r@ == self.spec_evt_data(),
    {
        &self.evt_data
    }

    /// A copy of the event.
    pub fn duplicate(&self) -> (r: Self)
        ensures
            r.spec_evt_type() == self.spec_evt_type(),
            r.spec_evt_data() == self.spec_evt_data(),
    {
        StreamEvt { evt_type: self.evt_type, evt_data: self.evt_data.clone() }
    }
}

/// What the relay loop receives from the event channel.
pub enum RelayInput {
    /// An event.
    Event(StreamEvt),
    /// The loop fell behind and this many events were dropped.
    Lagged(u64),
    /// Every sender is gone.
    Closed,
}

/// What the relay loop does next.
pub enum RelayAction {
    /// Send these bytes to every viewer.
    Forward(Vec<u8>),
    /// Ignore the event.
    Skip,
    /// Report the dropped events and go on.
    ReportLag(u64),
    /// Report the closed channel and stop.
    Stop,
}

/// The bytes the relay sends to the viewers for an event of origin `t` holding
/// `data`: only datagrams from the encoder are sent.
pub open spec fn spec_relay(t: StreamEvtType, data: Seq<u8>) -> Option<Seq<u8>> {
    if t == StreamEvtType::UDP {
        Some(data)
    } else {
        None
    }
}

/// The relay's reaction to one input.
pub fn relay_step(input: RelayInput) -> (r: RelayAction)
    ensures
        match input {
            RelayInput::Event(e) => match spec_relay(e.spec_evt_type(), e.spec_evt_data()) {
                Some(d) => r matches RelayAction::Forward(x) && x@ == d,
                None => r is Skip,
            },
            RelayInput::Lagged(n) => r matches RelayAction::ReportLag(m) && m == n,
            RelayInput::Closed => r is Stop,
        },
{
    match input {
        RelayInput::Event(e) => {
            if e.evt_type == StreamEvtType::UDP {
                RelayAction::Forward(e.evt_data)
            } else {
                RelayAction::Skip
            }
        },
        RelayInput::Lagged(n) => RelayAction::ReportLag(n),
        RelayInput::Closed => RelayAction::Stop,
    }
}

/// The datagram bytes that the relay's socket received (the first `n` bytes of
/// its buffer) reach the viewers unchanged, and nothing else that enters the
/// channel does.
pub proof fn law_datagram_relayed(buf: Seq<u8>, n: int, t: StreamEvtType, other: Seq<u8>)
    requires
        0 <= n <= buf.len(),
    ensures
        spec_relay(StreamEvtType::UDP, buf.take(n)) == Some(buf.take(n)),
        t != StreamEvtType::UDP ==> spec_relay(t, other) is None,
{
}

/// The bytes the relay sends to the viewers, in order, for the events `evs`
/// (origin and data) taken from its channel one after the other.
pub open spec fn spec_forwarded(evs: Seq<(StreamEvtType, Seq<u8>)>) -> Seq<Seq<u8>>
    decreases evs.len(),
{
    if evs.len() == 0 {
        Seq::empty()
    } else {
        let before = spec_forwarded(evs.drop_last());
        match spec_relay(evs.last().0, evs.last().1) {
            Some(d) => before.push(d),
            None => before,
        }
    }
}

/// The events the datagram receiver puts on the channel for the payloads `ps`.
pub open spec fn datagram_events(ps: Seq<Seq<u8>>) -> Seq<(StreamEvtType, Seq<u8>)> {
    ps.map_values(|d: Seq<u8>| (StreamEvtType::UDP, d))
}

/// Datagrams received one after the other reach the viewers each exactly once,
/// unchanged and in arrival order; an event of another origin sends nothing.
pub proof fn law_relay_sequence(ps: Seq<Seq<u8>>, evs: Seq<(StreamEvtType, Seq<u8>)>, t: StreamEvtType, d: Seq<u8>)
    ensures
        spec_forwarded(datagram_events(ps)) == ps,
        t != StreamEvtType::UDP ==> spec_forwarded(evs.push((t, d))) == spec_forwarded(evs),
        spec_forwarded(evs.push((StreamEvtType::UDP, d))) == spec_forwarded(evs).push(d),
    decreases ps.len(),
{
    assert(evs.push((t, d)).drop_last() =~= evs);
    assert(evs.push((StreamEvtType::UDP, d)).drop_last() =~= evs);
    if ps.len() > 0 {
        law_relay_sequence(ps.drop_last(), evs, t, d);
        assert(datagram_events(ps).drop_last() =~= datagram_events(ps.drop_last()));
        assert(spec_forwarded(datagram_events(ps)) =~= ps);
    } else {
        assert(datagram_events(ps).len() == 0);
    }
}

/// The clients whose send succeeded, in order: `delivered[i]` tells whether
/// the send to `clients[i]` succeeded.
pub open spec fn spec_retain_delivered<T>(clients: Seq<T>, delivered: Seq<bool>) -> Seq<T>
    decreases clients.len(),
{
    if clients.len() == 0 || delivered.len() == 0 {
        Seq::empty()
    } else {
        let rest = spec_retain_delivered(clients.drop_last(), delivered.drop_last());
        if delivered.last() {
            rest.push(clients.last())
        } else {
            rest
        }
    }
}

/// Drops the clients whose send failed, keeping the others in order.
pub fn retain_delivered<T>(clients: Vec<T>, delivered: &Vec<bool>) -> (r: Vec<T>)
    requires
        clients@.len() == delivered@.len(),
    ensures
        r@ == spec_retain_delivered(clients@, delivered@),
{
    let ghost all = clients@;
    let mut r: Vec<T> = Vec::new();
    let mut i: usize = 0;
    let len = delivered.len();
    for c in it: clients.into_iter()
        invariant
            len == delivered@.len(),
            it.seq() == all,
            i == it.index(),
            all.len() == delivered@.len(),
            r@ == spec_retain_delivered(all.take(i as int), delivered@.take(i as int)),
    {
        proof {
            assert(all.take(i + 1).drop_last() =~= all.take(i as int));
            assert(delivered@.take(i + 1).drop_last() =~= delivered@.take(i as int));
        }
        assert(i < len);
        let keep = delivered[i];
        if keep {
            r.push(c);
        }
        i = i + 1;
    }
    assert(all.take(i as int) =~= all);
    assert(delivered@.take(i as int) =~= delivered@);
    r
}

/// Pruning splits along any cut: the clients kept from two runs laid end to
/// end are those kept from the first run followed by those kept from the
/// second.
pub proof fn law_retain_concat<T>(c1: Seq<T>, d1: Seq<bool>, c2: Seq<T>, d2: Seq<bool>)
    requires
        c1.len() == d1.len(),
        c2.len() == d2.len(),
    ensures
        spec_retain_delivered(c1 + c2, d1 + d2) == spec_retain_delivered(c1, d1) + spec_retain_delivered(c2, d2),
    decreases c2.len(),
{
    if c2.len() == 0 {
        assert(c1 + c2 =~= c1);
        assert(d1 + d2 =~= d1);
        assert(spec_retain_delivered(c2, d2) =~= Seq::<T>::empty());
    } else {
        law_retain_concat(c1, d1, c2.drop_last(), d2.drop_last());
        assert((c1 + c2).drop_last() =~= c1 + c2.drop_last());
        assert((d1 + d2).drop_last() =~= d1 + d2.drop_last());
        assert((c1 + c2).last() == c2.last());
        assert((d1 + d2).last() == d2.last());
        if d2.last() {
            assert(spec_retain_delivered(c1 + c2, d1 + d2) =~= spec_retain_delivered(c1, d1)
                + spec_retain_delivered(c2, d2));
        }
    }
}

/// Each client is kept exactly when its own send succeeded, whatever happened
/// to the others: a client on its own is kept exactly when its flag is set,
/// and (with `law_retain_concat`) the client at any position `i` of a list is
/// in the kept list, between the clients kept before and after it, exactly
/// when `delivered[i]` holds. The kept list is as long as the number of
/// successful sends.
pub proof fn law_retain_each_client<T>(clients: Seq<T>, delivered: Seq<bool>, i: int)
    requires
        clients.len() == delivered.len(),
        0 <= i < clients.len(),
    ensures
        spec_retain_delivered(seq![clients[i]], seq![delivered[i]]) == (if delivered[i] {
            seq![clients[i]]
        } else {
            Seq::<T>::empty()
        }),
        spec_retain_delivered(clients, delivered) == spec_retain_delivered(
            clients.take(i),
            delivered.take(i),
        ) + (if delivered[i] {
            seq![clients[i]]
        } else {
            Seq::<T>::empty()
        }) + spec_retain_delivered(clients.skip(i + 1), delivered.skip(i + 1)),
        spec_retain_delivered(clients, delivered).len() == delivered.filter(|b: bool| b).len(),
    decreases clients.len(),
{
    let one_c = seq![clients[i]];
    let one_d = seq![delivered[i]];
    assert(one_c.drop_last() =~= Seq::<T>::empty());
    assert(one_d.drop_last() =~= Seq::<bool>::empty());
    assert(spec_retain_delivered(Seq::<T>::empty(), Seq::<bool>::empty()) =~= Seq::<T>::empty());
    assert(one_c.last() == clients[i] && one_d.last() == delivered[i]);
    let single = spec_retain_delivered(one_c, one_d);
    if delivered[i] {
        assert(single =~= Seq::<T>::empty().push(clients[i]));
        assert(single =~= one_c);
    } else {
        assert(single =~= Seq::<T>::empty());
    }
    law_retain_concat(clients.take(i), delivered.take(i), one_c, one_d);
    law_retain_concat(clients.take(i) + one_c, delivered.take(i) + one_d, clients.skip(i + 1), delivered.skip(i + 1));
    assert(clients.take(i) + one_c + clients.skip(i + 1) =~= clients);
    assert(delivered.take(i) + one_d + delivered.skip(i + 1) =~= delivered);
    lemma_retain_len(clients, delivered);
}

/// The kept list is as long as the number of successful sends.
proof fn lemma_retain_len<T>(clients: Seq<T>, delivered: Seq<bool>)
    requires
        clients.len() == delivered.len(),
    ensures
        spec_retain_delivered(clients, delivered).len() == delivered.filter(|b: bool| b).len(),
    decreases clients.len(),
{
    reveal_with_fuel(Seq::<_>::filter, 1);
    if clients.len() > 0 {
        lemma_retain_len(clients.drop_last(), delivered.drop_last());
    }
}

/// Where every send succeeded every client stays, in order; where every send
/// failed none does.
pub proof fn law_retain_delivered<T>(clients: Seq<T>, delivered: Seq<bool>)
    requires
        clients.len() == delivered.len(),
    ensures
        (forall|i: int| 0 <= i < delivered.len() ==> #[trigger] delivered[i])
            ==> spec_retain_delivered(clients, delivered) == clients,
        (forall|i: int| 0 <= i < delivered.len() ==> !#[trigger] delivered[i])
            ==> spec_retain_delivered(clients, delivered).len() == 0,
    decreases clients.len(),
{
    if clients.len() > 0 {
        law_retain_delivered(clients.drop_last(), delivered.drop_last());
        if forall|i: int| 0 <= i < delivered.len() ==> #[trigger] delivered[i] {
            assert(forall|i: int|
                0 <= i < delivered.drop_last().len() ==> #[trigger] delivered.drop_last()[i]
                    == delivered[i]);
            assert(delivered[delivered.len() - 1]);
            assert(clients.drop_last().push(clients.last()) =~= clients);
        }
        if forall|i: int| 0 <= i < delivered.len() ==> !#[trigger] delivered[i] {
            assert(forall|i: int|
                0 <= i < delivered.drop_last().len() ==> #[trigger] delivered.drop_last()[i]
                    == delivered[i]);
            assert(!delivered[delivered.len() - 1]);
        }
    }
}

/// The encoder's arguments: capture the screen (with the cursor) at 30 frames
/// per second, encode MPEG-1 video at 1000 kbit/s in an MPEG transport stream,
/// and send it to [`FFMPEG_UP_ADDR`].
pub open spec fn spec_ffmpeg_capture_args() -> Seq<Seq<char>> {
    seq![
        "-f"@,
        "avfoundation"@,
        "-capture_cursor"@,
        "1"@,
        "-framerate"@,
        "30"@,
        "-i"@,
        "0"@,
        "-c:v"@,
        "mpeg1video"@,
        "-b:v"@,
        "1000k"@,
        "-f"@,
        "mpegts"@,
        FFMPEG_UP_ADDR@,
    ]
}

/// The views of a list of string slices.
pub open spec fn str_views(v: Seq<&'static str>) -> Seq<Seq<char>> {
    v.map_values(|s: &'static str| s@)
}

/// The arguments the encoder is started with.
pub fn ffmpeg_capture_args() -> (r: Vec<&'static str>)
    ensures
        str_views(r@) == spec_ffmpeg_capture_args(),
{
    let r: Vec<&'static str> = vec![
        "-f",
        "avfoundation",
        "-capture_cursor",
        "1",
        "-framerate",
        "30",
        "-i",
        "0",
        "-c:v",
        "mpeg1video",
        "-b:v",
        "1000k",
        "-f",
        "mpegts",
        FFMPEG_UP_ADDR,
    ];
    assert(str_views(r@) =~= spec_ffmpeg_capture_args());
    r
}

} // verus!
