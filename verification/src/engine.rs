//! The request/response protocol engine.
//!
//! `Notecard` owns the bus. `submit_raw` and `submit_structured` frame one
//! request, validate it against the request buffer capacity, transmit it in
//! bus-legal chunks, and hand back a [`FutureResponse`]: a deferred handle
//! that holds the only mutable borrow of the engine, so a second request
//! cannot be issued before the first response is drained. Resolving the
//! handle polls the peer, reassembles the newline-terminated response frame
//! within the fixed response buffer, and classifies it.
use vstd::prelude::*;
use vstd::string::StringSliceAdditionalSpecFns;

use crate::json;
use crate::{EngineConfig, TransportFault};

verus! {

/// A transfer log: each entry is the bytes of one bus transfer, oldest
/// first. Implementations of [`NoteBus`] outside this crate return it from
/// their erased ghost items.
pub type TransferLog = Seq<Seq<u8>>;

/// The bus primitive the engine drives: one bounded addressed write and one
/// bounded addressed read. Implementations wrap the platform's two-wire
/// peripheral; an implementation that needs an inter-poll delay performs it
/// inside `read`.
///
/// The two logs are ghost state: they store nothing at run time, and the
/// method contracts say how each call extends them. Every contract of the
/// engine that speaks of what was transmitted or received speaks over them.
pub trait NoteBus {
    /// The acknowledged outbound transfers, in order, oldest first.
    spec fn spec_sent(&self) -> Seq<Seq<u8>>;

    /// The completed inbound transfers, in order, oldest first.
    spec fn spec_served(&self) -> Seq<Seq<u8>>;

    /// Writes `data` as one bus transfer; `Err` means the peer did not
    /// acknowledge, and an unacknowledged transfer is not recorded.
    fn write(&mut self, addr: u8, data: &[u8]) -> (r: Result<(), ()>)
        ensures
            r matches Ok(_) ==> final(self).spec_sent() == old(self).spec_sent().push(data@),
            r matches Err(_) ==> final(self).spec_sent() == old(self).spec_sent(),
            final(self).spec_served() == old(self).spec_served(),
    ;

    /// Reads exactly `len` bytes as one bus transfer; `Err` means the peer
    /// did not acknowledge.
    fn read(&mut self, addr: u8, len: usize) -> (r: Result<Vec<u8>, ()>)
        ensures
            r matches Ok(v) ==> v@.len() == len && final(self).spec_served() == old(
                self,
            ).spec_served().push(v@),
            r matches Err(_) ==> final(self).spec_served() == old(self).spec_served(),
            final(self).spec_sent() == old(self).spec_sent(),
    ;
}

/// A request frame as transmitted: the newline terminator is appended unless
/// already present.
pub open spec fn spec_framed(req: Seq<u8>) -> Seq<u8> {
    if req.len() > 0 && req[req.len() - 1] == 10 {
        req
    } else {
        req.push(10)
    }
}

/// How a payload is split for the bus: each transfer is a one-byte payload
/// length followed by at most `chunk` payload bytes, in order.
pub open spec fn spec_chunks(data: Seq<u8>, chunk: int) -> Seq<Seq<u8>>
    decreases data.len(),
{
    if data.len() == 0 || chunk < 1 {
        Seq::empty()
    } else if data.len() <= chunk {
        seq![seq![data.len() as u8] + data]
    } else {
        seq![seq![chunk as u8] + data.take(chunk)] + spec_chunks(data.skip(chunk), chunk)
    }
}

/// The fixed read request: a zero marker and the count of payload bytes
/// asked for. This two-byte form is a protocol constant of the peer.
pub open spec fn spec_read_request(n: int) -> Seq<u8> {
    seq![0u8, n as u8]
}

/// The payload a read reply carries: its two-byte header reports the bytes
/// still available and the payload length, and the payload follows.
pub open spec fn spec_reply_payload(t: Seq<u8>) -> Seq<u8> {
    if t.len() >= 2 && t[1] as int <= t.len() - 2 {
        t.subrange(2, 2 + t[1])
    } else {
        Seq::empty()
    }
}

/// The response bytes carried by a run of read replies, in order.
pub open spec fn spec_replies_payload(ts: Seq<Seq<u8>>) -> Seq<u8>
    decreases ts.len(),
{
    if ts.len() == 0 {
        Seq::empty()
    } else {
        spec_replies_payload(ts.drop_last()) + spec_reply_payload(ts.last())
    }
}

/// Between the two log states, every new outbound transfer was a two-byte
/// read request: the engine transmitted no payload.
pub open spec fn spec_only_read_requests(a: Seq<Seq<u8>>, b: Seq<Seq<u8>>) -> bool {
    a.is_prefix_of(b) && forall|j: int|
        a.len() <= j < b.len() ==> (#[trigger] b[j]).len() == 2 && b[j][0] == 0
}

pub proof fn lemma_prefix_trans<A>(a: Seq<A>, b: Seq<A>, c: Seq<A>)
    requires
        a.is_prefix_of(b),
        b.is_prefix_of(c),
    ensures
        a.is_prefix_of(c),
{
    assert(c.take(a.len() as int) =~= a);
}

pub proof fn lemma_only_read_requests_trans(a: Seq<Seq<u8>>, b: Seq<Seq<u8>>, c: Seq<Seq<u8>>)
    requires
        spec_only_read_requests(a, b),
        spec_only_read_requests(b, c),
    ensures
        spec_only_read_requests(a, c),
{
    assert(a.is_prefix_of(c));
    assert forall|j: int| a.len() <= j < c.len() implies (#[trigger] c[j]).len() == 2 && c[j][0]
        == 0 by {
        if j < b.len() {
            assert(c[j] == b[j]);
        }
    }
}

/// After one more served transfer, the reply payload gathered since `base`
/// grows by exactly that transfer's payload.
pub proof fn lemma_reply_concat_step(base: Seq<Seq<u8>>, s1: Seq<Seq<u8>>, s2: Seq<Seq<u8>>, tr: Seq<u8>)
    requires
        base.is_prefix_of(s1),
        s2 == s1.push(tr),
    ensures
        s2.skip(base.len() as int) == s1.skip(base.len() as int).push(tr),
        spec_replies_payload(s2.skip(base.len() as int)) == spec_replies_payload(
            s1.skip(base.len() as int),
        ) + spec_reply_payload(tr),
{
    assert(s2.skip(base.len() as int) =~= s1.skip(base.len() as int).push(tr));
    let x = s1.skip(base.len() as int);
    assert(x.push(tr).drop_last() =~= x);
    assert(x.push(tr).last() == tr);
}

/// Reply payloads concatenate over appended transfer runs.
pub proof fn lemma_replies_payload_append(a: Seq<Seq<u8>>, b: Seq<Seq<u8>>)
    ensures
        spec_replies_payload(a + b) == spec_replies_payload(a) + spec_replies_payload(b),
    decreases b.len(),
{
    if b.len() == 0 {
        assert(a + b =~= a);
        assert(spec_replies_payload(a) + spec_replies_payload(b) =~= spec_replies_payload(a));
    } else {
        lemma_replies_payload_append(a, b.drop_last());
        assert((a + b).drop_last() =~= a + b.drop_last());
        assert((a + b).last() == b.last());
        assert(spec_replies_payload(a) + (spec_replies_payload(b.drop_last())
            + spec_reply_payload(b.last())) =~= (spec_replies_payload(a) + spec_replies_payload(
            b.drop_last(),
        )) + spec_reply_payload(b.last()));
    }
}

/// A step that serves no reply, or a reply without payload, keeps the reply
/// payload gathered since `base` empty.
pub proof fn lemma_empty_reply_step(base: Seq<Seq<u8>>, s1: Seq<Seq<u8>>, s2: Seq<Seq<u8>>)
    requires
        base.is_prefix_of(s1),
        spec_replies_payload(s1.skip(base.len() as int)) == Seq::<u8>::empty(),
        s2 == s1 || exists|tr: Seq<u8>| s2 == s1.push(tr) && spec_reply_payload(tr).len() == 0,
    ensures
        spec_replies_payload(s2.skip(base.len() as int)) == Seq::<u8>::empty(),
{
    if s2 != s1 {
        let tr = choose|tr: Seq<u8>| s2 == s1.push(tr) && spec_reply_payload(tr).len() == 0;
        lemma_reply_concat_step(base, s1, s2, tr);
        assert(spec_reply_payload(tr) =~= Seq::<u8>::empty());
        assert(spec_replies_payload(s1.skip(base.len() as int)) + spec_reply_payload(tr)
            =~= Seq::<u8>::empty());
    }
}

/// The peer's semantic error envelope: the value of the reserved `err`
/// field, byte for byte as it stands on the wire. Escape sequences inside
/// the JSON string are not decoded: a message carrying `\"` keeps its
/// backslash. Auxiliary context fields of the envelope stay in the frame and
/// are not carried here.
#[derive(Clone, PartialEq, Eq, Debug)]
pub struct NotecardError {
    pub err: Vec<u8>,
}

/// The classified result of one request/response cycle.
#[derive(Clone, PartialEq, Eq, Debug)]
pub enum Outcome<T> {
    /// The peer answered with the caller's expected shape.
    Success(T),
    /// The peer understood the request and reported a semantic failure;
    /// never treated as success.
    DeviceError(NotecardError),
    /// The transport failed; see [`TransportFault`].
    Fault(TransportFault),
}

/// A request that serializes itself to one compact JSON object.
pub trait Request {
    /// The exact bytes this request serializes to, terminator excluded.
    spec fn spec_json(&self) -> Seq<u8>;

    /// Serializes the request.
    fn to_json(&self) -> (r: Vec<u8>)
        ensures
            r@ == self.spec_json(),
    ;
}

/// A response shape a caller can ask the engine to decode a frame into.
pub trait Response: Sized + DeepView {
    /// What a frame decodes to, or `None` when it does not hold this shape.
    spec fn spec_decode(frame: Seq<u8>) -> Option<Self::V>;

    /// Decodes a frame.
    fn from_frame(frame: &[u8]) -> (r: Option<Self>)
        requires
            frame@.len() <= json::MAX_FRAME,
        ensures
            match (r, Self::spec_decode(frame@)) {
                (Some(v), Some(m)) => v.deep_view() == m,
                (None, None) => true,
                _ => false,
            },
    ;
}

/// The message of the reserved error field, when the frame is a well-formed
/// object that carries one as a string.
pub open spec fn spec_err_msg(frame: Seq<u8>) -> Option<Seq<u8>> {
    if json::spec_is_object(frame) {
        match json::spec_items_start(frame) {
            Some(i) => match json::spec_str_at(frame, i, "err".spec_bytes()) {
                json::Field::Val(m) => Some(m),
                _ => None,
            },
            None => None,
        }
    } else {
        None
    }
}

impl NotecardError {
    /// Decodes the error envelope alone: the frame must be a well-formed
    /// object whose reserved error field holds a string.
    pub fn from_frame(frame: &[u8]) -> (r: Option<NotecardError>)
        requires
            frame@.len() <= json::MAX_FRAME,
        ensures
            match (r, spec_err_msg(frame@)) {
                (Some(e), Some(m)) => e.err@ == m,
                (None, None) => true,
                _ => false,
            },
    {
        if json::is_object(frame) {
            match json::items_start(frame) {
                Some(i) => {
                    match json::str_at(frame, i, "err".as_bytes()) {
                        json::Field::Val(m) => Some(NotecardError { err: m }),
                        _ => None,
                    }
                },
                None => None,
            }
        } else {
            None
        }
    }
}

/// How a received frame must be classified: the error envelope takes
/// precedence; otherwise the caller's expected shape decides between success
/// and a decode fault.
pub open spec fn spec_classified<T: Response>(frame: Seq<u8>, r: Outcome<T>) -> bool {
    match r {
        Outcome::DeviceError(e) => spec_err_msg(frame) == Some(e.err@),
        Outcome::Success(v) => spec_err_msg(frame) is None && (T::spec_decode(frame)
            matches Some(m) && v.deep_view() == m),
        Outcome::Fault(f) => f == TransportFault::DecodeError && spec_err_msg(frame) is None
            && T::spec_decode(frame) is None,
    }
}

/// Classifies one received frame: the device error envelope is decoded first;
/// only a frame without it is tried against the expected shape, and a frame
/// that fits neither is a decode fault.
pub fn classify_frame<T: Response>(frame: &[u8]) -> (r: Outcome<T>)
    requires
        frame@.len() <= json::MAX_FRAME,
    ensures
        spec_classified::<T>(frame@, r),
{
    if json::is_object(frame) {
        match json::items_start(frame) {
            Some(i) => {
                match json::str_at(frame, i, "err".as_bytes()) {
                    json::Field::Val(m) => {
                        return Outcome::DeviceError(NotecardError { err: m });
                    },
                    _ => {},
                }
            },
            None => {},
        }
    }
    match T::from_frame(frame) {
        Some(v) => Outcome::Success(v),
        None => Outcome::Fault(TransportFault::DecodeError),
    }
}

/// Law: a frame carrying the reserved error field is always classified as a
/// device error holding that field's message, whatever else the frame holds —
/// even fields that happen to match the expected success shape.
pub proof fn lemma_device_error_precedence<T: Response>(frame: Seq<u8>, r: Outcome<T>)
    requires
        spec_classified::<T>(frame, r),
        spec_err_msg(frame) is Some,
    ensures
        r matches Outcome::DeviceError(e) && Some(e.err@) == spec_err_msg(frame),
{
}

/// Law: classification is a function of the frame alone: two classifications
/// of equal frames agree in kind and, up to views, in payload. With equal
/// configuration and equal peer responses the engine therefore yields
/// identical outcomes.
pub proof fn lemma_classification_deterministic<T: Response>(
    frame: Seq<u8>,
    r1: Outcome<T>,
    r2: Outcome<T>,
)
    requires
        spec_classified::<T>(frame, r1),
        spec_classified::<T>(frame, r2),
    ensures
        match (r1, r2) {
            (Outcome::Success(a), Outcome::Success(b)) => a.deep_view() == b.deep_view(),
            (Outcome::DeviceError(a), Outcome::DeviceError(b)) => a.err@ == b.err@,
            (Outcome::Fault(a), Outcome::Fault(b)) => a == b,
            _ => false,
        },
{
}

/// Law: the outcome of a resolution is a function of the bytes the peer
/// replied with: two classifications whose frames carry the same terminated
/// reply agree in kind and, up to views, in payload. Together with
/// [`FutureResponse::resolve`]'s clause tying the classified frame to the
/// served reply bytes, a cycle over equal configuration and equal peer
/// replies yields identical outcomes.
pub proof fn lemma_outcome_determined_by_reply<T: Response>(
    f1: Seq<u8>,
    f2: Seq<u8>,
    r1: Outcome<T>,
    r2: Outcome<T>,
)
    requires
        spec_classified::<T>(f1, r1),
        spec_classified::<T>(f2, r2),
        f1.push(10u8) == f2.push(10u8),
    ensures
        match (r1, r2) {
            (Outcome::Success(a), Outcome::Success(b)) => a.deep_view() == b.deep_view(),
            (Outcome::DeviceError(a), Outcome::DeviceError(b)) => a.err@ == b.err@,
            (Outcome::Fault(a), Outcome::Fault(b)) => a == b,
            _ => false,
        },
{
    assert(f1.push(10u8).drop_last() =~= f1);
    assert(f2.push(10u8).drop_last() =~= f2);
    assert(f1 == f2);
    lemma_classification_deterministic::<T>(f1, r1, r2);
}

/// Law: on a frame without the reserved error field, classification owes
/// success exactly when the frame decodes as the expected shape, and the
/// payload is exactly the decoded value; otherwise the decode fault is
/// reported, never a silent default.
pub proof fn lemma_success_iff_decodes<T: Response>(frame: Seq<u8>, r: Outcome<T>)
    requires
        spec_classified::<T>(frame, r),
        spec_err_msg(frame) is None,
    ensures
        match r {
            Outcome::Success(v) => T::spec_decode(frame) == Some(v.deep_view()),
            Outcome::Fault(f) => f == TransportFault::DecodeError && T::spec_decode(frame)
                is None,
            Outcome::DeviceError(_) => false,
        },
{
}

/// Length of a request once framed: the terminating newline is appended
/// unless already present.
pub open spec fn spec_framed_len(req: Seq<u8>) -> int {
    if req.len() > 0 && req[req.len() - 1] == 10 {
        req.len() as int
    } else {
        req.len() + 1 as int
    }
}

/// The protocol engine; the sole owner of the underlying bus.
pub struct Notecard<B: NoteBus> {
    bus: B,
    addr: u8,
    cfg: EngineConfig,
}

/// A request has been sent; the response has not yet been read. The handle
/// holds the only mutable borrow of the engine for its lifetime and is
/// consumed exactly once by [`FutureResponse::resolve`]; its type parameter
/// names the structured shape the decoder will attempt.
pub struct FutureResponse<'a, T: Response, B: NoteBus> {
    /// The engine, borrowed exclusively until the handle is resolved. Public
    /// so that contracts can speak of the engine before and after resolving.
    pub note: &'a mut Notecard<B>,
    /// The structured shape the decoder will attempt.
    pub expected: core::marker::PhantomData<T>,
}

impl<B: NoteBus> Notecard<B> {
    /// The engine is well formed when its configuration is.
    pub closed spec fn wf(self) -> bool {
        self.cfg.wf()
    }

    pub closed spec fn spec_cfg(self) -> EngineConfig {
        self.cfg
    }

    /// Everything the engine has transmitted on the bus.
    pub closed spec fn spec_sent(self) -> Seq<Seq<u8>> {
        self.bus.spec_sent()
    }

    /// Every transfer the bus has served to the engine.
    pub closed spec fn spec_served(self) -> Seq<Seq<u8>> {
        self.bus.spec_served()
    }

    /// An engine over `bus` with the default configuration and the peer's
    /// conventional address.
    pub fn new(bus: B) -> (r: Self)
        ensures
            r.wf(),
            r.spec_cfg() == crate::spec_default_config(),
    {
        Notecard { bus, addr: 23, cfg: EngineConfig::new() }
    }

    /// An engine over `bus` at `addr` with the given configuration.
    pub fn with_config(bus: B, addr: u8, cfg: EngineConfig) -> (r: Self)
        requires
            cfg.wf(),
        ensures
            r.wf(),
            r.spec_cfg() == cfg,
    {
        Notecard { bus, addr, cfg }
    }

    /// The configured limits, for callers that size their requests.
    pub fn config(&self) -> (r: EngineConfig)
        ensures
            r == self.spec_cfg(),
    {
        self.cfg
    }

    /// Consumes the engine and releases the underlying bus.
    pub fn free(self) -> B {
        let Notecard { bus, addr: _, cfg: _ } = self;
        bus
    }

    /// Sends the full payload, split into chunks no larger than the
    /// configured bus transfer ceiling, each prefixed by its one-byte length.
    /// An acknowledgment failure on any chunk aborts the whole write. No
    /// retries at this layer.
    fn write_chunked(&mut self, data: &[u8]) -> (r: Result<(), TransportFault>)
        requires
            old(self).wf(),
        ensures
            final(self).wf(),
            final(self).spec_cfg() == old(self).spec_cfg(),
            final(self).spec_served() == old(self).spec_served(),
            r matches Ok(_) ==> final(self).spec_sent() == old(self).spec_sent() + spec_chunks(
                data@,
                old(self).spec_cfg().chunk_size as int,
            ),
            r matches Err(f) ==> f == TransportFault::NoAck && exists|k: int|
                0 <= k <= spec_chunks(data@, old(self).spec_cfg().chunk_size as int).len()
                    && final(self).spec_sent() == old(self).spec_sent() + spec_chunks(
                    data@,
                    old(self).spec_cfg().chunk_size as int,
                ).take(k),
    {
        let ghost cs = spec_chunks(data@, old(self).spec_cfg().chunk_size as int);
        let ghost mut ci: int = 0;
        proof {
            assert(cs.take(0) =~= Seq::<Seq<u8>>::empty());
            assert(data@.skip(0) =~= data@);
            assert(cs =~= cs.take(0) + spec_chunks(
                data@.skip(0),
                old(self).spec_cfg().chunk_size as int,
            ));
            assert(old(self).spec_sent() + cs.take(0) =~= old(self).spec_sent());
        }
        let mut i: usize = 0;
        while i < data.len()
            invariant
                self.wf(),
                self.spec_cfg() == old(self).spec_cfg(),
                i <= data@.len(),
                cs == spec_chunks(data@, old(self).spec_cfg().chunk_size as int),
                0 <= ci <= cs.len(),
                self.spec_sent() == old(self).spec_sent() + cs.take(ci),
                cs == cs.take(ci) + spec_chunks(
                    data@.skip(i as int),
                    old(self).spec_cfg().chunk_size as int,
                ),
                self.spec_served() == old(self).spec_served(),
            decreases data@.len() - i,
        {
            let n = if data.len() - i < self.cfg.chunk_size {
                data.len() - i
            } else {
                self.cfg.chunk_size
            };
            let mut msg: Vec<u8> = Vec::new();
            msg.push(n as u8);
            let mut j: usize = 0;
            while j < n
                invariant
                    j <= n,
                    i + n <= data@.len(),
                    data@.len() <= usize::MAX,
                    n <= 255,
                    msg@ == seq![n as u8] + data@.subrange(i as int, i + j as int),
                decreases n - j,
            {
                msg.push(data[i + j]);
                proof {
                    assert(seq![n as u8] + data@.subrange(i as int, i + j + 1 as int) =~= (seq![
                        n as u8,
                    ] + data@.subrange(i as int, i + j as int)).push(data@[i + j]));
                }
                j += 1;
            }
            proof {
                let c = old(self).spec_cfg().chunk_size as int;
                let rem = data@.skip(i as int);
                if rem.len() <= c {
                    assert(data@.subrange(i as int, i + n as int) =~= rem);
                    assert(msg@ =~= seq![rem.len() as u8] + rem);
                    assert(spec_chunks(rem, c) =~= seq![msg@]);
                    assert(data@.skip(i + n).len() == 0);
                    assert(spec_chunks(data@.skip(i + n), c) =~= Seq::<Seq<u8>>::empty());
                    assert(spec_chunks(rem, c) =~= seq![msg@] + spec_chunks(data@.skip(i + n), c));
                } else {
                    assert(data@.subrange(i as int, i + n as int) =~= rem.take(c));
                    assert(msg@ =~= seq![c as u8] + rem.take(c));
                    assert(rem.skip(c) =~= data@.skip(i + n));
                    assert(spec_chunks(rem, c) =~= seq![msg@] + spec_chunks(data@.skip(i + n), c));
                }
                assert(cs =~= cs.take(ci) + (seq![msg@] + spec_chunks(data@.skip(i + n), c)));
            }
            if self.bus.write(self.addr, msg.as_slice()).is_err() {
                proof {
                    assert(self.spec_sent() == old(self).spec_sent() + cs.take(ci));
                }
                return Err(TransportFault::NoAck);
            }
            proof {
                let c = old(self).spec_cfg().chunk_size as int;
                assert(cs.take(ci + 1) =~= cs.take(ci).push(msg@));
                assert(old(self).spec_sent() + cs.take(ci + 1) =~= (old(self).spec_sent()
                    + cs.take(ci)).push(msg@));
                assert(cs =~= cs.take(ci + 1) + spec_chunks(data@.skip(i + n), c));
                ci = ci + 1;
            }
            i += n;
        }
        proof {
            assert(data@.skip(i as int).len() == 0);
            assert(spec_chunks(data@.skip(i as int), old(self).spec_cfg().chunk_size as int)
                =~= Seq::<Seq<u8>>::empty());
            assert(cs.take(ci) =~= cs);
        }
        Ok(())
    }

    /// One bounded read: asks the peer for up to `n` payload bytes and
    /// returns them with the peer-reported count of bytes still available
    /// after this read. The peer prefixes every read response with a
    /// two-byte header: the available count, then the payload length.
    fn read_chunk(&mut self, n: usize) -> (r: Result<(Vec<u8>, u8), TransportFault>)
        requires
            old(self).wf(),
            n <= old(self).spec_cfg().chunk_size,
        ensures
            final(self).wf(),
            final(self).spec_cfg() == old(self).spec_cfg(),
            spec_only_read_requests(old(self).spec_sent(), final(self).spec_sent()),
            old(self).spec_served().is_prefix_of(final(self).spec_served()),
            r matches Ok(p) ==> p.0@.len() <= n && final(self).spec_sent() == old(
                self,
            ).spec_sent().push(spec_read_request(n as int)) && (exists|tr: Seq<u8>|
                final(self).spec_served() == old(self).spec_served().push(tr) && tr.len() == n + 2
                    && tr[0] == p.1 && spec_reply_payload(tr) == p.0@),
            r matches Err(f) ==> (f == TransportFault::NoAck || f == TransportFault::Malformed) && (
            final(self).spec_served() == old(self).spec_served() || exists|tr: Seq<u8>|
                final(self).spec_served() == old(self).spec_served().push(tr) && tr.len() == n + 2
                    && spec_reply_payload(tr).len() <= n),
    {
        let mut reqmsg: Vec<u8> = Vec::new();
        reqmsg.push(0);
        reqmsg.push(n as u8);
        proof {
            assert(reqmsg@ =~= spec_read_request(n as int));
        }
        if self.bus.write(self.addr, reqmsg.as_slice()).is_err() {
            return Err(TransportFault::NoAck);
        }
        match self.bus.read(self.addr, n + 2) {
            Err(_) => Err(TransportFault::NoAck),
            Ok(resp) => {
                let avail = resp[0];
                let actual = resp[1];
                if (actual as usize) > n {
                    proof {
                        assert(spec_reply_payload(resp@).len() <= n);
                    }
                    return Err(TransportFault::Malformed);
                }
                let payload = json::copy_range(resp.as_slice(), 2, 2 + (actual as usize));
                proof {
                    assert(spec_reply_payload(resp@) == payload@);
                }
                Ok((payload, avail))
            },
        }
    }

    /// Issues zero-payload status reads until the peer reports buffered
    /// response bytes, or the configured attempt budget is exhausted. The
    /// budget is a count of attempts, not wall-clock time; a bus
    /// implementation that wants an inter-poll delay sleeps inside its
    /// `read`.
    fn poll_ready(&mut self) -> (r: Result<u8, TransportFault>)
        requires
            old(self).wf(),
        ensures
            final(self).wf(),
            final(self).spec_cfg() == old(self).spec_cfg(),
            spec_only_read_requests(old(self).spec_sent(), final(self).spec_sent()),
            old(self).spec_served().is_prefix_of(final(self).spec_served()),
            spec_replies_payload(
                final(self).spec_served().skip(old(self).spec_served().len() as int),
            ) == Seq::<u8>::empty(),
            r matches Ok(a) ==> a > 0,
            r matches Err(f) ==> f == TransportFault::NoAck || f == TransportFault::Timeout
                || f == TransportFault::Malformed,
            r == Err::<u8, TransportFault>(TransportFault::Timeout) ==> final(self).spec_sent()
                == old(self).spec_sent() + Seq::new(
                old(self).spec_cfg().max_attempts as nat,
                |q: int| spec_read_request(0),
            ),
    {
        let ghost polls0 = Seq::new(
            old(self).spec_cfg().max_attempts as nat,
            |q: int| spec_read_request(0),
        );
        let ghost mut done: int = 0;
        proof {
            assert(self.spec_sent() =~= old(self).spec_sent() + polls0.take(0));
            assert(self.spec_served().skip(old(self).spec_served().len() as int)
                =~= Seq::<Seq<u8>>::empty());
        }
        let mut attempts = self.cfg.max_attempts;
        while attempts > 0
            invariant
                self.wf(),
                self.spec_cfg() == old(self).spec_cfg(),
                polls0 == Seq::new(
                    old(self).spec_cfg().max_attempts as nat,
                    |q: int| spec_read_request(0),
                ),
                attempts + done == old(self).spec_cfg().max_attempts,
                0 <= done <= polls0.len(),
                self.spec_sent() == old(self).spec_sent() + polls0.take(done),
                spec_only_read_requests(old(self).spec_sent(), self.spec_sent()),
                old(self).spec_served().is_prefix_of(self.spec_served()),
                spec_replies_payload(
                    self.spec_served().skip(old(self).spec_served().len() as int),
                ) == Seq::<u8>::empty(),
            decreases attempts,
        {
            let ghost pre = *self;
            match self.read_chunk(0) {
                Err(f) => {
                    proof {
                        lemma_only_read_requests_trans(
                            old(self).spec_sent(),
                            pre.spec_sent(),
                            self.spec_sent(),
                        );
                        lemma_prefix_trans(
                            old(self).spec_served(),
                            pre.spec_served(),
                            self.spec_served(),
                        );
                        assert(self.spec_served() == pre.spec_served() || exists|tr: Seq<u8>|
                            self.spec_served() == pre.spec_served().push(tr)
                                && spec_reply_payload(tr).len() == 0);
                        lemma_empty_reply_step(
                            old(self).spec_served(),
                            pre.spec_served(),
                            self.spec_served(),
                        );
                    }
                    return Err(f);
                },
                Ok((_header_only, avail)) => {
                    proof {
                        assert(self.spec_sent() == pre.spec_sent().push(spec_read_request(0)));
                        assert(polls0.take(done + 1) =~= polls0.take(done).push(
                            spec_read_request(0),
                        ));
                        assert(old(self).spec_sent() + polls0.take(done + 1) =~= (old(
                            self,
                        ).spec_sent() + polls0.take(done)).push(spec_read_request(0)));
                        lemma_only_read_requests_trans(
                            old(self).spec_sent(),
                            pre.spec_sent(),
                            self.spec_sent(),
                        );
                        lemma_prefix_trans(
                            old(self).spec_served(),
                            pre.spec_served(),
                            self.spec_served(),
                        );
                        assert(self.spec_served() == pre.spec_served() || exists|tr: Seq<u8>|
                            self.spec_served() == pre.spec_served().push(tr)
                                && spec_reply_payload(tr).len() == 0);
                        lemma_empty_reply_step(
                            old(self).spec_served(),
                            pre.spec_served(),
                            self.spec_served(),
                        );
                        done = done + 1;
                    }
                    if avail > 0 {
                        return Ok(avail);
                    }
                },
            }
            attempts -= 1;
        }
        proof {
            assert(polls0.take(done) =~= polls0);
        }
        Err(TransportFault::Timeout)
    }

    /// Reads and discards whatever response bytes the peer still buffers, so
    /// that an abandoned or overflowed response cannot corrupt framing for
    /// the next request. Best effort, bounded by the attempt budget.
    fn drain_pending(&mut self, first_avail: u8)
        requires
            old(self).wf(),
        ensures
            final(self).wf(),
            final(self).spec_cfg() == old(self).spec_cfg(),
            spec_only_read_requests(old(self).spec_sent(), final(self).spec_sent()),
            old(self).spec_served().is_prefix_of(final(self).spec_served()),
    {
        let mut avail = first_avail;
        let mut attempts = self.cfg.max_attempts;
        while avail > 0 && attempts > 0
            invariant
                self.wf(),
                self.spec_cfg() == old(self).spec_cfg(),
                spec_only_read_requests(old(self).spec_sent(), self.spec_sent()),
                old(self).spec_served().is_prefix_of(self.spec_served()),
            decreases attempts,
        {
            let n = if (avail as usize) < self.cfg.chunk_size {
                avail as usize
            } else {
                self.cfg.chunk_size
            };
            let ghost pre = *self;
            let step = self.read_chunk(n);
            proof {
                lemma_only_read_requests_trans(
                    old(self).spec_sent(),
                    pre.spec_sent(),
                    self.spec_sent(),
                );
                lemma_prefix_trans(
                    old(self).spec_served(),
                    pre.spec_served(),
                    self.spec_served(),
                );
            }
            match step {
                Err(_) => {
                    return ;
                },
                Ok((_discarded, a)) => {
                    avail = a;
                },
            }
            attempts -= 1;
        }
    }

    /// Pulls the complete response into a bounded buffer: polls for
    /// readiness, then reads up to the least of the peer-reported available
    /// count, the chunk ceiling and the remaining buffer room, until the
    /// buffer ends in the newline terminator. A peer that stops before the
    /// terminator is a malformed frame; a response that would exceed the
    /// buffer is an overflow, and the rest of it is drained first. On
    /// success the returned bytes exclude the terminator.
    fn read_frame(&mut self) -> (r: Result<Vec<u8>, TransportFault>)
        requires
            old(self).wf(),
        ensures
            final(self).wf(),
            final(self).spec_cfg() == old(self).spec_cfg(),
            spec_only_read_requests(old(self).spec_sent(), final(self).spec_sent()),
            old(self).spec_served().is_prefix_of(final(self).spec_served()),
            r matches Ok(frame) ==> frame@.len() < old(self).spec_cfg().response_capacity
                && frame@.push(10u8) == spec_replies_payload(
                final(self).spec_served().skip(old(self).spec_served().len() as int),
            ),
            r matches Err(f) ==> f != TransportFault::TooLarge && f != TransportFault::DecodeError,
            r == Err::<Vec<u8>, TransportFault>(TransportFault::Overflow)
                ==> spec_replies_payload(
                final(self).spec_served().skip(old(self).spec_served().len() as int),
            ).len() >= old(self).spec_cfg().response_capacity,
            r == Err::<Vec<u8>, TransportFault>(TransportFault::Timeout)
                ==> final(self).spec_sent() == old(self).spec_sent() + Seq::new(
                old(self).spec_cfg().max_attempts as nat,
                |q: int| spec_read_request(0),
            ),
    {
        let cap = self.cfg.response_capacity;
        let mut buf: Vec<u8> = Vec::new();
        let mut avail: u8 = match self.poll_ready() {
            Ok(a) => a,
            Err(f) => {
                return Err(f);
            },
        };
        loop
            invariant
                self.wf(),
                self.spec_cfg() == old(self).spec_cfg(),
                cap == old(self).spec_cfg().response_capacity,
                buf@.len() <= cap,
                avail >= 1,
                spec_only_read_requests(old(self).spec_sent(), self.spec_sent()),
                old(self).spec_served().is_prefix_of(self.spec_served()),
                buf@ == spec_replies_payload(
                    self.spec_served().skip(old(self).spec_served().len() as int),
                ),
            decreases cap - buf@.len(),
        {
            let room = cap - buf.len();
            if room == 0 {
                let ghost pre = *self;
                self.drain_pending(avail);
                proof {
                    lemma_only_read_requests_trans(
                        old(self).spec_sent(),
                        pre.spec_sent(),
                        self.spec_sent(),
                    );
                    lemma_prefix_trans(
                        old(self).spec_served(),
                        pre.spec_served(),
                        self.spec_served(),
                    );
                    let lo = old(self).spec_served().len() as int;
                    let gathered = pre.spec_served().skip(lo);
                    let extra = self.spec_served().skip(pre.spec_served().len() as int);
                    assert(self.spec_served().skip(lo) =~= gathered + extra);
                    lemma_replies_payload_append(gathered, extra);
                }
                return Err(TransportFault::Overflow);
            }
            let mut n = avail as usize;
            if self.cfg.chunk_size < n {
                n = self.cfg.chunk_size;
            }
            if room < n {
                n = room;
            }
            let ghost pre = *self;
            let step = self.read_chunk(n);
            proof {
                lemma_only_read_requests_trans(
                    old(self).spec_sent(),
                    pre.spec_sent(),
                    self.spec_sent(),
                );
                lemma_prefix_trans(
                    old(self).spec_served(),
                    pre.spec_served(),
                    self.spec_served(),
                );
            }
            let (chunk, after) = match step {
                Ok(p) => p,
                Err(f) => {
                    return Err(f);
                },
            };
            proof {
                let tr = choose|tr: Seq<u8>|
                    self.spec_served() == pre.spec_served().push(tr) && tr.len() == n + 2 && tr[0]
                        == after && spec_reply_payload(tr) == chunk@;
                lemma_reply_concat_step(
                    old(self).spec_served(),
                    pre.spec_served(),
                    self.spec_served(),
                    tr,
                );
            }
            if chunk.len() == 0 {
                return Err(TransportFault::Malformed);
            }
            let ghost buf0 = buf@;
            let mut j: usize = 0;
            while j < chunk.len()
                invariant
                    j <= chunk@.len(),
                    buf@ == buf0 + chunk@.subrange(0, j as int),
                    buf0.len() + chunk@.len() <= cap,
                decreases chunk@.len() - j,
            {
                buf.push(chunk[j]);
                proof {
                    assert(buf0 + chunk@.subrange(0, j + 1 as int) =~= (buf0 + chunk@.subrange(
                        0,
                        j as int,
                    )).push(chunk@[j as int]));
                }
                j += 1;
            }
            proof {
                assert(chunk@.subrange(0, chunk@.len() as int) =~= chunk@);
            }
            if buf[buf.len() - 1] == 10 {
                let ghost full = buf@;
                buf.pop();
                proof {
                    assert(buf@.push(10u8) =~= full);
                }
                return Ok(buf);
            }
            if after == 0 {
                return Err(TransportFault::Malformed);
            }
            avail = after;
        }
    }

    /// Frames `req` — appending the newline terminator unless already
    /// present — validates it against the request buffer capacity, and
    /// transmits it in chunks. A request that does not fit is rejected as
    /// too large before any bus activity.
    fn send_request(&mut self, req: &[u8]) -> (r: Result<(), TransportFault>)
        requires
            old(self).wf(),
        ensures
            final(self).wf(),
            final(self).spec_cfg() == old(self).spec_cfg(),
            final(self).spec_served() == old(self).spec_served(),
            r matches Err(f) ==> f == TransportFault::NoAck || f == TransportFault::TooLarge,
            r == Err::<(), TransportFault>(TransportFault::TooLarge) <==> spec_framed_len(req@)
                > old(self).spec_cfg().request_capacity,
            r matches Ok(_) ==> final(self).spec_sent() == old(self).spec_sent() + spec_chunks(
                spec_framed(req@),
                old(self).spec_cfg().chunk_size as int,
            ),
            r == Err::<(), TransportFault>(TransportFault::TooLarge) ==> final(self).spec_sent()
                == old(self).spec_sent(),
            r == Err::<(), TransportFault>(TransportFault::NoAck) ==> exists|k: int|
                0 <= k <= spec_chunks(
                    spec_framed(req@),
                    old(self).spec_cfg().chunk_size as int,
                ).len() && final(self).spec_sent() == old(self).spec_sent() + spec_chunks(
                    spec_framed(req@),
                    old(self).spec_cfg().chunk_size as int,
                ).take(k),
    {
        let len = req.len();
        let terminated = len > 0 && req[len - 1] == 10;
        if terminated {
            proof {
                assert(spec_framed(req@) == req@);
            }
            if len > self.cfg.request_capacity {
                return Err(TransportFault::TooLarge);
            }
            match self.write_chunked(req) {
                Ok(()) => Ok(()),
                Err(f) => Err(f),
            }
        } else {
            if len >= self.cfg.request_capacity {
                return Err(TransportFault::TooLarge);
            }
            let mut framed: Vec<u8> = Vec::new();
            json::push_bytes(&mut framed, req);
            framed.push(10);
            proof {
                assert(framed@ =~= spec_framed(req@));
            }
            match self.write_chunked(framed.as_slice()) {
                Ok(()) => Ok(()),
                Err(f) => Err(f),
            }
        }
    }

    /// Submits one raw byte request and returns the deferred response
    /// handle. Only one handle can exist per engine at a time: it borrows
    /// the engine exclusively until resolved.
    pub fn submit_raw<T: Response>(&mut self, req: &[u8]) -> (r: Result<
        FutureResponse<'_, T, B>,
        TransportFault,
    >)
        requires
            old(self).wf(),
        ensures
            r matches Err(f) ==> f == TransportFault::NoAck || f == TransportFault::TooLarge,
            (r matches Err(f) && f == TransportFault::TooLarge) <==> spec_framed_len(req@)
                > old(self).spec_cfg().request_capacity,
            r matches Ok(h) ==> h.wf() && h.spec_cfg() == old(self).spec_cfg() && h.spec_served()
                == old(self).spec_served() && h.spec_sent() == old(self).spec_sent()
                + spec_chunks(spec_framed(req@), old(self).spec_cfg().chunk_size as int),
    {
        match self.send_request(req) {
            Ok(()) => Ok(FutureResponse { note: self, expected: core::marker::PhantomData }),
            Err(f) => Err(f),
        }
    }

    /// Serializes one structured request and submits it.
    pub fn submit_structured<R: Request, T: Response>(&mut self, req: &R) -> (r: Result<
        FutureResponse<'_, T, B>,
        TransportFault,
    >)
        requires
            old(self).wf(),
        ensures
            r matches Err(f) ==> f == TransportFault::NoAck || f == TransportFault::TooLarge,
            (r matches Err(f) && f == TransportFault::TooLarge) <==> spec_framed_len(
                req.spec_json(),
            ) > old(self).spec_cfg().request_capacity,
            r matches Ok(h) ==> h.wf() && h.spec_cfg() == old(self).spec_cfg() && h.spec_served()
                == old(self).spec_served() && h.spec_sent() == old(self).spec_sent()
                + spec_chunks(
                spec_framed(req.spec_json()),
                old(self).spec_cfg().chunk_size as int,
            ),
    {
        let bytes = req.to_json();
        self.submit_raw(bytes.as_slice())
    }
}

impl<'a, T: Response, B: NoteBus> FutureResponse<'a, T, B> {
    /// The borrowed engine is well formed.
    pub closed spec fn wf(self) -> bool {
        self.note.wf()
    }

    /// The borrowed engine's configuration.
    pub closed spec fn spec_cfg(self) -> EngineConfig {
        self.note.spec_cfg()
    }

    /// Everything the borrowed engine has transmitted on the bus.
    pub closed spec fn spec_sent(self) -> Seq<Seq<u8>> {
        self.note.spec_sent()
    }

    /// Every transfer the bus has served to the borrowed engine.
    pub closed spec fn spec_served(self) -> Seq<Seq<u8>> {
        self.note.spec_served()
    }

    /// The deferred handle over an engine whose request was just sent.
    pub fn from(note: &'a mut Notecard<B>) -> (r: Self) {
        FutureResponse { note, expected: core::marker::PhantomData }
    }

    /// Reads and classifies the response. Consumes the handle, releasing the
    /// engine for the next request; every fault path leaves the engine ready
    /// for the next submit. A request that was sent cannot have been too
    /// large, so the fault kinds here are the read-side ones and the decode
    /// fault.
    pub fn resolve(self) -> (r: Outcome<T>)
        requires
            self.wf(),
        ensures
            final(self.note).wf(),
            final(self.note).spec_cfg() == old(self.note).spec_cfg(),
            spec_only_read_requests(old(self.note).spec_sent(), final(self.note).spec_sent()),
            old(self.note).spec_served().is_prefix_of(final(self.note).spec_served()),
            r matches Outcome::Fault(f) ==> f != TransportFault::TooLarge,
            r == Outcome::<T>::Fault(TransportFault::Overflow) ==> spec_replies_payload(
                final(self.note).spec_served().skip(old(self.note).spec_served().len() as int),
            ).len() >= old(self.note).spec_cfg().response_capacity,
            r == Outcome::<T>::Fault(TransportFault::Timeout) ==> final(self.note).spec_sent()
                == old(self.note).spec_sent() + Seq::new(
                old(self.note).spec_cfg().max_attempts as nat,
                |q: int| spec_read_request(0),
            ),
            !(r matches Outcome::Fault(f) && f != TransportFault::DecodeError) ==> exists|
                frame: Seq<u8>,
            |
                spec_classified::<T>(frame, r) && frame.push(10u8) == spec_replies_payload(
                    final(self.note).spec_served().skip(old(self.note).spec_served().len() as int),
                ),
    {
        match self.note.read_frame() {
            Err(f) => Outcome::Fault(f),
            Ok(frame) => {
                let r = classify_frame::<T>(frame.as_slice());
                proof {
                    assert(spec_classified::<T>(frame@, r));
                }
                r
            },
        }
    }
}

} // verus!
