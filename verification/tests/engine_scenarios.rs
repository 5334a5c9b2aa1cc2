//! End-to-end request/response cycles of the engine against a scripted mock
//! peer.
use std::collections::VecDeque;

use notecard::card::{res, Card};
use notecard::engine::{NoteBus, Notecard, NotecardError, Outcome, Response, TransferLog};
use notecard::hub::{req as hub_req, res as hub_res, Hub};
use notecard::{EngineConfig, TransportFault};

/// A scripted peer: records every bus write, reassembles chunked requests,
/// and serves queued responses through the two-byte read header.
struct MockBus {
    /// Completed requests, as the engine framed them (terminator included).
    requests: Vec<Vec<u8>>,
    /// Bytes of the request currently being chunked in.
    partial: Vec<u8>,
    /// Responses to serve, one per request, in order.
    responses: VecDeque<Vec<u8>>,
    /// The response currently being drained by reads.
    pending: Vec<u8>,
    /// How many status polls to answer "nothing yet" before reporting data.
    ready_after: usize,
    /// Status polls seen for the current request.
    polls: usize,
    /// Length of `pending` at the moment each request completed: nonzero
    /// means the previous response was never fully drained.
    leftover_at_request: Vec<usize>,
    /// Payload size of the last read request.
    last_req: usize,
    /// Refuse to acknowledge writes.
    fail_writes: bool,
}

impl MockBus {
    fn new(responses: Vec<Vec<u8>>) -> MockBus {
        MockBus {
            requests: Vec::new(),
            partial: Vec::new(),
            responses: responses.into_iter().collect(),
            pending: Vec::new(),
            ready_after: 0,
            polls: 0,
            leftover_at_request: Vec::new(),
            last_req: 0,
            fail_writes: false,
        }
    }
}

impl NoteBus for MockBus {
    // The transfer logs are ghost state: erased, never called at run time.
    fn spec_sent(&self) -> TransferLog {
        panic!()
    }

    fn spec_served(&self) -> TransferLog {
        panic!()
    }

    fn write(&mut self, _addr: u8, data: &[u8]) -> Result<(), ()> {
        if self.fail_writes {
            return Err(());
        }
        if data.len() == 2 && data[0] == 0 {
            self.last_req = data[1] as usize;
            return Ok(());
        }
        // A request chunk: one length byte, then payload.
        assert!(!data.is_empty());
        assert_eq!(data[0] as usize, data.len() - 1);
        self.partial.extend_from_slice(&data[1..]);
        if self.partial.last() == Some(&10) {
            self.leftover_at_request.push(self.pending.len());
            self.requests.push(std::mem::take(&mut self.partial));
            self.pending = self.responses.pop_front().unwrap_or_default();
            self.polls = 0;
        }
        Ok(())
    }

    fn read(&mut self, _addr: u8, len: usize) -> Result<Vec<u8>, ()> {
        if self.fail_writes {
            return Err(());
        }
        let n = self.last_req;
        let mut resp = vec![0u8; len];
        if n == 0 {
            self.polls += 1;
            if self.polls > self.ready_after {
                resp[0] = self.pending.len().min(255) as u8;
            }
            return Ok(resp);
        }
        let take = n.min(self.pending.len());
        let rest: Vec<u8> = self.pending.split_off(take);
        let served = std::mem::replace(&mut self.pending, rest);
        resp[0] = self.pending.len().min(255) as u8;
        resp[1] = take as u8;
        resp[2..2 + take].copy_from_slice(&served);
        Ok(resp)
    }
}

fn frame(s: &str) -> Vec<u8> {
    let mut v = s.as_bytes().to_vec();
    v.push(10);
    v
}

/// Round trip of a raw card request: the exact request reaches the peer and
/// the matching response decodes into the expected fields.
#[test]
fn roundtrip_card_time() {
    let bus = MockBus::new(vec![frame(r#"{"zone":"UTC,Unknown"}"#)]);
    let mut note = Notecard::new(bus);
    let fr = Card::from(&mut note).time().unwrap();
    match fr.resolve() {
        Outcome::Success(t) => {
            assert_eq!(t.zone, Some(b"UTC,Unknown".to_vec()));
            assert_eq!(t.time, None);
            assert_eq!(t.area, None);
            assert_eq!(t.minutes, None);
            assert_eq!(t.lat, None);
            assert_eq!(t.lon, None);
            assert_eq!(t.country, None);
        },
        other => panic!("expected success, got {:?}", other),
    }
    let bus = note.free();
    assert_eq!(bus.requests, vec![frame(r#"{"req":"card.time"}"#)]);
}

/// Round trip of a structured hub request.
#[test]
fn roundtrip_hub_set() {
    let bus = MockBus::new(vec![frame(r#"{}"#)]);
    let mut note = Notecard::new(bus);
    let fr = Hub::from(&mut note)
        .set(Some("testprod"), Some("testhost"), Some(hub_req::HubMode::Periodic), None)
        .unwrap();
    assert!(matches!(fr.resolve(), Outcome::Success(hub_res::Empty {})));
    let bus = note.free();
    assert_eq!(
        bus.requests,
        vec![frame(r#"{"req":"hub.set","product":"testprod","host":"testhost","mode":"periodic"}"#)]
    );
}

/// Round trip of a structured hub log request.
#[test]
fn roundtrip_hub_log() {
    let bus = MockBus::new(vec![frame(r#"{}"#)]);
    let mut note = Notecard::new(bus);
    let fr = Hub::from(&mut note).log("all well", false, true).unwrap();
    assert!(matches!(fr.resolve(), Outcome::Success(hub_res::Empty {})));
    let bus = note.free();
    assert_eq!(
        bus.requests,
        vec![frame(r#"{"req":"hub.log","text":"all well","alert":false,"sync":true}"#)]
    );
}

/// Round trip of the location tracking request, exercising the start/stop
/// split and chunked writes with a small transfer ceiling.
#[test]
fn roundtrip_location_track_chunked() {
    let bus = MockBus::new(vec![frame(r#"{"start":true,"seconds":300}"#)]);
    let cfg = EngineConfig { chunk_size: 4, ..EngineConfig::new() };
    let mut note = Notecard::with_config(bus, 23, cfg);
    let fr = Card::from(&mut note).location_track(true, true, false, Some(12), None).unwrap();
    match fr.resolve() {
        Outcome::Success(t) => {
            assert_eq!(t.start, Some(true));
            assert_eq!(t.seconds, Some(300));
            assert_eq!(t.file, None);
        },
        other => panic!("expected success, got {:?}", other),
    }
    let bus = note.free();
    assert_eq!(
        bus.requests,
        vec![frame(
            r#"{"req":"card.location.track","start":true,"heartbeat":true,"hours":12}"#
        )]
    );
}

/// Identical configuration and identical peer responses yield identical
/// outcomes.
#[test]
fn identical_runs_identical_outcomes() {
    let run = || {
        let mut bus = MockBus::new(vec![frame(r#"{"zone":"CET","minutes":-300}"#)]);
        bus.ready_after = 3;
        let mut note = Notecard::with_config(bus, 23, EngineConfig::new());
        let fr = Card::from(&mut note).time().unwrap();
        fr.resolve()
    };
    let first = run();
    let second = run();
    assert_eq!(first, second);
    assert!(matches!(first, Outcome::Success(_)));
}

/// A response of exactly buffer capacity (terminator included) succeeds; one
/// byte more overflows, the partial response is drained, and the next
/// request on the same engine still succeeds.
#[test]
fn overflow_boundary_and_drain() {
    // 15 bytes + terminator == 16 == response_capacity.
    let exact = frame(r#"{"a":"bcdefgh"}"#);
    assert_eq!(exact.len(), 16);
    // One byte more.
    let over = frame(r#"{"a":"bcdefghi"}"#);
    assert_eq!(over.len(), 17);
    let cfg = EngineConfig { response_capacity: 16, ..EngineConfig::new() };

    let bus = MockBus::new(vec![exact]);
    let mut note = Notecard::with_config(bus, 23, cfg);
    let fr = Card::from(&mut note).restart().unwrap();
    assert!(matches!(fr.resolve(), Outcome::Success(res::Empty {})));

    let bus = MockBus::new(vec![over, frame(r#"{}"#)]);
    let mut note = Notecard::with_config(bus, 23, cfg);
    let fr = Card::from(&mut note).restart().unwrap();
    assert!(matches!(fr.resolve(), Outcome::Fault(TransportFault::Overflow)));
    let fr = Card::from(&mut note).restart().unwrap();
    assert!(matches!(fr.resolve(), Outcome::Success(res::Empty {})));
    let bus = note.free();
    // Nothing of the overflowed response was still buffered when the second
    // request arrived.
    assert_eq!(bus.leftover_at_request, vec![0, 0]);
}

/// A peer that never reports available bytes within the attempt budget
/// yields a timeout after exactly that many polls, and the engine is ready
/// for the next request.
#[test]
fn poll_exhaustion_times_out() {
    let mut bus = MockBus::new(vec![frame(r#"{}"#), frame(r#"{}"#)]);
    bus.ready_after = usize::MAX;
    let cfg = EngineConfig { max_attempts: 7, ..EngineConfig::new() };
    let mut note = Notecard::with_config(bus, 23, cfg);
    let fr = Hub::from(&mut note).sync().unwrap();
    assert!(matches!(fr.resolve(), Outcome::Fault(TransportFault::Timeout)));

    // The engine accepts and drives the next request cleanly.
    let fr = Hub::from(&mut note).sync().unwrap();
    assert!(matches!(fr.resolve(), Outcome::Fault(TransportFault::Timeout)));
    let bus = note.free();
    // Exactly the attempt budget was spent on the last cycle, nothing kept.
    assert_eq!(bus.polls, 7);
    assert_eq!(bus.requests.len(), 2);
}

/// A response carrying the reserved error field is classified as a device
/// error even though it also carries the expected success fields.
#[test]
fn error_envelope_takes_precedence() {
    let bus = MockBus::new(vec![frame(r#"{"err":"time is not yet set","zone":"UTC,Unknown"}"#)]);
    let mut note = Notecard::new(bus);
    let fr = Card::from(&mut note).time().unwrap();
    match fr.resolve() {
        Outcome::DeviceError(NotecardError { err }) => {
            assert_eq!(err, b"time is not yet set".to_vec());
        },
        other => panic!("expected device error, got {:?}", other),
    }
}

/// The time request before the peer's first sync: the zone placeholder comes
/// back and every other optional field is absent.
#[test]
fn time_before_first_sync() {
    let bus = MockBus::new(vec![frame(r#"{"zone":"UTC,Unknown"}"#)]);
    let mut note = Notecard::new(bus);
    let fr = Card::from(&mut note).time().unwrap();
    match fr.resolve() {
        Outcome::Success(t) => {
            assert_eq!(t.zone, Some(b"UTC,Unknown".to_vec()));
            assert_eq!(
                (t.time, t.area, t.minutes, t.lat, t.lon, t.country),
                (None, None, None, None, None, None)
            );
        },
        other => panic!("expected success, got {:?}", other),
    }
}

/// The location mode request answered by the peer's unmarshal error.
#[test]
fn location_mode_device_error() {
    let bus = MockBus::new(vec![frame(
        r#"{"err":"seconds: field seconds: unmarshal: expected a int32 {io}"}"#,
    )]);
    let mut note = Notecard::new(bus);
    let fr = Card::from(&mut note)
        .location_mode(Some("periodic"), Some(60), None, None, None, None, None, None)
        .unwrap();
    match fr.resolve() {
        Outcome::DeviceError(NotecardError { err }) => {
            assert_eq!(err, b"seconds: field seconds: unmarshal: expected a int32 {io}".to_vec());
        },
        other => panic!("expected device error, got {:?}", other),
    }
    let bus = note.free();
    assert_eq!(
        bus.requests,
        vec![frame(r#"{"req":"card.location.mode","mode":"periodic","seconds":60}"#)]
    );
}

/// A request larger than the request buffer is rejected before any bus
/// activity.
#[test]
fn too_large_rejected_before_bus() {
    let bus = MockBus::new(vec![]);
    let cfg = EngineConfig { request_capacity: 8, ..EngineConfig::new() };
    let mut note = Notecard::with_config(bus, 23, cfg);
    match Card::from(&mut note).time() {
        Err(TransportFault::TooLarge) => {},
        other => panic!("expected too-large, got {:?}", other.is_ok()),
    }
    let bus = note.free();
    assert!(bus.requests.is_empty());
    assert!(bus.partial.is_empty());
}

/// A peer that acknowledges nothing surfaces as a no-acknowledgment fault.
#[test]
fn no_ack_fault() {
    let mut bus = MockBus::new(vec![]);
    bus.fail_writes = true;
    let mut note = Notecard::new(bus);
    match Hub::from(&mut note).sync() {
        Err(TransportFault::NoAck) => {},
        other => panic!("expected no-ack, got {:?}", other.is_ok()),
    }
}

/// A peer that stops sending before the terminator is a malformed frame.
#[test]
fn missing_terminator_is_malformed() {
    let bus = MockBus::new(vec![br#"{"zone":"CET"}"#.to_vec()]);
    let mut note = Notecard::new(bus);
    let fr = Card::from(&mut note).time().unwrap();
    assert!(matches!(fr.resolve(), Outcome::Fault(TransportFault::Malformed)));
}

/// A well-formed frame that does not hold the expected shape is a decode
/// fault: here the required status field is missing.
#[test]
fn wrong_shape_is_decode_error() {
    let bus = MockBus::new(vec![frame(r#"{"usb":true}"#)]);
    let mut note = Notecard::new(bus);
    let fr = Card::from(&mut note).status().unwrap();
    assert!(matches!(fr.resolve(), Outcome::Fault(TransportFault::DecodeError)));
}

/// Exact decoded field values, signed numbers included.
#[test]
fn decoded_field_values() {
    let t = res::Time::from_frame(
        br#"{"time":1599769214,"zone":"CDT,America/New York","minutes":-300,"lat":42.5776}"#,
    )
    .unwrap();
    assert_eq!(t.time, Some(1599769214));
    assert_eq!(t.zone, Some(b"CDT,America/New York".to_vec()));
    assert_eq!(t.minutes, Some(-300));
    assert_eq!(t.lat, Some(b"42.5776".to_vec()));
    assert_eq!(t.lon, None);

    let s = res::Status::from_frame(br#"{"status":"{normal}","storage":8}"#).unwrap();
    assert_eq!(s.status, b"{normal}".to_vec());
    assert_eq!(s.storage, 8);
    assert!(!s.usb);
    assert!(!s.connected);
    assert_eq!(s.time, None);
}

/// A string longer than its declared bound does not decode, mirroring the
/// fixed-capacity fields of the peer protocol.
#[test]
fn overlong_string_field_rejected() {
    // The zone field's bound is 20 content bytes.
    assert!(res::Time::from_frame(br#"{"zone":"123456789012345678901"}"#).is_none());
    assert!(res::Time::from_frame(br#"{"zone":"12345678901234567890"}"#).is_some());
}

/// An explicit null counts as an absent field, for every field shape.
#[test]
fn null_fields_are_absent() {
    let t = res::Time::from_frame(br#"{"zone":null,"time":null,"minutes":null,"lat":null}"#)
        .unwrap();
    assert_eq!((t.zone, t.time, t.minutes, t.lat), (None, None, None, None));
    let w = res::Wireless::from_frame(br#"{"status":"ok","count":null,"net":null}"#).unwrap();
    assert_eq!(w.count, None);
    assert!(w.net.is_none());
}

/// A numeric field out of its type's range does not decode.
#[test]
fn out_of_range_number_rejected() {
    assert!(res::Wireless::from_frame(br#"{"status":"ok","count":256}"#).is_none());
    assert!(res::Wireless::from_frame(br#"{"status":"ok","count":255}"#).is_some());
}
