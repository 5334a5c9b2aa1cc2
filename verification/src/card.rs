//! Requests that read and configure the peer device itself: time, status,
//! location and wireless information.
use vstd::prelude::*;
use vstd::string::StringSliceAdditionalSpecFns;

pub mod req;
pub mod res;

use crate::engine::{spec_chunks, spec_framed, spec_framed_len, FutureResponse, NoteBus, Notecard, Request};
use crate::TransportFault;

verus! {

/// The card request group over a borrowed engine.
pub struct Card<'a, B: NoteBus> {
    /// The engine; public so that contracts can speak of its state.
    pub note: &'a mut Notecard<B>,
}

impl<'a, B: NoteBus> Card<'a, B> {
    /// The borrowed engine is well formed.
    pub closed spec fn wf(self) -> bool {
        self.note.wf()
    }

    /// The borrowed engine's configuration.
    pub closed spec fn spec_cfg(self) -> crate::EngineConfig {
        self.note.spec_cfg()
    }

    /// The borrowed engine's request buffer capacity.
    pub open spec fn spec_request_capacity(self) -> int {
        self.spec_cfg().request_capacity as int
    }

    pub fn from(note: &'a mut Notecard<B>) -> (r: Card<'a, B>)
        requires
            old(note).wf(),
        ensures
            r.wf(),
            r.spec_cfg() == old(note).spec_cfg(),
            r.note.spec_sent() == old(note).spec_sent(),
            r.note.spec_served() == old(note).spec_served(),
    {
        Card { note }
    }

    /// Retrieves current date and time information. Before the peer's first
    /// sync this request answers `{"zone":"UTC,Unknown"}`.
    pub fn time(self) -> (r: Result<FutureResponse<'a, res::Time, B>, TransportFault>)
        requires
            self.wf(),
        ensures
            r matches Err(f) ==> f == TransportFault::NoAck || f == TransportFault::TooLarge,
            (r matches Err(f) && f == TransportFault::TooLarge) <==> spec_framed_len(
                "{\"req\":\"card.time\"}\n".spec_bytes(),
            ) > self.spec_request_capacity(),
            r matches Ok(h) ==> h.wf() && h.spec_cfg() == old(self.note).spec_cfg()
                && h.spec_served() == old(self.note).spec_served() && h.spec_sent()
                == old(self.note).spec_sent() + spec_chunks(
                spec_framed("{\"req\":\"card.time\"}\n".spec_bytes()),
                old(self.note).spec_cfg().chunk_size as int,
            ),
    {
        self.note.submit_raw("{\"req\":\"card.time\"}\n".as_bytes())
    }

    /// Returns general information about the peer's operating status.
    pub fn status(self) -> (r: Result<FutureResponse<'a, res::Status, B>, TransportFault>)
        requires
            self.wf(),
        ensures
            r matches Err(f) ==> f == TransportFault::NoAck || f == TransportFault::TooLarge,
            (r matches Err(f) && f == TransportFault::TooLarge) <==> spec_framed_len(
                "{\"req\":\"card.status\"}\n".spec_bytes(),
            ) > self.spec_request_capacity(),
            r matches Ok(h) ==> h.wf() && h.spec_cfg() == old(self.note).spec_cfg()
                && h.spec_served() == old(self.note).spec_served() && h.spec_sent()
                == old(self.note).spec_sent() + spec_chunks(
                spec_framed("{\"req\":\"card.status\"}\n".spec_bytes()),
                old(self.note).spec_cfg().chunk_size as int,
            ),
    {
        self.note.submit_raw("{\"req\":\"card.status\"}\n".as_bytes())
    }

    /// Performs a firmware restart of the peer.
    pub fn restart(self) -> (r: Result<FutureResponse<'a, res::Empty, B>, TransportFault>)
        requires
            self.wf(),
        ensures
            r matches Err(f) ==> f == TransportFault::NoAck || f == TransportFault::TooLarge,
            (r matches Err(f) && f == TransportFault::TooLarge) <==> spec_framed_len(
                "{\"req\":\"card.restart\"}\n".spec_bytes(),
            ) > self.spec_request_capacity(),
            r matches Ok(h) ==> h.wf() && h.spec_cfg() == old(self.note).spec_cfg()
                && h.spec_served() == old(self.note).spec_served() && h.spec_sent()
                == old(self.note).spec_sent() + spec_chunks(
                spec_framed("{\"req\":\"card.restart\"}\n".spec_bytes()),
                old(self.note).spec_cfg().chunk_size as int,
            ),
    {
        self.note.submit_raw("{\"req\":\"card.restart\"}\n".as_bytes())
    }

    /// Retrieves the peer's current location.
    pub fn location(self) -> (r: Result<FutureResponse<'a, res::Location, B>, TransportFault>)
        requires
            self.wf(),
        ensures
            r matches Err(f) ==> f == TransportFault::NoAck || f == TransportFault::TooLarge,
            (r matches Err(f) && f == TransportFault::TooLarge) <==> spec_framed_len(
                "{\"req\":\"card.location\"}\n".spec_bytes(),
            ) > self.spec_request_capacity(),
            r matches Ok(h) ==> h.wf() && h.spec_cfg() == old(self.note).spec_cfg()
                && h.spec_served() == old(self.note).spec_served() && h.spec_sent()
                == old(self.note).spec_sent() + spec_chunks(
                spec_framed("{\"req\":\"card.location\"}\n".spec_bytes()),
                old(self.note).spec_cfg().chunk_size as int,
            ),
    {
        self.note.submit_raw("{\"req\":\"card.location\"}\n".as_bytes())
    }

    /// Sets location-related configuration settings; with no arguments it
    /// retrieves the current location mode. The coordinates are passed as
    /// their JSON number literals.
    pub fn location_mode(
        self,
        mode: Option<&str>,
        seconds: Option<u32>,
        vseconds: Option<&str>,
        delete: Option<bool>,
        max: Option<u32>,
        lat: Option<&str>,
        lon: Option<&str>,
        minutes: Option<u32>,
    ) -> (r: Result<FutureResponse<'a, res::LocationMode, B>, TransportFault>)
        requires
            self.wf(),
        ensures
            r matches Err(f) ==> f == TransportFault::NoAck || f == TransportFault::TooLarge,
            (r matches Err(f) && f == TransportFault::TooLarge) <==> spec_framed_len(
                (req::LocationMode {
                    req: "card.location.mode",
                    mode,
                    seconds,
                    vseconds,
                    delete,
                    max,
                    lat,
                    lon,
                    minutes,
                }).spec_json(),
            ) > self.spec_request_capacity(),
            r matches Ok(h) ==> h.wf() && h.spec_cfg() == old(self.note).spec_cfg()
                && h.spec_served() == old(self.note).spec_served() && h.spec_sent()
                == old(self.note).spec_sent() + spec_chunks(
                spec_framed((req::LocationMode {
                    req: "card.location.mode",
                    mode,
                    seconds,
                    vseconds,
                    delete,
                    max,
                    lat,
                    lon,
                    minutes,
                }).spec_json()),
                old(self.note).spec_cfg().chunk_size as int,
            ),
    {
        self.note.submit_structured(
            &(req::LocationMode {
                req: "card.location.mode",
                mode,
                seconds,
                vseconds,
                delete,
                max,
                lat,
                lon,
                minutes,
            }),
        )
    }

    /// Starts or stops location tracking. `start` selects between the start
    /// and stop forms of the request.
    pub fn location_track(
        self,
        start: bool,
        heartbeat: bool,
        sync: bool,
        hours: Option<u32>,
        file: Option<&str>,
    ) -> (r: Result<FutureResponse<'a, res::LocationTrack, B>, TransportFault>)
        requires
            self.wf(),
        ensures
            r matches Err(f) ==> f == TransportFault::NoAck || f == TransportFault::TooLarge,
            (r matches Err(f) && f == TransportFault::TooLarge) <==> spec_framed_len(
                (req::LocationTrack {
                    req: "card.location.track",
                    start: if start {
                        Some(true)
                    } else {
                        None
                    },
                    heartbeat: if heartbeat {
                        Some(true)
                    } else {
                        None
                    },
                    sync: if sync {
                        Some(true)
                    } else {
                        None
                    },
                    stop: if !start {
                        Some(true)
                    } else {
                        None
                    },
                    hours,
                    file,
                }).spec_json(),
            ) > self.spec_request_capacity(),
            r matches Ok(h) ==> h.wf() && h.spec_cfg() == old(self.note).spec_cfg()
                && h.spec_served() == old(self.note).spec_served() && h.spec_sent()
                == old(self.note).spec_sent() + spec_chunks(
                spec_framed((req::LocationTrack {
                    req: "card.location.track",
                    start: if start {
                        Some(true)
                    } else {
                        None
                    },
                    heartbeat: if heartbeat {
                        Some(true)
                    } else {
                        None
                    },
                    sync: if sync {
                        Some(true)
                    } else {
                        None
                    },
                    stop: if !start {
                        Some(true)
                    } else {
                        None
                    },
                    hours,
                    file,
                }).spec_json()),
                old(self.note).spec_cfg().chunk_size as int,
            ),
    {
        self.note.submit_structured(
            &(req::LocationTrack {
                req: "card.location.track",
                start: if start {
                    Some(true)
                } else {
                    None
                },
                heartbeat: if heartbeat {
                    Some(true)
                } else {
                    None
                },
                sync: if sync {
                    Some(true)
                } else {
                    None
                },
                stop: if !start {
                    Some(true)
                } else {
                    None
                },
                hours,
                file,
            }),
        )
    }

    /// Retrieves wireless modem and network information.
    pub fn wireless(self) -> (r: Result<FutureResponse<'a, res::Wireless, B>, TransportFault>)
        requires
            self.wf(),
        ensures
            r matches Err(f) ==> f == TransportFault::NoAck || f == TransportFault::TooLarge,
            (r matches Err(f) && f == TransportFault::TooLarge) <==> spec_framed_len(
                "{\"req\":\"card.wireless\"}\n".spec_bytes(),
            ) > self.spec_request_capacity(),
            r matches Ok(h) ==> h.wf() && h.spec_cfg() == old(self.note).spec_cfg()
                && h.spec_served() == old(self.note).spec_served() && h.spec_sent()
                == old(self.note).spec_sent() + spec_chunks(
                spec_framed("{\"req\":\"card.wireless\"}\n".spec_bytes()),
                old(self.note).spec_cfg().chunk_size as int,
            ),
    {
        self.note.submit_raw("{\"req\":\"card.wireless\"}\n".as_bytes())
    }
}

} // verus!
