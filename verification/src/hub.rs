//! Requests that control the peer's connection to its hub service and its
//! sync behaviour.
use vstd::prelude::*;
use vstd::string::StringSliceAdditionalSpecFns;

pub mod req;
pub mod res;

use crate::engine::{spec_chunks, spec_framed, spec_framed_len, FutureResponse, NoteBus, Notecard, Request};
use crate::TransportFault;

verus! {

/// The hub request group over a borrowed engine.
pub struct Hub<'a, B: NoteBus> {
    /// The engine; public so that contracts can speak of its state.
    pub note: &'a mut Notecard<B>,
}

impl<'a, B: NoteBus> Hub<'a, B> {
    /// The borrowed engine is well formed.
    pub closed spec fn wf(self) -> bool {
        self.note.wf()
    }

    /// The borrowed engine's configuration.
    pub closed spec fn spec_cfg(self) -> crate::EngineConfig {
        self.note.spec_cfg()
    }

    /// The borrowed engine's request buffer capacity.
    pub open spec fn spec_request_capacity(self) -> int {
        self.spec_cfg().request_capacity as int
    }

    pub fn from(note: &'a mut Notecard<B>) -> (r: Hub<'a, B>)
        requires
            old(note).wf(),
        ensures
            r.wf(),
            r.spec_cfg() == old(note).spec_cfg(),
            r.note.spec_sent() == old(note).spec_sent(),
            r.note.spec_served() == old(note).spec_served(),
    {
        Hub { note }
    }

    /// Adds a "device health" log message to send to the hub on the next
    /// sync.
    pub fn log(self, text: &str, alert: bool, sync: bool) -> (r: Result<
        FutureResponse<'a, res::Empty, B>,
        TransportFault,
    >)
        requires
            self.wf(),
        ensures
            r matches Err(f) ==> f == TransportFault::NoAck || f == TransportFault::TooLarge,
            (r matches Err(f) && f == TransportFault::TooLarge) <==> spec_framed_len(
                (req::HubLog { req: "hub.log", text, alert, sync }).spec_json(),
            ) > self.spec_request_capacity(),
            r matches Ok(h) ==> h.wf() && h.spec_cfg() == old(self.note).spec_cfg()
                && h.spec_served() == old(self.note).spec_served() && h.spec_sent()
                == old(self.note).spec_sent() + spec_chunks(
                spec_framed((req::HubLog { req: "hub.log", text, alert, sync }).spec_json()),
                old(self.note).spec_cfg().chunk_size as int,
            ),
    {
        self.note.submit_structured(&(req::HubLog { req: "hub.log", text, alert, sync }))
    }

    /// The primary method for controlling the peer's hub connection and sync
    /// behaviour.
    pub fn set(
        self,
        product: Option<&str>,
        host: Option<&str>,
        mode: Option<req::HubMode>,
        sn: Option<&str>,
    ) -> (r: Result<FutureResponse<'a, res::Empty, B>, TransportFault>)
        requires
            self.wf(),
        ensures
            r matches Err(f) ==> f == TransportFault::NoAck || f == TransportFault::TooLarge,
            (r matches Err(f) && f == TransportFault::TooLarge) <==> spec_framed_len(
                (req::HubSet { req: "hub.set", product, host, mode, sn }).spec_json(),
            ) > self.spec_request_capacity(),
            r matches Ok(h) ==> h.wf() && h.spec_cfg() == old(self.note).spec_cfg()
                && h.spec_served() == old(self.note).spec_served() && h.spec_sent()
                == old(self.note).spec_sent() + spec_chunks(
                spec_framed((req::HubSet { req: "hub.set", product, host, mode, sn }).spec_json()),
                old(self.note).spec_cfg().chunk_size as int,
            ),
    {
        self.note.submit_structured(&(req::HubSet { req: "hub.set", product, host, mode, sn }))
    }

    /// Manually initiates a sync with the hub.
    pub fn sync(self) -> (r: Result<FutureResponse<'a, res::Empty, B>, TransportFault>)
        requires
            self.wf(),
        ensures
            r matches Err(f) ==> f == TransportFault::NoAck || f == TransportFault::TooLarge,
            (r matches Err(f) && f == TransportFault::TooLarge) <==> spec_framed_len(
                "{\"req\":\"hub.sync\"}\n".spec_bytes(),
            ) > self.spec_request_capacity(),
            r matches Ok(h) ==> h.wf() && h.spec_cfg() == old(self.note).spec_cfg()
                && h.spec_served() == old(self.note).spec_served() && h.spec_sent()
                == old(self.note).spec_sent() + spec_chunks(
                spec_framed("{\"req\":\"hub.sync\"}\n".spec_bytes()),
                old(self.note).spec_cfg().chunk_size as int,
            ),
    {
        self.note.submit_raw("{\"req\":\"hub.sync\"}\n".as_bytes())
    }

    /// Checks on the status of a recently triggered or previous sync.
    pub fn sync_status(self) -> (r: Result<FutureResponse<'a, res::SyncStatus, B>, TransportFault>)
        requires
            self.wf(),
        ensures
            r matches Err(f) ==> f == TransportFault::NoAck || f == TransportFault::TooLarge,
            (r matches Err(f) && f == TransportFault::TooLarge) <==> spec_framed_len(
                "{\"req\":\"hub.sync.status\"}\n".spec_bytes(),
            ) > self.spec_request_capacity(),
            r matches Ok(h) ==> h.wf() && h.spec_cfg() == old(self.note).spec_cfg()
                && h.spec_served() == old(self.note).spec_served() && h.spec_sent()
                == old(self.note).spec_sent() + spec_chunks(
                spec_framed("{\"req\":\"hub.sync.status\"}\n".spec_bytes()),
                old(self.note).spec_cfg().chunk_size as int,
            ),
    {
        self.note.submit_raw("{\"req\":\"hub.sync.status\"}\n".as_bytes())
    }
}

} // verus!
