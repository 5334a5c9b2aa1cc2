//! The hub response shapes and their decoders. String fields carry the raw
//! content bytes of the frame: escape sequences inside a JSON string are not
//! decoded.
use vstd::prelude::*;
use vstd::string::StringSliceAdditionalSpecFns;

use crate::engine::Response;
use crate::json;

verus! {

/// A response whose body carries no fields of interest.
#[derive(Clone, Copy, PartialEq, Eq, Structural, Debug)]
pub struct Empty {}

impl DeepView for Empty {
    type V = Empty;

    open spec fn deep_view(&self) -> Empty {
        *self
    }
}

impl Response for Empty {
    open spec fn spec_decode(frame: Seq<u8>) -> Option<Empty> {
        if json::spec_is_object(frame) {
            Some(Empty {  })
        } else {
            None
        }
    }

    fn from_frame(frame: &[u8]) -> (r: Option<Empty>) {
        if json::is_object(frame) {
            Some(Empty {  })
        } else {
            None
        }
    }
}

/// The status of a recently triggered or previous sync.
#[derive(Clone, PartialEq, Eq, Debug)]
pub struct SyncStatus {
    pub status: Vec<u8>,
    pub time: Option<u32>,
    pub sync: Option<bool>,
    pub completed: Option<u32>,
    pub requested: Option<u32>,
}

/// The mathematical shape of a decoded [`SyncStatus`].
pub struct SyncStatusView {
    pub status: Seq<u8>,
    pub time: Option<u32>,
    pub sync: Option<bool>,
    pub completed: Option<u32>,
    pub requested: Option<u32>,
}

impl DeepView for SyncStatus {
    type V = SyncStatusView;

    open spec fn deep_view(&self) -> SyncStatusView {
        SyncStatusView {
            status: self.status@,
            time: self.time,
            sync: self.sync,
            completed: self.completed,
            requested: self.requested,
        }
    }
}

impl Response for SyncStatus {
    open spec fn spec_decode(frame: Seq<u8>) -> Option<SyncStatusView> {
        if !json::spec_is_object(frame) {
            None
        } else {
            match json::spec_items_start(frame) {
                None => None,
                Some(i) => match (
                    json::spec_req_str_at(frame, i, "status".spec_bytes(), 1024),
                    json::spec_opt_u32_at(frame, i, "time".spec_bytes()),
                    json::spec_opt_bool_at(frame, i, "sync".spec_bytes()),
                    json::spec_opt_u32_at(frame, i, "completed".spec_bytes()),
                    json::spec_opt_u32_at(frame, i, "requested".spec_bytes()),
                ) {
                    (Some(status), Some(time), Some(sync), Some(completed), Some(requested)) => Some(
                        SyncStatusView { status, time, sync, completed, requested },
                    ),
                    _ => None,
                },
            }
        }
    }

    fn from_frame(frame: &[u8]) -> (r: Option<SyncStatus>) {
        if !json::is_object(frame) {
            return None;
        }
        let i = match json::items_start(frame) {
            Some(i) => i,
            None => {
                return None;
            },
        };
        let status = json::req_str_at(frame, i, "status".as_bytes(), 1024);
        let time = json::opt_u32_at(frame, i, "time".as_bytes());
        let sync = json::opt_bool_at(frame, i, "sync".as_bytes());
        let completed = json::opt_u32_at(frame, i, "completed".as_bytes());
        let requested = json::opt_u32_at(frame, i, "requested".as_bytes());
        match (status, time, sync, completed, requested) {
            (Some(status), Some(time), Some(sync), Some(completed), Some(requested)) => Some(
                SyncStatus { status, time, sync, completed, requested },
            ),
            _ => None,
        }
    }
}

} // verus!
