//! The card response shapes and their decoders. String fields carry the raw
//! content bytes of the frame — escape sequences inside a JSON string are
//! not decoded — and fractional coordinates are kept as their JSON number
//! literals.
use vstd::prelude::*;
use vstd::string::StringSliceAdditionalSpecFns;

use crate::engine::Response;
use crate::json;
use crate::json::spec_opt_view;

verus! {

/// A response whose body carries no fields of interest.
#[derive(Clone, Copy, PartialEq, Eq, Structural, Debug)]
pub struct Empty {}

impl DeepView for Empty {
    type V = Empty;

    open spec fn deep_view(&self) -> Empty {
        *self
    }
}

impl Response for Empty {
    open spec fn spec_decode(frame: Seq<u8>) -> Option<Empty> {
        if json::spec_is_object(frame) {
            Some(Empty {  })
        } else {
            None
        }
    }

    fn from_frame(frame: &[u8]) -> (r: Option<Empty>) {
        if json::is_object(frame) {
            Some(Empty {  })
        } else {
            None
        }
    }
}

/// The state of location tracking.
#[derive(Clone, PartialEq, Eq, Debug)]
pub struct LocationTrack {
    pub start: Option<bool>,
    pub stop: Option<bool>,
    pub heartbeat: Option<bool>,
    pub seconds: Option<u32>,
    pub hours: Option<u32>,
    pub file: Option<Vec<u8>>,
}

/// The mathematical shape of a decoded [`LocationTrack`].
pub struct LocationTrackView {
    pub start: Option<bool>,
    pub stop: Option<bool>,
    pub heartbeat: Option<bool>,
    pub seconds: Option<u32>,
    pub hours: Option<u32>,
    pub file: Option<Seq<u8>>,
}

impl DeepView for LocationTrack {
    type V = LocationTrackView;

    open spec fn deep_view(&self) -> LocationTrackView {
        LocationTrackView {
            start: self.start,
            stop: self.stop,
            heartbeat: self.heartbeat,
            seconds: self.seconds,
            hours: self.hours,
            file: spec_opt_view(self.file),
        }
    }
}

impl Response for LocationTrack {
    open spec fn spec_decode(frame: Seq<u8>) -> Option<LocationTrackView> {
        if !json::spec_is_object(frame) {
            None
        } else {
            match json::spec_items_start(frame) {
                None => None,
                Some(i) => match (
                    json::spec_opt_bool_at(frame, i, "start".spec_bytes()),
                    json::spec_opt_bool_at(frame, i, "stop".spec_bytes()),
                    json::spec_opt_bool_at(frame, i, "heartbeat".spec_bytes()),
                    json::spec_opt_u32_at(frame, i, "seconds".spec_bytes()),
                    json::spec_opt_u32_at(frame, i, "hours".spec_bytes()),
                    json::spec_opt_str_at(frame, i, "file".spec_bytes(), 20),
                ) {
                    (Some(start), Some(stop), Some(heartbeat), Some(seconds), Some(hours), Some(file)) =>
                        Some(LocationTrackView { start, stop, heartbeat, seconds, hours, file }),
                    _ => None,
                },
            }
        }
    }

    fn from_frame(frame: &[u8]) -> (r: Option<LocationTrack>) {
        if !json::is_object(frame) {
            return None;
        }
        let i = match json::items_start(frame) {
            Some(i) => i,
            None => {
                return None;
            },
        };
        let start = json::opt_bool_at(frame, i, "start".as_bytes());
        let stop = json::opt_bool_at(frame, i, "stop".as_bytes());
        let heartbeat = json::opt_bool_at(frame, i, "heartbeat".as_bytes());
        let seconds = json::opt_u32_at(frame, i, "seconds".as_bytes());
        let hours = json::opt_u32_at(frame, i, "hours".as_bytes());
        let file = json::opt_str_at(frame, i, "file".as_bytes(), 20);
        match (start, stop, heartbeat, seconds, hours, file) {
            (Some(start), Some(stop), Some(heartbeat), Some(seconds), Some(hours), Some(file)) =>
                Some(LocationTrack { start, stop, heartbeat, seconds, hours, file }),
            _ => None,
        }
    }
}

/// The current location mode settings.
#[derive(Clone, PartialEq, Eq, Debug)]
pub struct LocationMode {
    pub mode: Vec<u8>,
    pub seconds: Option<u32>,
    pub vseconds: Option<Vec<u8>>,
    pub max: Option<u32>,
    pub lat: Option<Vec<u8>>,
    pub lon: Option<Vec<u8>>,
    pub minutes: Option<u32>,
}

/// The mathematical shape of a decoded [`LocationMode`].
pub struct LocationModeView {
    pub mode: Seq<u8>,
    pub seconds: Option<u32>,
    pub vseconds: Option<Seq<u8>>,
    pub max: Option<u32>,
    pub lat: Option<Seq<u8>>,
    pub lon: Option<Seq<u8>>,
    pub minutes: Option<u32>,
}

impl DeepView for LocationMode {
    type V = LocationModeView;

    open spec fn deep_view(&self) -> LocationModeView {
        LocationModeView {
            mode: self.mode@,
            seconds: self.seconds,
            vseconds: spec_opt_view(self.vseconds),
            max: self.max,
            lat: spec_opt_view(self.lat),
            lon: spec_opt_view(self.lon),
            minutes: self.minutes,
        }
    }
}

impl Response for LocationMode {
    open spec fn spec_decode(frame: Seq<u8>) -> Option<LocationModeView> {
        if !json::spec_is_object(frame) {
            None
        } else {
            match json::spec_items_start(frame) {
                None => None,
                Some(i) => match (
                    json::spec_req_str_at(frame, i, "mode".spec_bytes(), 20),
                    json::spec_opt_u32_at(frame, i, "seconds".spec_bytes()),
                    json::spec_opt_str_at(frame, i, "vseconds".spec_bytes(), 20),
                    json::spec_opt_u32_at(frame, i, "max".spec_bytes()),
                    json::spec_opt_raw_at(frame, i, "lat".spec_bytes()),
                    json::spec_opt_raw_at(frame, i, "lon".spec_bytes()),
                    json::spec_opt_u32_at(frame, i, "minutes".spec_bytes()),
                ) {
                    (Some(mode), Some(seconds), Some(vseconds), Some(max), Some(lat), Some(lon), Some(minutes)) =>
                        Some(LocationModeView { mode, seconds, vseconds, max, lat, lon, minutes }),
                    _ => None,
                },
            }
        }
    }

    fn from_frame(frame: &[u8]) -> (r: Option<LocationMode>) {
        if !json::is_object(frame) {
            return None;
        }
        let i = match json::items_start(frame) {
            Some(i) => i,
            None => {
                return None;
            },
        };
        let mode = json::req_str_at(frame, i, "mode".as_bytes(), 20);
        let seconds = json::opt_u32_at(frame, i, "seconds".as_bytes());
        let vseconds = json::opt_str_at(frame, i, "vseconds".as_bytes(), 20);
        let max = json::opt_u32_at(frame, i, "max".as_bytes());
        let lat = json::opt_raw_at(frame, i, "lat".as_bytes());
        let lon = json::opt_raw_at(frame, i, "lon".as_bytes());
        let minutes = json::opt_u32_at(frame, i, "minutes".as_bytes());
        match (mode, seconds, vseconds, max, lat, lon, minutes) {
            (Some(mode), Some(seconds), Some(vseconds), Some(max), Some(lat), Some(lon), Some(minutes)) =>
                Some(LocationMode { mode, seconds, vseconds, max, lat, lon, minutes }),
            _ => None,
        }
    }
}

/// The peer's current location.
#[derive(Clone, PartialEq, Eq, Debug)]
pub struct Location {
    pub status: Vec<u8>,
    pub mode: Vec<u8>,
    pub lat: Option<Vec<u8>>,
    pub lon: Option<Vec<u8>>,
    pub time: Option<u32>,
    pub max: Option<u32>,
}

/// The mathematical shape of a decoded [`Location`].
pub struct LocationView {
    pub status: Seq<u8>,
    pub mode: Seq<u8>,
    pub lat: Option<Seq<u8>>,
    pub lon: Option<Seq<u8>>,
    pub time: Option<u32>,
    pub max: Option<u32>,
}

impl DeepView for Location {
    type V = LocationView;

    open spec fn deep_view(&self) -> LocationView {
        LocationView {
            status: self.status@,
            mode: self.mode@,
            lat: spec_opt_view(self.lat),
            lon: spec_opt_view(self.lon),
            time: self.time,
            max: self.max,
        }
    }
}

impl Response for Location {
    open spec fn spec_decode(frame: Seq<u8>) -> Option<LocationView> {
        if !json::spec_is_object(frame) {
            None
        } else {
            match json::spec_items_start(frame) {
                None => None,
                Some(i) => match (
                    json::spec_req_str_at(frame, i, "status".spec_bytes(), 120),
                    json::spec_req_str_at(frame, i, "mode".spec_bytes(), 20),
                    json::spec_opt_raw_at(frame, i, "lat".spec_bytes()),
                    json::spec_opt_raw_at(frame, i, "lon".spec_bytes()),
                    json::spec_opt_u32_at(frame, i, "time".spec_bytes()),
                    json::spec_opt_u32_at(frame, i, "max".spec_bytes()),
                ) {
                    (Some(status), Some(mode), Some(lat), Some(lon), Some(time), Some(max)) => Some(
                        LocationView { status, mode, lat, lon, time, max },
                    ),
                    _ => None,
                },
            }
        }
    }

    fn from_frame(frame: &[u8]) -> (r: Option<Location>) {
        if !json::is_object(frame) {
            return None;
        }
        let i = match json::items_start(frame) {
            Some(i) => i,
            None => {
                return None;
            },
        };
        let status = json::req_str_at(frame, i, "status".as_bytes(), 120);
        let mode = json::req_str_at(frame, i, "mode".as_bytes(), 20);
        let lat = json::opt_raw_at(frame, i, "lat".as_bytes());
        let lon = json::opt_raw_at(frame, i, "lon".as_bytes());
        let time = json::opt_u32_at(frame, i, "time".as_bytes());
        let max = json::opt_u32_at(frame, i, "max".as_bytes());
        match (status, mode, lat, lon, time, max) {
            (Some(status), Some(mode), Some(lat), Some(lon), Some(time), Some(max)) => Some(
                Location { status, mode, lat, lon, time, max },
            ),
            _ => None,
        }
    }
}

/// Current date, time and time-zone information.
#[derive(Clone, PartialEq, Eq, Debug)]
pub struct Time {
    pub time: Option<u32>,
    pub area: Option<Vec<u8>>,
    pub zone: Option<Vec<u8>>,
    pub minutes: Option<i32>,
    pub lat: Option<Vec<u8>>,
    pub lon: Option<Vec<u8>>,
    pub country: Option<Vec<u8>>,
}

/// The mathematical shape of a decoded [`Time`].
pub struct TimeView {
    pub time: Option<u32>,
    pub area: Option<Seq<u8>>,
    pub zone: Option<Seq<u8>>,
    pub minutes: Option<i32>,
    pub lat: Option<Seq<u8>>,
    pub lon: Option<Seq<u8>>,
    pub country: Option<Seq<u8>>,
}

impl DeepView for Time {
    type V = TimeView;

    open spec fn deep_view(&self) -> TimeView {
        TimeView {
            time: self.time,
            area: spec_opt_view(self.area),
            zone: spec_opt_view(self.zone),
            minutes: self.minutes,
            lat: spec_opt_view(self.lat),
            lon: spec_opt_view(self.lon),
            country: spec_opt_view(self.country),
        }
    }
}

impl Response for Time {
    open spec fn spec_decode(frame: Seq<u8>) -> Option<TimeView> {
        if !json::spec_is_object(frame) {
            None
        } else {
            match json::spec_items_start(frame) {
                None => None,
                Some(i) => match (
                    json::spec_opt_u32_at(frame, i, "time".spec_bytes()),
                    json::spec_opt_str_at(frame, i, "area".spec_bytes(), 20),
                    json::spec_opt_str_at(frame, i, "zone".spec_bytes(), 20),
                    json::spec_opt_i32_at(frame, i, "minutes".spec_bytes()),
                    json::spec_opt_raw_at(frame, i, "lat".spec_bytes()),
                    json::spec_opt_raw_at(frame, i, "lon".spec_bytes()),
                    json::spec_opt_str_at(frame, i, "country".spec_bytes(), 10),
                ) {
                    (Some(time), Some(area), Some(zone), Some(minutes), Some(lat), Some(lon), Some(country)) =>
                        Some(TimeView { time, area, zone, minutes, lat, lon, country }),
                    _ => None,
                },
            }
        }
    }

    fn from_frame(frame: &[u8]) -> (r: Option<Time>) {
        if !json::is_object(frame) {
            return None;
        }
        let i = match json::items_start(frame) {
            Some(i) => i,
            None => {
                return None;
            },
        };
        let time = json::opt_u32_at(frame, i, "time".as_bytes());
        let area = json::opt_str_at(frame, i, "area".as_bytes(), 20);
        let zone = json::opt_str_at(frame, i, "zone".as_bytes(), 20);
        let minutes = json::opt_i32_at(frame, i, "minutes".as_bytes());
        let lat = json::opt_raw_at(frame, i, "lat".as_bytes());
        let lon = json::opt_raw_at(frame, i, "lon".as_bytes());
        let country = json::opt_str_at(frame, i, "country".as_bytes(), 10);
        match (time, area, zone, minutes, lat, lon, country) {
            (Some(time), Some(area), Some(zone), Some(minutes), Some(lat), Some(lon), Some(country)) =>
                Some(Time { time, area, zone, minutes, lat, lon, country }),
            _ => None,
        }
    }
}

/// General information about the peer's operating status.
#[derive(Clone, PartialEq, Eq, Debug)]
pub struct Status {
    pub status: Vec<u8>,
    pub usb: bool,
    pub storage: usize,
    pub time: Option<u64>,
    pub connected: bool,
}

/// The mathematical shape of a decoded [`Status`].
pub struct StatusView {
    pub status: Seq<u8>,
    pub usb: bool,
    pub storage: usize,
    pub time: Option<u64>,
    pub connected: bool,
}

impl DeepView for Status {
    type V = StatusView;

    open spec fn deep_view(&self) -> StatusView {
        StatusView {
            status: self.status@,
            usb: self.usb,
            storage: self.storage,
            time: self.time,
            connected: self.connected,
        }
    }
}

impl Response for Status {
    open spec fn spec_decode(frame: Seq<u8>) -> Option<StatusView> {
        if !json::spec_is_object(frame) {
            None
        } else {
            match json::spec_items_start(frame) {
                None => None,
                Some(i) => match (
                    json::spec_req_str_at(frame, i, "status".spec_bytes(), 10),
                    json::spec_bool_default_at(frame, i, "usb".spec_bytes()),
                    json::spec_req_usize_at(frame, i, "storage".spec_bytes()),
                    json::spec_opt_u64_at(frame, i, "time".spec_bytes()),
                    json::spec_bool_default_at(frame, i, "connected".spec_bytes()),
                ) {
                    (Some(status), Some(usb), Some(storage), Some(time), Some(connected)) => Some(
                        StatusView { status, usb, storage, time, connected },
                    ),
                    _ => None,
                },
            }
        }
    }

    fn from_frame(frame: &[u8]) -> (r: Option<Status>) {
        if !json::is_object(frame) {
            return None;
        }
        let i = match json::items_start(frame) {
            Some(i) => i,
            None => {
                return None;
            },
        };
        let status = json::req_str_at(frame, i, "status".as_bytes(), 10);
        let usb = json::bool_default_at(frame, i, "usb".as_bytes());
        let storage = json::req_usize_at(frame, i, "storage".as_bytes());
        let time = json::opt_u64_at(frame, i, "time".as_bytes());
        let connected = json::bool_default_at(frame, i, "connected".as_bytes());
        match (status, usb, storage, time, connected) {
            (Some(status), Some(usb), Some(storage), Some(time), Some(connected)) => Some(
                Status { status, usb, storage, time, connected },
            ),
            _ => None,
        }
    }
}

/// Modem and network registration details, nested inside [`Wireless`].
#[derive(Clone, PartialEq, Eq, Debug)]
pub struct WirelessNet {
    iccid: Option<Vec<u8>>,
    imsi: Option<Vec<u8>>,
    imei: Option<Vec<u8>>,
    modem: Option<Vec<u8>>,
    band: Option<Vec<u8>>,
    rat: Option<Vec<u8>>,
    rssir: Option<i32>,
    rssi: Option<i32>,
    rsrp: Option<i32>,
    sinr: Option<i32>,
    rsrq: Option<i32>,
    bars: Option<i32>,
    mcc: Option<i32>,
    mnc: Option<i32>,
    lac: Option<i32>,
    cid: Option<i32>,
    updated: Option<u32>,
}

/// The mathematical shape of a decoded [`WirelessNet`].
pub struct WirelessNetView {
    pub iccid: Option<Seq<u8>>,
    pub imsi: Option<Seq<u8>>,
    pub imei: Option<Seq<u8>>,
    pub modem: Option<Seq<u8>>,
    pub band: Option<Seq<u8>>,
    pub rat: Option<Seq<u8>>,
    pub rssir: Option<i32>,
    pub rssi: Option<i32>,
    pub rsrp: Option<i32>,
    pub sinr: Option<i32>,
    pub rsrq: Option<i32>,
    pub bars: Option<i32>,
    pub mcc: Option<i32>,
    pub mnc: Option<i32>,
    pub lac: Option<i32>,
    pub cid: Option<i32>,
    pub updated: Option<u32>,
}

impl DeepView for WirelessNet {
    type V = WirelessNetView;

    closed spec fn deep_view(&self) -> WirelessNetView {
        WirelessNetView {
            iccid: spec_opt_view(self.iccid),
            imsi: spec_opt_view(self.imsi),
            imei: spec_opt_view(self.imei),
            modem: spec_opt_view(self.modem),
            band: spec_opt_view(self.band),
            rat: spec_opt_view(self.rat),
            rssir: self.rssir,
            rssi: self.rssi,
            rsrp: self.rsrp,
            sinr: self.sinr,
            rsrq: self.rsrq,
            bars: self.bars,
            mcc: self.mcc,
            mnc: self.mnc,
            lac: self.lac,
            cid: self.cid,
            updated: self.updated,
        }
    }
}

/// What the items of a nested `net` object decode to.
pub open spec fn spec_decode_net(frame: Seq<u8>, i: int) -> Option<WirelessNetView> {
    match (
        json::spec_opt_str_at(frame, i, "iccid".spec_bytes(), 24),
        json::spec_opt_str_at(frame, i, "imsi".spec_bytes(), 24),
        json::spec_opt_str_at(frame, i, "imei".spec_bytes(), 24),
        json::spec_opt_str_at(frame, i, "modem".spec_bytes(), 35),
        json::spec_opt_str_at(frame, i, "band".spec_bytes(), 24),
        json::spec_opt_str_at(frame, i, "rat".spec_bytes(), 24),
        json::spec_opt_i32_at(frame, i, "rssir".spec_bytes()),
        json::spec_opt_i32_at(frame, i, "rssi".spec_bytes()),
        json::spec_opt_i32_at(frame, i, "rsrp".spec_bytes()),
        json::spec_opt_i32_at(frame, i, "sinr".spec_bytes()),
        json::spec_opt_i32_at(frame, i, "rsrq".spec_bytes()),
        json::spec_opt_i32_at(frame, i, "bars".spec_bytes()),
        json::spec_opt_i32_at(frame, i, "mcc".spec_bytes()),
        json::spec_opt_i32_at(frame, i, "mnc".spec_bytes()),
        json::spec_opt_i32_at(frame, i, "lac".spec_bytes()),
        json::spec_opt_i32_at(frame, i, "cid".spec_bytes()),
        json::spec_opt_u32_at(frame, i, "updated".spec_bytes()),
    ) {
        (
            Some(iccid),
            Some(imsi),
            Some(imei),
            Some(modem),
            Some(band),
            Some(rat),
            Some(rssir),
            Some(rssi),
            Some(rsrp),
            Some(sinr),
            Some(rsrq),
            Some(bars),
            Some(mcc),
            Some(mnc),
            Some(lac),
            Some(cid),
            Some(updated),
        ) => Some(
            WirelessNetView {
                iccid,
                imsi,
                imei,
                modem,
                band,
                rat,
                rssir,
                rssi,
                rsrp,
                sinr,
                rsrq,
                bars,
                mcc,
                mnc,
                lac,
                cid,
                updated,
            },
        ),
        _ => None,
    }
}

fn decode_net(frame: &[u8], i: usize) -> (r: Option<WirelessNet>)
    requires
        i <= frame@.len(),
        frame@.len() <= json::MAX_FRAME,
    ensures
        match (r, spec_decode_net(frame@, i as int)) {
            (Some(v), Some(m)) => v.deep_view() == m,
            (None, None) => true,
            _ => false,
        },
{
    let iccid = json::opt_str_at(frame, i, "iccid".as_bytes(), 24);
    let imsi = json::opt_str_at(frame, i, "imsi".as_bytes(), 24);
    let imei = json::opt_str_at(frame, i, "imei".as_bytes(), 24);
    let modem = json::opt_str_at(frame, i, "modem".as_bytes(), 35);
    let band = json::opt_str_at(frame, i, "band".as_bytes(), 24);
    let rat = json::opt_str_at(frame, i, "rat".as_bytes(), 24);
    let rssir = json::opt_i32_at(frame, i, "rssir".as_bytes());
    let rssi = json::opt_i32_at(frame, i, "rssi".as_bytes());
    let rsrp = json::opt_i32_at(frame, i, "rsrp".as_bytes());
    let sinr = json::opt_i32_at(frame, i, "sinr".as_bytes());
    let rsrq = json::opt_i32_at(frame, i, "rsrq".as_bytes());
    let bars = json::opt_i32_at(frame, i, "bars".as_bytes());
    let mcc = json::opt_i32_at(frame, i, "mcc".as_bytes());
    let mnc = json::opt_i32_at(frame, i, "mnc".as_bytes());
    let lac = json::opt_i32_at(frame, i, "lac".as_bytes());
    let cid = json::opt_i32_at(frame, i, "cid".as_bytes());
    let updated = json::opt_u32_at(frame, i, "updated".as_bytes());
    match (
        iccid,
        imsi,
        imei,
        modem,
        band,
        rat,
        rssir,
        rssi,
        rsrp,
        sinr,
        rsrq,
        bars,
        mcc,
        mnc,
        lac,
        cid,
        updated,
    ) {
        (
            Some(iccid),
            Some(imsi),
            Some(imei),
            Some(modem),
            Some(band),
            Some(rat),
            Some(rssir),
            Some(rssi),
            Some(rsrp),
            Some(sinr),
            Some(rsrq),
            Some(bars),
            Some(mcc),
            Some(mnc),
            Some(lac),
            Some(cid),
            Some(updated),
        ) => Some(
            WirelessNet {
                iccid,
                imsi,
                imei,
                modem,
                band,
                rat,
                rssir,
                rssi,
                rsrp,
                sinr,
                rsrq,
                bars,
                mcc,
                mnc,
                lac,
                cid,
                updated,
            },
        ),
        _ => None,
    }
}

/// Wireless modem status and network details.
#[derive(Clone, PartialEq, Eq, Debug)]
pub struct Wireless {
    pub status: Vec<u8>,
    pub count: Option<u8>,
    pub net: Option<WirelessNet>,
}

/// The mathematical shape of a decoded [`Wireless`].
pub struct WirelessView {
    pub status: Seq<u8>,
    pub count: Option<u8>,
    pub net: Option<WirelessNetView>,
}

impl DeepView for Wireless {
    type V = WirelessView;

    open spec fn deep_view(&self) -> WirelessView {
        WirelessView {
            status: self.status@,
            count: self.count,
            net: match self.net {
                Some(n) => Some(n.deep_view()),
                None => None,
            },
        }
    }
}

impl Response for Wireless {
    open spec fn spec_decode(frame: Seq<u8>) -> Option<WirelessView> {
        if !json::spec_is_object(frame) {
            None
        } else {
            match json::spec_items_start(frame) {
                None => None,
                Some(i) => match (
                    json::spec_req_str_at(frame, i, "status".spec_bytes(), 24),
                    json::spec_opt_u8_at(frame, i, "count".spec_bytes()),
                    json::spec_opt_obj_at(frame, i, "net".spec_bytes()),
                ) {
                    (Some(status), Some(count), Some(net)) => match net {
                        None => Some(WirelessView { status, count, net: None }),
                        Some(ni) => match spec_decode_net(frame, ni) {
                            Some(n) => Some(WirelessView { status, count, net: Some(n) }),
                            None => None,
                        },
                    },
                    _ => None,
                },
            }
        }
    }

    fn from_frame(frame: &[u8]) -> (r: Option<Wireless>) {
        if !json::is_object(frame) {
            return None;
        }
        let i = match json::items_start(frame) {
            Some(i) => i,
            None => {
                return None;
            },
        };
        let status = json::req_str_at(frame, i, "status".as_bytes(), 24);
        let count = json::opt_u8_at(frame, i, "count".as_bytes());
        let net = json::opt_obj_at(frame, i, "net".as_bytes());
        match (status, count, net) {
            (Some(status), Some(count), Some(net)) => match net {
                None => Some(Wireless { status, count, net: None }),
                Some(ni) => match decode_net(frame, ni) {
                    Some(n) => Some(Wireless { status, count, net: Some(n) }),
                    None => None,
                },
            },
            _ => None,
        }
    }
}

} // verus!
