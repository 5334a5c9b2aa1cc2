//! The response decoders and the request serializers on recorded peer
//! frames.
use notecard::card::res;
use notecard::engine::{NotecardError, Request, Response};
use notecard::hub::req;
use notecard::hub::res as hub_res;

#[test]
fn test_card_wireless() {
    let r = br##"{"status":"{modem-on}","count":3,"net":{"iccid":"89011703278520607527","imsi":"310170852060752","imei":"864475044204278","modem":"BG95M3LAR02A03_01.006.01.006","band":"GSM 900","rat":"gsm","rssir":-77,"rssi":-77,"bars":3,"mcc":242,"mnc":1,"lac":11001,"cid":12313,"updated":1643923524}}"##;
    res::Wireless::from_frame(r).unwrap();

    let r = br##"{"status":"{cell-registration-wait}","net":{"iccid":"89011703278520606586","imsi":"310170852060658","imei":"864475044197092","modem":"BG95M3LAR02A03_01.006.01.006"}}"##;
    res::Wireless::from_frame(r).unwrap();

    let r = br##"{"status":"{modem-off}","net":{}}"##;
    res::Wireless::from_frame(r).unwrap();
}

#[test]
fn test_card_time_ok() {
    let r = br##"
    {
      "time": 1599769214,
      "area": "Beverly, MA",
      "zone": "CDT,America/New York",
      "minutes": -300,
      "lat": 42.5776,
      "lon": -70.87134,
      "country": "US"
    }
    "##;

    res::Time::from_frame(r).unwrap();
}

#[test]
fn test_card_time_err() {
    let r = br##"{"err":"time is not yet set","zone":"UTC,Unknown"}"##;
    NotecardError::from_frame(r).unwrap();
}

#[test]
pub fn test_status_ok() {
    res::Status::from_frame(
        r#"
      {
        "status":    "{normal}",
        "usb":       true,
        "storage":   8,
        "time":      1599684765,
        "connected": true
      }"#
            .as_bytes(),
    )
    .unwrap();
}

#[test]
pub fn test_status_mising() {
    res::Status::from_frame(
        r#"
      {
        "status":    "{normal}",
        "usb":       true,
        "storage":   8
      }"#
            .as_bytes(),
    )
    .unwrap();
}

#[test]
fn test_partial_location_mode() {
    res::LocationMode::from_frame(r#"{"seconds":60,"mode":"periodic"}"#.as_bytes()).unwrap();
}

#[test]
fn test_location_searching() {
    res::Location::from_frame(
        r#"{"status":"GPS search (111 sec, 32/33 dB SNR, 0/1 sats) {gps-active} {gps-signal} {gps-sats}","mode":"continuous"}"#.as_bytes()).unwrap();
}

#[test]
fn test_location_mode_err() {
    let r = br##"{"err":"seconds: field seconds: unmarshal: expected a int32 {io}"}"##;
    NotecardError::from_frame(r).unwrap();
}

#[test]
pub fn test_empty() {
    hub_res::Empty::from_frame(r#"{}"#.as_bytes()).unwrap();
}

#[test]
pub fn hub_set_some() {
    let hb = req::HubSet {
        req: "hub.set",
        product: Some("testprod"),
        host: Some("testhost"),
        mode: Some(req::HubMode::Periodic),
        ..Default::default()
    };

    assert_eq!(
        &String::from_utf8(hb.to_json()).unwrap(),
        r#"{"req":"hub.set","product":"testprod","host":"testhost","mode":"periodic"}"#
    );
}
