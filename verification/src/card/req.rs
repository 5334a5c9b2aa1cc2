//! The card request shapes and their serialized forms.
use vstd::prelude::*;
use vstd::string::StringSliceAdditionalSpecFns;

use crate::engine::Request;
use crate::json::{
    push_bytes, push_json_str, push_opt_bool_field, push_opt_raw_field, push_opt_str_field,
    push_opt_u32_field, spec_json_str, spec_opt_bool_field, spec_opt_raw_field, spec_opt_str_field,
    spec_opt_u32_field,
};

verus! {

/// The location configuration request. Optional fields are skipped when
/// absent; the coordinates are raw JSON number literals.
#[derive(Clone, Copy, Default)]
pub struct LocationMode<'a> {
    pub req: &'static str,
    pub mode: Option<&'a str>,
    pub seconds: Option<u32>,
    pub vseconds: Option<&'a str>,
    pub delete: Option<bool>,
    pub max: Option<u32>,
    pub lat: Option<&'a str>,
    pub lon: Option<&'a str>,
    pub minutes: Option<u32>,
}

impl<'a> Request for LocationMode<'a> {
    open spec fn spec_json(&self) -> Seq<u8> {
        "{\"req\":".spec_bytes() + spec_json_str(self.req.spec_bytes()) + spec_opt_str_field(
            ",\"mode\":".spec_bytes(),
            self.mode,
        ) + spec_opt_u32_field(",\"seconds\":".spec_bytes(), self.seconds) + spec_opt_str_field(
            ",\"vseconds\":".spec_bytes(),
            self.vseconds,
        ) + spec_opt_bool_field(",\"delete\":".spec_bytes(), self.delete) + spec_opt_u32_field(
            ",\"max\":".spec_bytes(),
            self.max,
        ) + spec_opt_raw_field(",\"lat\":".spec_bytes(), self.lat) + spec_opt_raw_field(
            ",\"lon\":".spec_bytes(),
            self.lon,
        ) + spec_opt_u32_field(",\"minutes\":".spec_bytes(), self.minutes) + "}".spec_bytes()
    }

    fn to_json(&self) -> (r: Vec<u8>) {
        let mut out: Vec<u8> = Vec::new();
        push_bytes(&mut out, "{\"req\":".as_bytes());
        push_json_str(&mut out, self.req);
        push_opt_str_field(&mut out, ",\"mode\":", self.mode);
        push_opt_u32_field(&mut out, ",\"seconds\":", self.seconds);
        push_opt_str_field(&mut out, ",\"vseconds\":", self.vseconds);
        push_opt_bool_field(&mut out, ",\"delete\":", self.delete);
        push_opt_u32_field(&mut out, ",\"max\":", self.max);
        push_opt_raw_field(&mut out, ",\"lat\":", self.lat);
        push_opt_raw_field(&mut out, ",\"lon\":", self.lon);
        push_opt_u32_field(&mut out, ",\"minutes\":", self.minutes);
        push_bytes(&mut out, "}".as_bytes());
        proof {
            assert(out@ =~= self.spec_json());
        }
        out
    }
}

/// The location tracking request. Optional fields are skipped when absent.
#[derive(Clone, Copy, Default)]
pub struct LocationTrack<'a> {
    pub req: &'static str,
    pub start: Option<bool>,
    pub heartbeat: Option<bool>,
    pub sync: Option<bool>,
    pub stop: Option<bool>,
    pub hours: Option<u32>,
    pub file: Option<&'a str>,
}

impl<'a> Request for LocationTrack<'a> {
    open spec fn spec_json(&self) -> Seq<u8> {
        "{\"req\":".spec_bytes() + spec_json_str(self.req.spec_bytes()) + spec_opt_bool_field(
            ",\"start\":".spec_bytes(),
            self.start,
        ) + spec_opt_bool_field(",\"heartbeat\":".spec_bytes(), self.heartbeat)
            + spec_opt_bool_field(",\"sync\":".spec_bytes(), self.sync) + spec_opt_bool_field(
            ",\"stop\":".spec_bytes(),
            self.stop,
        ) + spec_opt_u32_field(",\"hours\":".spec_bytes(), self.hours) + spec_opt_str_field(
            ",\"file\":".spec_bytes(),
            self.file,
        ) + "}".spec_bytes()
    }

    fn to_json(&self) -> (r: Vec<u8>) {
        let mut out: Vec<u8> = Vec::new();
        push_bytes(&mut out, "{\"req\":".as_bytes());
        push_json_str(&mut out, self.req);
        push_opt_bool_field(&mut out, ",\"start\":", self.start);
        push_opt_bool_field(&mut out, ",\"heartbeat\":", self.heartbeat);
        push_opt_bool_field(&mut out, ",\"sync\":", self.sync);
        push_opt_bool_field(&mut out, ",\"stop\":", self.stop);
        push_opt_u32_field(&mut out, ",\"hours\":", self.hours);
        push_opt_str_field(&mut out, ",\"file\":", self.file);
        push_bytes(&mut out, "}".as_bytes());
        proof {
            assert(out@ =~= self.spec_json());
        }
        out
    }
}

} // verus!
