//! The hub request shapes and their serialized forms.
use vstd::prelude::*;
use vstd::string::StringSliceAdditionalSpecFns;

use crate::engine::Request;
use crate::json::{push_bool, push_bytes, push_json_str, spec_bool_bytes, spec_json_str};

verus! {

/// The sync mode the peer is asked to run in.
#[derive(Clone, Copy, PartialEq, Eq, Structural, Debug)]
pub enum HubMode {
    Periodic,
    Continuous,
    Minimum,
    Off,
    DFU,
}

/// The lower-case name a mode is serialized as.
pub open spec fn spec_hub_mode(m: HubMode) -> Seq<u8> {
    match m {
        HubMode::Periodic => "periodic".spec_bytes(),
        HubMode::Continuous => "continuous".spec_bytes(),
        HubMode::Minimum => "minimum".spec_bytes(),
        HubMode::Off => "off".spec_bytes(),
        HubMode::DFU => "dfu".spec_bytes(),
    }
}

pub fn hub_mode_str(m: &HubMode) -> (r: &'static str)
    ensures
        r.spec_bytes() == spec_hub_mode(*m),
{
    match m {
        HubMode::Periodic => "periodic",
        HubMode::Continuous => "continuous",
        HubMode::Minimum => "minimum",
        HubMode::Off => "off",
        HubMode::DFU => "dfu",
    }
}

/// The hub connection settings request. `product` is always serialized, as
/// `null` when absent; the other optional fields are skipped when absent.
#[derive(Clone, Copy, Default)]
pub struct HubSet<'a> {
    pub req: &'static str,
    pub product: Option<&'a str>,
    pub host: Option<&'a str>,
    pub mode: Option<HubMode>,
    pub sn: Option<&'a str>,
}

impl<'a> Request for HubSet<'a> {
    open spec fn spec_json(&self) -> Seq<u8> {
        "{\"req\":".spec_bytes() + spec_json_str(self.req.spec_bytes()) + ",\"product\":".spec_bytes()
            + (match self.product {
            Some(p) => spec_json_str(p.spec_bytes()),
            None => "null".spec_bytes(),
        }) + (match self.host {
            Some(h) => ",\"host\":".spec_bytes() + spec_json_str(h.spec_bytes()),
            None => Seq::empty(),
        }) + (match self.mode {
            Some(m) => ",\"mode\":".spec_bytes() + spec_json_str(spec_hub_mode(m)),
            None => Seq::empty(),
        }) + (match self.sn {
            Some(x) => ",\"sn\":".spec_bytes() + spec_json_str(x.spec_bytes()),
            None => Seq::empty(),
        }) + "}".spec_bytes()
    }

    fn to_json(&self) -> (r: Vec<u8>) {
        let mut out: Vec<u8> = Vec::new();
        push_bytes(&mut out, "{\"req\":".as_bytes());
        push_json_str(&mut out, self.req);
        push_bytes(&mut out, ",\"product\":".as_bytes());
        match self.product {
            Some(p) => push_json_str(&mut out, p),
            None => push_bytes(&mut out, "null".as_bytes()),
        }
        match self.host {
            Some(h) => {
                push_bytes(&mut out, ",\"host\":".as_bytes());
                push_json_str(&mut out, h);
            },
            None => {},
        }
        match self.mode {
            Some(m) => {
                push_bytes(&mut out, ",\"mode\":".as_bytes());
                push_json_str(&mut out, hub_mode_str(&m));
            },
            None => {},
        }
        match self.sn {
            Some(x) => {
                push_bytes(&mut out, ",\"sn\":".as_bytes());
                push_json_str(&mut out, x);
            },
            None => {},
        }
        push_bytes(&mut out, "}".as_bytes());
        proof {
            assert(out@ =~= self.spec_json());
        }
        out
    }
}

/// The "device health" log request; every field is serialized.
#[derive(Clone, Copy, Default)]
pub struct HubLog<'a> {
    pub req: &'static str,
    pub text: &'a str,
    pub alert: bool,
    pub sync: bool,
}

impl<'a> Request for HubLog<'a> {
    open spec fn spec_json(&self) -> Seq<u8> {
        "{\"req\":".spec_bytes() + spec_json_str(self.req.spec_bytes()) + ",\"text\":".spec_bytes()
            + spec_json_str(self.text.spec_bytes()) + ",\"alert\":".spec_bytes() + spec_bool_bytes(
            self.alert,
        ) + ",\"sync\":".spec_bytes() + spec_bool_bytes(self.sync) + "}".spec_bytes()
    }

    fn to_json(&self) -> (r: Vec<u8>) {
        let mut out: Vec<u8> = Vec::new();
        push_bytes(&mut out, "{\"req\":".as_bytes());
        push_json_str(&mut out, self.req);
        push_bytes(&mut out, ",\"text\":".as_bytes());
        push_json_str(&mut out, self.text);
        push_bytes(&mut out, ",\"alert\":".as_bytes());
        push_bool(&mut out, self.alert);
        push_bytes(&mut out, ",\"sync\":".as_bytes());
        push_bool(&mut out, self.sync);
        push_bytes(&mut out, "}".as_bytes());
        proof {
            assert(out@ =~= self.spec_json());
        }
        out
    }
}

} // verus!
