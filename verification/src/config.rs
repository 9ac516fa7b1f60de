//! Process configuration, assembled from raw environment values.
//!
//! Reading the environment is I/O and stays outside this crate; the
//! rules for turning the raw values into a configuration — which value
//! is required, which defaults apply, how the port is parsed — live
//! here.

use vstd::prelude::*;

use crate::error::Error;
use crate::numeric::{parse_u16, spec_parse_u16};

verus! {

/// Connection and credential settings for one run.
#[derive(Debug, Clone, PartialEq)]
pub struct Config {
    pub database_url: String,
    pub api_host: String,
    pub api_port: u16,
    pub nps_api_key: Option<String>,
    pub nts_api_key: Option<String>,
    pub fsc_api_key: Option<String>,
    pub pps_api_key: Option<String>,
    pub vworld_api_key: Option<String>,
}

/// The text of an optional string value.
pub open spec fn spec_opt_text(o: Option<String>) -> Option<Seq<char>> {
    match o {
        Some(s) => Some(s@),
        None => None,
    }
}

/// The port a raw value configures: a parsable 16-bit decimal wins,
/// anything else (a missing value included) falls back to 8080.
pub open spec fn spec_port_of(raw: Option<String>) -> u16 {
    match raw {
        Some(p) => match spec_parse_u16(p@) {
            Some(v) => v,
            None => 8080,
        },
        None => 8080,
    }
}

impl Config {
    /// Assemble the configuration.  The database URL is required and
    /// its absence is a configuration error detected before any network
    /// call; the host defaults to `0.0.0.0`; the port falls back to
    /// 8080 when absent or unparsable; the per-source API keys pass
    /// through untouched.
    pub fn from_values(
        database_url: Option<String>,
        api_host: Option<String>,
        api_port: Option<String>,
        nps_api_key: Option<String>,
        nts_api_key: Option<String>,
        fsc_api_key: Option<String>,
        pps_api_key: Option<String>,
        vworld_api_key: Option<String>,
    ) -> (r: Result<Config, Error>)
        ensures
            database_url is None ==> (r matches Err(e) && e matches Error::Config(_)),
            database_url matches Some(u) ==> (r matches Ok(c) && {
                &&& c.database_url@ == u@
                &&& c.api_host@ == (match api_host {
                    Some(h) => h@,
                    None => "0.0.0.0"@,
                })
                &&& c.api_port == spec_port_of(api_port)
                &&& spec_opt_text(c.nps_api_key) == spec_opt_text(nps_api_key)
                &&& spec_opt_text(c.nts_api_key) == spec_opt_text(nts_api_key)
                &&& spec_opt_text(c.fsc_api_key) == spec_opt_text(fsc_api_key)
                &&& spec_opt_text(c.pps_api_key) == spec_opt_text(pps_api_key)
                &&& spec_opt_text(c.vworld_api_key) == spec_opt_text(vworld_api_key)
            }),
    {
        let database_url = match database_url {
            Some(u) => u,
            None => {
                return Err(Error::Config(String::from_str("DATABASE_URL must be set")));
            },
        };
        let api_host = match api_host {
            Some(h) => h,
            None => String::from_str("0.0.0.0"),
        };
        let api_port = match &api_port {
            Some(p) => match parse_u16(p.as_str()) {
                Some(v) => v,
                None => 8080,
            },
            None => 8080,
        };
        Ok(
            Config {
                database_url,
                api_host,
                api_port,
                nps_api_key,
                nts_api_key,
                fsc_api_key,
                pps_api_key,
                vworld_api_key,
            },
        )
    }
}

} // verus!
