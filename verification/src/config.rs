//! Startup parameters: the command line, the optional configuration
//! file, and the server's running configuration.
//!
//! The driver parses flags and reads the configuration file; the
//! choice between them and the parsing of the numeric fields happen
//! here.  The file, when present and complete, wins over the flags.

use vstd::prelude::*;

use crate::num::parse_u16;
use crate::num::parse_u64;
use crate::num::spec_parse_dec;

verus! {

/// The command-line arguments, already decoded to plain values.
pub struct Arguments {
    pub port: u16,
    pub libdir: String,
    pub keydir: String,
    pub timeout: u64,
    pub visualize: bool,
}

/// The startup parameters one source yields.
pub struct Param {
    pub port: u16,
    pub libdir: String,
    pub keydir: String,
    pub timeout: u64,
}

/// The server's running configuration.
pub struct ServerConfig {
    pub port: u16,
    pub libdir: String,
    pub keydir: String,
    pub timeout: u64,
}

/// Takes the startup parameters from the command line.
pub fn read_parameter(args: Arguments) -> (r: Param)
    ensures
        r.port == args.port,
        r.libdir@ == args.libdir@,
        r.keydir@ == args.keydir@,
        r.timeout == args.timeout,
{
    Param { port: args.port, libdir: args.libdir, keydir: args.keydir, timeout: args.timeout }
}

/// Builds the startup parameters from the configuration file's four
/// entries, each the looked-up text for its keyword, or nothing if a
/// keyword is missing or a numeric field does not parse.
pub fn read_config_values(
    port: Option<String>,
    libdir: Option<String>,
    keydir: Option<String>,
    timeout: Option<String>,
) -> (r: Option<Param>)
    ensures
        match r {
            Some(p) => {
                &&& port matches Some(ps) && spec_parse_dec(ps@) == Some(p.port as int)
                &&& libdir matches Some(l) && p.libdir@ == l@
                &&& keydir matches Some(k) && p.keydir@ == k@
                &&& timeout matches Some(ts) && spec_parse_dec(ts@) == Some(p.timeout as int)
            },
            None => {
                ||| port is None
                ||| libdir is None
                ||| keydir is None
                ||| timeout is None
                ||| (port matches Some(ps) && (spec_parse_dec(ps@) is None || (spec_parse_dec(ps@)
                    matches Some(v) && v > u16::MAX)))
                ||| (timeout matches Some(ts) && (spec_parse_dec(ts@) is None || (spec_parse_dec(
                    ts@,
                ) matches Some(v) && v > u64::MAX)))
            },
        },
{
    let (ps, l, k, ts) = match (port, libdir, keydir, timeout) {
        (Some(ps), Some(l), Some(k), Some(ts)) => (ps, l, k, ts),
        _ => {
            return None;
        },
    };
    let pv = match parse_u16(ps.as_str()) {
        Some(v) => v,
        None => {
            return None;
        },
    };
    let tv = match parse_u64(ts.as_str()) {
        Some(v) => v,
        None => {
            return None;
        },
    };
    Some(Param { port: pv, libdir: l, keydir: k, timeout: tv })
}

/// The keydir falls back to the libdir when left empty, and the
/// parameters become the running configuration.
pub fn into_config(p: Param) -> (r: ServerConfig)
    ensures
        r.port == p.port,
        r.libdir@ == p.libdir@,
        r.timeout == p.timeout,
        p.keydir@.len() > 0 ==> r.keydir@ == p.keydir@,
        p.keydir@.len() == 0 ==> r.keydir@ == p.libdir@,
{
    let keydir = if p.keydir.as_str().is_empty() {
        p.libdir.clone()
    } else {
        p.keydir
    };
    ServerConfig { port: p.port, libdir: p.libdir, keydir, timeout: p.timeout }
}

} // verus!
