//! Time limits, in nanoseconds, and the settings that override them.
use crate::session::{NANOS_PER_MILLI, NANOS_PER_SEC};
use crate::text;
use crate::text::parse_number;
use vstd::prelude::*;

verus! {

/// How long an ordinary MCP request may take.
pub const MCP_REQUEST_TIMEOUT: u128 = 120_000_000_000;

/// How long an MCP request that reads or renders the whole page may take.
pub const MCP_HEAVY_REQUEST_TIMEOUT: u128 = 300_000_000_000;

/// How long an MCP server may take to answer a probe.
pub const MCP_PROBE_TIMEOUT: u128 = 10_000_000_000;

/// How far back diagnostics reach.
pub const DIAGNOSTIC_WINDOW: u128 = 600_000_000_000;

/// From when on a control command counts as slow.
pub const CONTROL_WARN_LATENCY: u128 = 1_000_000_000;

/// From when on a forwarded request counts as slow.
pub const FORWARD_WARN_LATENCY: u128 = 30_000_000_000;

/// How often idle sessions are looked for.
pub const SESSION_REAPER_INTERVAL: u128 = 60_000_000_000;

/// How long a daemon may take to become ready.
pub const DAEMON_READY_TIMEOUT: u128 = 30_000_000_000;

/// A setting in units of `unit` nanoseconds, or a default where it is missing or no
/// number.
pub open spec fn setting(value: Option<Seq<char>>, unit: nat, default: nat) -> nat {
    match value {
        Some(s) => match text::parsed(s, u64::MAX as nat) {
            Some(n) => n * unit,
            None => default,
        },
        None => default,
    }
}

fn in_units(value: Option<&str>, unit: u128, default: u128) -> (r: u128)
    requires
        unit <= NANOS_PER_SEC,
    ensures
        r == setting(text::opt_str(value), unit as nat, default as nat),
{
    match value {
        Some(s) => match parse_number(s, u64::MAX) {
            Some(n) => {
                assert(n as u128 * unit <= 0xffff_ffff_ffff_ffff * 1_000_000_000)
                    by (nonlinear_arith)
                    requires
                        n <= 0xffff_ffff_ffff_ffff,
                        unit <= 1_000_000_000,
                ;
                n as u128 * unit
            },
            None => default,
        },
        None => default,
    }
}

/// A time limit given in seconds, `default_secs` where the setting is missing or no number.
pub fn timeout_from_env(value: Option<&str>, default_secs: u64) -> (r: u128)
    ensures
        r == setting(text::opt_str(value), 1_000_000_000, default_secs as nat * 1_000_000_000),
{
    in_units(value, NANOS_PER_SEC, default_secs as u128 * NANOS_PER_SEC)
}

/// How long an ordinary MCP request may take.
pub fn mcp_request_timeout(value: Option<&str>) -> (r: u128)
    ensures
        r == setting(text::opt_str(value), 1_000_000_000, 120_000_000_000),
{
    in_units(value, NANOS_PER_SEC, MCP_REQUEST_TIMEOUT)
}

/// How long a heavy MCP request may take.
pub fn mcp_heavy_request_timeout(value: Option<&str>) -> (r: u128)
    ensures
        r == setting(text::opt_str(value), 1_000_000_000, 300_000_000_000),
{
    in_units(value, NANOS_PER_SEC, MCP_HEAVY_REQUEST_TIMEOUT)
}

/// How long an MCP server may take to answer a probe.
pub fn mcp_probe_timeout(value: Option<&str>) -> (r: u128)
    ensures
        r == setting(text::opt_str(value), 1_000_000_000, 10_000_000_000),
{
    in_units(value, NANOS_PER_SEC, MCP_PROBE_TIMEOUT)
}

/// How far back diagnostics reach.
pub fn diagnostic_window(value: Option<&str>) -> (r: u128)
    ensures
        r == setting(text::opt_str(value), 1_000_000_000, 600_000_000_000),
{
    in_units(value, NANOS_PER_SEC, DIAGNOSTIC_WINDOW)
}

/// From when on a control command counts as slow.
pub fn control_warn_latency(value: Option<&str>) -> (r: u128)
    ensures
        r == setting(text::opt_str(value), 1_000_000, 1_000_000_000),
{
    in_units(value, NANOS_PER_MILLI, CONTROL_WARN_LATENCY)
}

/// From when on a forwarded request counts as slow.
pub fn forward_warn_latency(value: Option<&str>) -> (r: u128)
    ensures
        r == setting(text::opt_str(value), 1_000_000, 30_000_000_000),
{
    in_units(value, NANOS_PER_MILLI, FORWARD_WARN_LATENCY)
}

/// How long a session that nobody uses is kept.
pub fn session_idle_ttl(value: Option<&str>) -> (r: u128)
    ensures
        r == setting(text::opt_str(value), 1_000_000_000, 1_800_000_000_000),
{
    in_units(value, NANOS_PER_SEC, crate::session::SESSION_IDLE_TTL)
}

/// How often idle sessions are looked for.
pub fn session_reaper_interval(value: Option<&str>) -> (r: u128)
    ensures
        r == setting(text::opt_str(value), 1_000_000, 60_000_000_000),
{
    in_units(value, NANOS_PER_MILLI, SESSION_REAPER_INTERVAL)
}

/// How long a control command may take to be answered.
pub fn control_timeout(value: Option<&str>) -> (r: u128)
    ensures
        r == setting(text::opt_str(value), 1_000_000_000, 10_000_000_000),
{
    timeout_from_env(value, 10)
}

/// How long a bind may take to be acknowledged.
pub fn bind_timeout(value: Option<&str>) -> (r: u128)
    ensures
        r == setting(text::opt_str(value), 1_000_000_000, 120_000_000_000),
{
    timeout_from_env(value, 120)
}

/// How long a profile lock is waited for.
pub fn lock_timeout(value: Option<&str>) -> (r: u128)
    ensures
        r == setting(text::opt_str(value), 1_000_000_000, 300_000_000_000),
{
    timeout_from_env(value, 300)
}

} // verus!
