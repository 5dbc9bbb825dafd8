//! The lines of the status report.

use vstd::prelude::*;
use vstd::string::StringExecFns;

use crate::proxy::{listen_addr, write_listen_addr};

verus! {

/// Milliseconds that the report waits for the local proxy.
pub const LISTENER_TIMEOUT_MILLIS: u64 = 500;

/// Milliseconds that the report waits for the upstream proxy.
pub const PROXY_CONNECT_TIMEOUT_MILLIS: u64 = 1500;

/// The title of the report.
pub const TITLE: &'static str = "zq status";

/// What underlines the title.
pub const TITLE_RULE: &'static str = "=========";

/// The line on the daemon.
pub open spec fn daemon_text(running: bool) -> Seq<char> {
    "Daemon:     "@ + if running {
        "running"@
    } else {
        "not running"@
    }
}

/// Writes the line on the daemon.
pub fn daemon_line(running: bool) -> (s: String)
    ensures
        s@ == daemon_text(running),
{
    let mut s = "Daemon:     ".to_string();
    s.append(
        if running {
            "running"
        } else {
            "not running"
        },
    );
    s
}

/// The line on the packet-filter rules.
pub open spec fn anchor_text(loaded: bool) -> Seq<char> {
    "PF anchor:  "@ + if loaded {
        "loaded"@
    } else {
        "not loaded"@
    }
}

/// Writes the line on the packet-filter rules.
pub fn anchor_line(loaded: bool) -> (s: String)
    ensures
        s@ == anchor_text(loaded),
{
    let mut s = "PF anchor:  ".to_string();
    s.append(
        if loaded {
            "loaded"
        } else {
            "not loaded"
        },
    );
    s
}

/// A label, a state and an address in parentheses.
pub open spec fn place_text(label: Seq<char>, state: Seq<char>, addr: Seq<char>) -> Seq<char> {
    label + state + " ("@ + addr + ")"@
}

fn write_place(label: &str, state: &str, addr: &str) -> (s: String)
    ensures
        s@ == place_text(label@, state@, addr@),
{
    let mut s = label.to_string();
    s.append(state);
    s.append(" (");
    s.append(addr);
    s.append(")");
    s
}

/// The line on the local proxy.
pub open spec fn proxy_text(listening: bool, port: u16) -> Seq<char> {
    place_text(
        "Proxy:      "@,
        if listening {
            "listening"@
        } else {
            "not listening"@
        },
        listen_addr(port),
    )
}

/// Writes the line on the local proxy.
pub fn proxy_line(listening: bool, port: u16) -> (s: String)
    ensures
        s@ == proxy_text(listening, port),
{
    let addr = write_listen_addr(port);
    let state = if listening {
        "listening"
    } else {
        "not listening"
    };
    write_place("Proxy:      ", state, addr.as_str())
}

/// The line on the upstream proxy.
pub open spec fn upstream_text(reachable: bool, addr: Seq<char>) -> Seq<char> {
    place_text(
        "Upstream:   "@,
        if reachable {
            "reachable"@
        } else {
            "unreachable"@
        },
        addr,
    )
}

/// Writes the line on the upstream proxy.
pub fn upstream_line(reachable: bool, addr: &str) -> (s: String)
    ensures
        s@ == upstream_text(reachable, addr@),
{
    let state = if reachable {
        "reachable"
    } else {
        "unreachable"
    };
    write_place("Upstream:   ", state, addr)
}

/// Each line of the report says what was found, under its label, and where.
pub proof fn law_report_says_what_was_found(port: u16, addr: Seq<char>)
    ensures
        daemon_text(true) == "Daemon:     "@ + "running"@,
        daemon_text(false) == "Daemon:     "@ + "not running"@,
        anchor_text(true) == "PF anchor:  "@ + "loaded"@,
        anchor_text(false) == "PF anchor:  "@ + "not loaded"@,
        proxy_text(true, port) == "Proxy:      "@ + "listening"@ + " ("@ + listen_addr(port)
            + ")"@,
        proxy_text(false, port) == "Proxy:      "@ + "not listening"@ + " ("@ + listen_addr(port)
            + ")"@,
        upstream_text(true, addr) == "Upstream:   "@ + "reachable"@ + " ("@ + addr + ")"@,
        upstream_text(false, addr) == "Upstream:   "@ + "unreachable"@ + " ("@ + addr + ")"@,
        listen_addr(port) == "127.0.0.1:"@ + crate::text::decimal(port as nat),
{
}

/// The report waits half a second for the local proxy and three times as long for
/// the upstream one.
pub proof fn law_report_timings()
    ensures
        LISTENER_TIMEOUT_MILLIS * 2 == 1000,
        PROXY_CONNECT_TIMEOUT_MILLIS == 3 * LISTENER_TIMEOUT_MILLIS,
{
}

} // verus!
