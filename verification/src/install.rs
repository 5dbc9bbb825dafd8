//! What is printed while rules are set up and taken down.

use vstd::prelude::*;
use vstd::string::StringExecFns;

use crate::config::Config;
use crate::text::{decimal, push_decimal};

verus! {

/// Printed once the rules are loaded.
pub const SETUP_DONE: &'static str = "Done. PF anchor 'zq' is active.";

/// How to look at the loaded rules.
pub const SETUP_HINT: &'static str = "Verify with: sudo pfctl -a zq -sr";

/// Printed before the rules are removed.
pub const TEARDOWN_START: &'static str = "Removing pf anchor 'zq'...";

/// Printed once the rules are removed.
pub const TEARDOWN_DONE: &'static str = "Done. PF anchor 'zq' has been flushed.";

/// What is printed before the rules are loaded.
pub open spec fn setup_text(port: u16, interface: Seq<char>, uid: u32) -> Seq<char> {
    "Loading pf rules (proxy port "@ + decimal(port as nat) + ", interface "@ + interface
        + ", excluded uid "@ + decimal(uid as nat) + ")..."@
}

/// Writes what is printed before the rules are loaded.
pub fn setup_line(config: &Config, uid: u32) -> (s: String)
    ensures
        s@ == setup_text(config@.proxy_port, config@.interface, uid),
{
    let mut s = "Loading pf rules (proxy port ".to_string();
    push_decimal(&mut s, config.proxy_port as u64);
    s.append(", interface ");
    s.append(config.interface.as_str());
    s.append(", excluded uid ");
    push_decimal(&mut s, uid as u64);
    s.append(")...");
    s
}

/// What is printed names the port, the interface and the user, as they are.
pub proof fn law_setup_names_its_settings(port: u16, interface: Seq<char>, uid: u32)
    ensures
        setup_text(port, interface, uid) == "Loading pf rules (proxy port "@ + decimal(port as nat)
            + ", interface "@ + interface + ", excluded uid "@ + decimal(uid as nat) + ")..."@,
{
}

} // verus!
