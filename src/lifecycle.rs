//! Starting and stopping a machine's hypervisor process.

use vstd::prelude::*;
use crate::cascade::{rung, Attempt};
use crate::config::{get_quickemu_cmd, quickemu_program, Config, Platform};
use crate::protocol::{classify, parse_vm_config, RemoteProtocol};
use crate::text::{joined, string_views, text};

verus! {

/// How long to wait after the hypervisor spawned, so that it can bind its ports.
pub const SETTLE_DELAY_MS: u64 = 2000;

/// A hypervisor launch and the line to log before it.
pub struct Launch {
    pub command: Attempt,
    pub announce: String,
}

/// Is a machine of `protocol` started without a display of its own? RDP and
/// VNC machines are, since they are reached through that channel.
pub open spec fn is_headless(protocol: RemoteProtocol) -> bool {
    !(protocol is Spice)
}

/// The launcher arguments that start the machine at `path`.
pub open spec fn start_args(path: Seq<char>, headless: bool) -> Seq<Seq<char>> {
    if headless {
        seq!["--vm"@, path, "--display"@, "none"@]
    } else {
        seq!["--vm"@, path]
    }
}

/// The line logged before the machine at `path` is started.
pub open spec fn start_announce(path: Seq<char>, headless: bool) -> Seq<char> {
    "Launching VM "@ + path + if headless {
        " headless..."@
    } else {
        " normally..."@
    }
}

/// The launch that starts the machine at `path`, whose definition reads
/// `definition`: headless where it exposes RDP or VNC.
pub fn start_vm(definition: &str, path: &str, cfg: &Config) -> (r: Launch)
    ensures
        r.command@ == rung(
            quickemu_program(cfg.platform),
            start_args(path@, is_headless(classify(definition@, cfg.default_spice_port))),
            false,
        ),
        r.announce@ == start_announce(path@, is_headless(classify(definition@, cfg.default_spice_port))),
{
    let protocol = parse_vm_config(definition, cfg.default_spice_port);
    let headless = match protocol {
        RemoteProtocol::Spice(_) => false,
        _ => true,
    };
    let args = if headless {
        vec![text("--vm"), text(path), text("--display"), text("none")]
    } else {
        vec![text("--vm"), text(path)]
    };
    assert(string_views(args@) =~= start_args(path@, headless));
    let head = joined("Launching VM ", path);
    let announce = if headless {
        joined(head.as_str(), " headless...")
    } else {
        joined(head.as_str(), " normally...")
    };
    let command = Attempt { program: get_quickemu_cmd(cfg.platform), args, set_display: false };
    Launch { command, announce }
}

/// The line logged when the machine at `path` could not be started.
pub fn start_failure_line(path: &str, error: &str) -> (r: String)
    ensures
        r@ == "Error launching VM "@ + path@ + ": "@ + error@,
{
    let a = joined("Error launching VM ", path);
    let b = joined(a.as_str(), ": ");
    joined(b.as_str(), error)
}

/// The launcher arguments that stop the machine at `path`.
pub open spec fn stop_args(path: Seq<char>) -> Seq<Seq<char>> {
    seq!["--kill"@, "--vm"@, path]
}

/// The launch that asks the hypervisor of the machine at `path` to stop.
pub fn stop_vm(path: &str, platform: Platform) -> (r: Launch)
    ensures
        r.command@ == rung(quickemu_program(platform), stop_args(path@), false),
        r.announce@ == "Stopping VM "@ + path@ + "..."@,
{
    let args = vec![text("--kill"), text("--vm"), text(path)];
    assert(string_views(args@) =~= stop_args(path@));
    let a = joined("Stopping VM ", path);
    let announce = joined(a.as_str(), "...");
    Launch { command: Attempt { program: get_quickemu_cmd(platform), args, set_display: false }, announce }
}

/// The line logged once the stop request for the machine at `path` went out.
pub fn stop_issued_line(path: &str) -> (r: String)
    ensures
        r@ == "Stop command issued for "@ + path@ + "."@,
{
    let a = joined("Stop command issued for ", path);
    joined(a.as_str(), ".")
}

/// The line logged when the stop request for the machine at `path` could not go out.
pub fn stop_failure_line(path: &str, error: &str) -> (r: String)
    ensures
        r@ == "Error stopping VM "@ + path@ + ": "@ + error@,
{
    let a = joined("Error stopping VM ", path);
    let b = joined(a.as_str(), ": ");
    joined(b.as_str(), error)
}

} // verus!
