//! Whether a machine is running: which probe to make, and what its outcome means.

use vstd::prelude::*;
use crate::protocol::RemoteProtocol;

verus! {

/// The check that tells whether a machine runs.
#[derive(Clone, Copy, Debug, PartialEq, Eq, Structural)]
pub enum Probe {
    /// A TCP connection to this port on the loopback address, with a short timeout.
    Tcp(u16),
    /// A look at the machine's hypervisor monitor socket.
    MonitorSocket,
}

/// What the file system says of a monitor socket path.
#[derive(Clone, Copy, Debug, PartialEq, Eq, Structural)]
pub struct MonitorStat {
    /// The file's mode bits, type included.
    pub mode: u32,
    /// Milliseconds since its last modification; none where that time is
    /// unknown or lies in the future.
    pub age_ms: Option<u64>,
}

/// The outcome of a probe.
#[derive(Clone, Copy, Debug, PartialEq, Eq, Structural)]
pub enum ProbeOutcome {
    /// Whether the TCP connection was accepted in time.
    Tcp(bool),
    /// What the monitor socket path showed; none where it could not be read.
    Monitor(Option<MonitorStat>),
}

/// The file-type bits of a mode.
pub const FILE_TYPE_MASK: u32 = 0o170000;

/// The file-type bits of a socket.
pub const SOCKET_TYPE: u32 = 0o140000;

/// A monitor socket modified less long ago than this is a live machine's.
pub const HEARTBEAT_WINDOW_MS: u64 = 10000;

/// How long a TCP probe waits for the connection.
pub const PROBE_TIMEOUT_MS: u64 = 200;

/// The probe for a machine of `protocol`: its host port for RDP and VNC; for
/// SPICE its monitor socket where the host has such sockets, else the default
/// SPICE port.
pub open spec fn probe_for(protocol: RemoteProtocol, has_monitor_socket: bool, default_spice_port: u16) -> Probe {
    match protocol {
        RemoteProtocol::Rdp(p) => Probe::Tcp(p),
        RemoteProtocol::Vnc(p) => Probe::Tcp(p),
        RemoteProtocol::Spice(_) => if has_monitor_socket {
            Probe::MonitorSocket
        } else {
            Probe::Tcp(default_spice_port)
        },
    }
}

/// A SPICE machine runs when its monitor path is a socket that was modified
/// within the heartbeat window.
pub open spec fn monitor_alive(stat: Option<MonitorStat>) -> bool {
    match stat {
        Some(st) => (st.mode & FILE_TYPE_MASK) == SOCKET_TYPE && match st.age_ms {
            Some(a) => a < HEARTBEAT_WINDOW_MS,
            None => false,
        },
        None => false,
    }
}

/// The probe that tells whether a machine of `protocol` runs.
pub fn running_probe(protocol: RemoteProtocol, has_monitor_socket: bool, default_spice_port: u16) -> (r:
    Probe)
    ensures
        r == probe_for(protocol, has_monitor_socket, default_spice_port),
{
    match protocol {
        RemoteProtocol::Rdp(p) => Probe::Tcp(p),
        RemoteProtocol::Vnc(p) => Probe::Tcp(p),
        RemoteProtocol::Spice(_) => if has_monitor_socket {
            Probe::MonitorSocket
        } else {
            Probe::Tcp(default_spice_port)
        },
    }
}

/// Does the monitor socket show a running SPICE machine?
pub fn is_spice_vm_running(stat: Option<MonitorStat>) -> (r: bool)
    ensures
        r == monitor_alive(stat),
{
    match stat {
        Some(st) => (st.mode & FILE_TYPE_MASK) == SOCKET_TYPE && match st.age_ms {
            Some(a) => a < HEARTBEAT_WINDOW_MS,
            None => false,
        },
        None => false,
    }
}

/// Does the probe's outcome show a running machine? An accepted connection,
/// or a live monitor socket; nothing else.
pub fn is_vm_running(outcome: ProbeOutcome) -> (r: bool)
    ensures
        r == match outcome {
            ProbeOutcome::Tcp(open) => open,
            ProbeOutcome::Monitor(stat) => monitor_alive(stat),
        },
{
    match outcome {
        ProbeOutcome::Tcp(open) => open,
        ProbeOutcome::Monitor(stat) => is_spice_vm_running(stat),
    }
}

} // verus!
