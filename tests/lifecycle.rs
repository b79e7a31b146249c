use quick_cli::config::{default_config, Platform};
use quick_cli::lifecycle::{start_failure_line, start_vm, stop_failure_line, stop_issued_line, stop_vm};
use quick_cli::liveness::{is_spice_vm_running, running_probe, MonitorStat, Probe};
use quick_cli::navigation::{initial_selection, next_spinner_frame, select_next, select_prev};
use quick_cli::protocol::RemoteProtocol;

#[test]
fn rdp_machine_starts_headless() {
    let cfg = default_config(Platform::Linux, String::new());
    let l = start_vm("port_forwards=(\"3389:3389\")", "/vms/win.conf", &cfg);
    assert_eq!(l.command.program, "quickemu");
    assert_eq!(l.command.args, vec!["--vm", "/vms/win.conf", "--display", "none"]);
    assert_eq!(l.announce, "Launching VM /vms/win.conf headless...");
}

#[test]
fn spice_machine_starts_normally() {
    let cfg = default_config(Platform::Windows, String::new());
    let l = start_vm("", "C:/vms/u.conf", &cfg);
    assert_eq!(l.command.program, "quickemu.exe");
    assert_eq!(l.command.args, vec!["--vm", "C:/vms/u.conf"]);
    assert_eq!(l.announce, "Launching VM C:/vms/u.conf normally...");
    assert_eq!(start_failure_line("C:/vms/u.conf", "not found"), "Error launching VM C:/vms/u.conf: not found");
}

#[test]
fn stop_request() {
    let l = stop_vm("/vms/u.conf", Platform::Linux);
    assert_eq!(l.command.args, vec!["--kill", "--vm", "/vms/u.conf"]);
    assert_eq!(l.announce, "Stopping VM /vms/u.conf...");
    assert_eq!(stop_issued_line("/vms/u.conf"), "Stop command issued for /vms/u.conf.");
    assert_eq!(stop_failure_line("/vms/u.conf", "denied"), "Error stopping VM /vms/u.conf: denied");
}

#[test]
fn monitor_socket_liveness() {
    let socket = 0o140755;
    assert!(is_spice_vm_running(Some(MonitorStat { mode: socket, age_ms: Some(9999) })));
    assert!(!is_spice_vm_running(Some(MonitorStat { mode: socket, age_ms: Some(10000) })));
    assert!(!is_spice_vm_running(Some(MonitorStat { mode: socket, age_ms: None })));
    assert!(!is_spice_vm_running(Some(MonitorStat { mode: 0o100644, age_ms: Some(1) })));
    assert!(!is_spice_vm_running(None));
}

#[test]
fn probe_choice() {
    assert_eq!(running_probe(RemoteProtocol::Vnc(5901), true, 5930), Probe::Tcp(5901));
    assert_eq!(running_probe(RemoteProtocol::Spice(5930), true, 5930), Probe::MonitorSocket);
    assert_eq!(running_probe(RemoteProtocol::Spice(5930), false, 5931), Probe::Tcp(5931));
}

#[test]
fn list_navigation_wraps() {
    assert_eq!(initial_selection(0), None);
    assert_eq!(initial_selection(3), Some(0));
    assert_eq!(select_next(Some(2), 3), Some(0));
    assert_eq!(select_next(Some(0), 3), Some(1));
    assert_eq!(select_next(None, 3), Some(0));
    assert_eq!(select_prev(Some(0), 3), Some(2));
    assert_eq!(select_prev(Some(2), 3), Some(1));
    assert_eq!(select_prev(None, 0), None);
    assert_eq!(next_spinner_frame(3), 0);
    assert_eq!(next_spinner_frame(1), 2);
}
