use quick_cli::liveness::{is_vm_running, running_probe, Probe, ProbeOutcome};
use quick_cli::protocol::{line_protocol_of, mapping_of, parse_vm_config, RemoteProtocol};
use quick_cli::text::{chars_of, parse_u16};

#[test]
fn rdp_mapping_is_found_after_other_mappings() {
    let text = "guest_os=\"windows\"\nport_forwards=(\"2222:22\" \"3389:3389\")\n";
    assert_eq!(parse_vm_config(text, 5930), RemoteProtocol::Rdp(3389));
}

#[test]
fn rdp_probe_on_closed_port_reports_not_running() {
    let text = "port_forwards=(\"2222:22\" \"3389:3389\")";
    let protocol = parse_vm_config(text, 5930);
    assert_eq!(protocol, RemoteProtocol::Rdp(3389));
    let probe = running_probe(protocol, true, 5930);
    assert_eq!(probe, Probe::Tcp(3389));
    assert!(!is_vm_running(ProbeOutcome::Tcp(false)));
    assert!(is_vm_running(ProbeOutcome::Tcp(true)));
}

#[test]
fn vnc_mapping_uses_host_port() {
    let text = "port_forwards=(\"5901:5900\")";
    assert_eq!(parse_vm_config(text, 5930), RemoteProtocol::Vnc(5901));
}

#[test]
fn first_recognised_mapping_wins() {
    let text = "port_forwards=(\"6000:5900\" \"4000:3389\")";
    assert_eq!(parse_vm_config(text, 5930), RemoteProtocol::Vnc(6000));
}

#[test]
fn no_declaration_means_spice_default() {
    assert_eq!(parse_vm_config("guest_os=\"linux\"\ndisk_size=\"64G\"\n", 5930), RemoteProtocol::Spice(5930));
    assert_eq!(parse_vm_config("", 6000), RemoteProtocol::Spice(6000));
}

#[test]
fn unrecognised_guest_ports_mean_spice_default() {
    let text = "port_forwards=(\"2222:22\" \"8080:80\")";
    assert_eq!(parse_vm_config(text, 5930), RemoteProtocol::Spice(5930));
}

#[test]
fn malformed_declarations_degrade_to_spice() {
    assert_eq!(parse_vm_config("port_forwards=)(\"1:3389\"", 5930), RemoteProtocol::Spice(5930));
    assert_eq!(parse_vm_config("port_forwards=(\"1:3389\"", 5930), RemoteProtocol::Spice(5930));
    assert_eq!(parse_vm_config("port_forwards=(\"1:2:3389\")", 5930), RemoteProtocol::Spice(5930));
    assert_eq!(parse_vm_config("port_forwards=(\"70000:3389\")", 5930), RemoteProtocol::Spice(5930));
    assert_eq!(parse_vm_config("port_forwards=(\"x:3389\" \"12:5900\")", 5930), RemoteProtocol::Vnc(12));
    assert_eq!(parse_vm_config("port_forwards=(\" 1:3389\")", 5930), RemoteProtocol::Spice(5930));
}

#[test]
fn only_the_first_declaration_line_counts() {
    let text = "port_forwards=()\nport_forwards=(\"4000:3389\")\n";
    assert_eq!(parse_vm_config(text, 5930), RemoteProtocol::Spice(5930));
}

#[test]
fn declaration_with_crlf_line_ending() {
    let text = "port_forwards=(\"3390:3389\")\r\nother=1\r\n";
    assert_eq!(parse_vm_config(text, 5930), RemoteProtocol::Rdp(3390));
}

#[test]
fn plus_sign_and_leading_zeros_are_read_as_numbers() {
    assert_eq!(parse_vm_config("port_forwards=(\"+0022:03389\")", 5930), RemoteProtocol::Rdp(22));
}

#[test]
fn u16_parsing_follows_std() {
    let cases = ["0", "65535", "65536", "+7", "+", "-1", "", "12a", "007", "99999999999"];
    for c in cases.iter() {
        assert_eq!(parse_u16(&chars_of(c)), c.parse::<u16>().ok(), "input {:?}", c);
    }
}

#[test]
fn mapping_and_line_helpers() {
    assert_eq!(mapping_of(&chars_of("10:3389")), Some(RemoteProtocol::Rdp(10)));
    assert_eq!(mapping_of(&chars_of("10:22")), None);
    assert_eq!(line_protocol_of(&chars_of("x=(\"7:5900\")")), Some(RemoteProtocol::Vnc(7)));
    assert_eq!(line_protocol_of(&chars_of("x=\"7:5900\"")), None);
}
