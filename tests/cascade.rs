use quick_cli::cascade::{connect_vm, force_spice_connect, Attempt, Cascade};
use quick_cli::config::{default_config, Config, Platform};
use quick_cli::profile::ProfileEntry;

fn config(platform: Platform) -> Config {
    default_config(platform, "/home/u/.quickemu".to_string())
}

fn programs(c: &mut Cascade, outcomes: &[bool]) -> (Vec<String>, Vec<String>) {
    let mut tried = Vec::new();
    let mut log = Vec::new();
    let mut k = 0;
    while let Some(a) = c.next_attempt() {
        tried.push(a.program.clone());
        let spawned = outcomes[k];
        k += 1;
        log.push(c.record(spawned));
    }
    (tried, log)
}

fn first(c: &Cascade) -> (String, Vec<String>, bool) {
    let a: &Attempt = c.next_attempt().unwrap();
    (a.program.clone(), a.args.clone(), a.set_display)
}

#[test]
fn linux_spice_all_failing_logs_three_failures() {
    let cfg = config(Platform::Linux);
    let mut c = connect_vm("guest_os=\"linux\"\n", "ubuntu", &cfg, &Vec::new());
    let (tried, log) = programs(&mut c, &[false, false, false]);
    assert_eq!(tried, vec!["remmina", "spicy", "remote-viewer"]);
    assert_eq!(
        log,
        vec!["Could not launch remmina", "Could not launch spicy", "Could not launch remote-viewer"]
    );
    assert!(c.is_finished());
    assert!(!c.succeeded());
}

#[test]
fn linux_spice_arguments() {
    let cfg = config(Platform::Linux);
    let mut c = connect_vm("", "ubuntu", &cfg, &Vec::new());
    assert_eq!(
        first(&c),
        ("remmina".to_string(), vec!["--quiet".to_string(), "-p".to_string(), "spice".to_string(), "spice://127.0.0.1:5930".to_string()], true)
    );
    c.record(false);
    assert_eq!(
        first(&c),
        (
            "spicy".to_string(),
            vec!["--title", "ubuntu", "-h", "127.0.0.1", "-p", "5930"].into_iter().map(String::from).collect(),
            true
        )
    );
}

#[test]
fn linux_rdp_first_success_stops_cascade() {
    let cfg = config(Platform::Linux);
    let mut c = connect_vm("port_forwards=(\"3390:3389\")", "win", &cfg, &Vec::new());
    assert_eq!(
        first(&c),
        ("remmina".to_string(), vec!["--quiet".to_string(), "-p".to_string(), "rdp".to_string(), "rdp://127.0.0.1:3390".to_string()], true)
    );
    let line = c.record(true);
    assert_eq!(line, "Launched remmina");
    assert!(c.next_attempt().is_none());
    assert!(c.is_finished());
    assert!(c.succeeded());
}

#[test]
fn linux_rdp_falls_back_to_freerdp_then_spice() {
    let cfg = config(Platform::Linux);
    let mut c = connect_vm("port_forwards=(\"3390:3389\")", "win", &cfg, &Vec::new());
    c.record(false);
    assert_eq!(
        first(&c),
        (
            "xfreerdp".to_string(),
            vec!["/v:127.0.0.1:3390", "/f", "/dynamic-resolution"].into_iter().map(String::from).collect(),
            true
        )
    );
    let (tried, _) = programs(&mut c, &[false, false, true]);
    assert_eq!(tried, vec!["xfreerdp", "remmina", "spicy"]);
    assert!(c.succeeded());
}

#[test]
fn windows_vnc_tries_two_viewers_then_spice() {
    let cfg = config(Platform::Windows);
    let mut c = connect_vm("port_forwards=(\"5901:5900\")", "w", &cfg, &Vec::new());
    assert_eq!(first(&c), ("tvnviewer".to_string(), vec!["127.0.0.1:5901".to_string()], false));
    let (tried, log) = programs(&mut c, &[false, false, false]);
    assert_eq!(tried, vec!["tvnviewer", "vncviewer", "virt-viewer"]);
    assert_eq!(log.len(), 3);
    assert!(!c.succeeded());
}

#[test]
fn macos_rdp_opens_url_then_spice_url() {
    let cfg = config(Platform::MacOs);
    let mut c = connect_vm("port_forwards=(\"3389:3389\")", "m", &cfg, &Vec::new());
    assert_eq!(first(&c), ("open".to_string(), vec!["rdp://127.0.0.1:3389".to_string()], false));
    c.record(false);
    assert_eq!(first(&c), ("open".to_string(), vec!["spice://127.0.0.1:5930".to_string()], false));
}

#[test]
fn windows_rdp_uses_native_client() {
    let cfg = config(Platform::Windows);
    let c = connect_vm("port_forwards=(\"13389:3389\")", "w", &cfg, &Vec::new());
    assert_eq!(first(&c), ("mstsc.exe".to_string(), vec!["/v:127.0.0.1:13389".to_string()], false));
}

#[test]
fn resolved_profile_is_tried_first() {
    let cfg = config(Platform::Linux);
    let profiles = vec![ProfileEntry { path: "/r/Ubuntu.remmina".to_string(), stem: "Ubuntu".to_string() }];
    let mut c = connect_vm("port_forwards=(\"5901:5900\")", "ubuntu", &cfg, &profiles);
    assert_eq!(
        first(&c),
        ("remmina".to_string(), vec!["-c".to_string(), "/r/Ubuntu.remmina".to_string()], true)
    );
    let (tried, log) = programs(&mut c, &[true]);
    assert_eq!(tried, vec!["remmina"]);
    assert_eq!(log, vec!["Launched remmina"]);
}

#[test]
fn force_spice_ignores_declared_protocol() {
    let cfg = config(Platform::Windows);
    let profiles = vec![ProfileEntry { path: "/r/w.remmina".to_string(), stem: "w".to_string() }];
    let mut c = force_spice_connect("w", &cfg, &profiles);
    let (tried, _) = programs(&mut c, &[false, false]);
    assert_eq!(tried, vec!["mstsc.exe", "virt-viewer"]);
    let linux = config(Platform::Linux);
    let mut c = force_spice_connect("w", &linux, &profiles);
    let (tried, _) = programs(&mut c, &[false, false, false]);
    assert_eq!(tried, vec!["remmina", "spicy", "remote-viewer"]);
}

#[test]
fn empty_cascade_is_finished_at_once() {
    let c = Cascade::new(Vec::new());
    assert!(c.next_attempt().is_none());
    assert!(c.is_finished());
    assert!(!c.succeeded());
}
