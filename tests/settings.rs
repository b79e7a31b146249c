use quick_cli::text::{chars_of, trimmed};
use quick_cli::config::{
    apply_config_text, default_config, default_config_text, get_quickemu_cmd, platform_from_name,
    platform_text, Platform,
};

#[test]
fn defaults_per_platform() {
    let c = default_config(Platform::Windows, "C:/q".to_string());
    assert_eq!(c.remote_app, "mstsc.exe");
    assert_eq!(c.default_spice_port, 5930);
    assert_eq!(default_config(Platform::MacOs, String::new()).remote_app, "open");
    assert_eq!(default_config(Platform::Linux, String::new()).remote_app, "remmina");
}

#[test]
fn settings_lines_are_applied() {
    let c = default_config(Platform::Linux, "/h/.quickemu".to_string());
    let text = "remote_app = vinagre \nquickemu_dir=/vms\r\ndefault_spice_port=6000\nos_type=macos\nunknown=1\nnoequals\n";
    let c = apply_config_text(c, text);
    assert_eq!(c.remote_app, "vinagre");
    assert_eq!(c.quickemu_dir, "/vms");
    assert_eq!(c.default_spice_port, 6000);
    assert_eq!(c.platform, Platform::MacOs);
}

#[test]
fn malformed_port_keeps_previous_value() {
    let c = default_config(Platform::Linux, String::new());
    let c = apply_config_text(c, "default_spice_port=70000\ndefault_spice_port=abc\n");
    assert_eq!(c.default_spice_port, 5930);
}

#[test]
fn overrides_are_lower_cased_and_trimmed() {
    let c = default_config(Platform::Linux, String::new());
    let c = apply_config_text(c, "override= Win11 , /p/win11.remmina \noverride=a,b,c\noverride=nocomma\n");
    assert_eq!(c.overrides.get(&"win11".to_string()), Some("/p/win11.remmina".to_string()));
    assert_eq!(c.overrides.get(&"Win11".to_string()), None);
    assert_eq!(c.overrides.get(&"a".to_string()), None);
}

#[test]
fn unknown_os_type_means_linux() {
    let c = default_config(Platform::Windows, String::new());
    assert_eq!(apply_config_text(c, "os_type=beos").platform, Platform::Linux);
    assert_eq!(platform_from_name("windows"), Platform::Windows);
    assert_eq!(platform_from_name("Windows"), Platform::Linux);
    assert_eq!(platform_text(Platform::MacOs), "macos");
}

#[test]
fn default_settings_text() {
    let c = default_config(Platform::Linux, "/home/u/.quickemu".to_string());
    assert_eq!(
        default_config_text(&c),
        "remote_app=remmina\nquickemu_dir=/home/u/.quickemu\ndefault_spice_port=5930\nos_type=linux\n"
    );
}

#[test]
fn launcher_name_per_platform() {
    assert_eq!(get_quickemu_cmd(Platform::Windows), "quickemu.exe");
    assert_eq!(get_quickemu_cmd(Platform::Linux), "quickemu");
    assert_eq!(get_quickemu_cmd(Platform::MacOs), "quickemu");
}

#[test]
fn white_space_is_trimmed_as_std_trims() {
    let cases = [" a ", "\u{3000}x\u{a0}", "\t\r\n", "", "a b", "\u{2009}p\u{85}", "\u{200b}z"];
    for c in cases.iter() {
        let expected: Vec<char> = c.trim().chars().collect();
        assert_eq!(trimmed(&chars_of(c)), expected, "input {:?}", c);
    }
    let cfg = apply_config_text(default_config(Platform::Linux, String::new()), "remote_app=\u{3000}vinagre\u{a0}");
    assert_eq!(cfg.remote_app, "vinagre");
}
