//! The settings that the connection logic reads, and the host platform.

use vstd::prelude::*;
use crate::profile::OverrideMap;
use crate::text::{
    chars_of, find_first, find_first_char, lower_of, lowercase, parse_u16, parse_u16_spec,
    same_chars, slice_chars, split, split_chars, string_of, text, trim, trimmed, views,
};

verus! {

/// The operating system family that decides which viewers exist.
#[derive(Clone, Copy, Debug, PartialEq, Eq, Structural)]
pub enum Platform {
    Windows,
    MacOs,
    Linux,
}

/// The settings of the tool.
pub struct Config {
    /// The generic remote-access client.
    pub remote_app: String,
    /// The directory that holds the machine definitions.
    pub quickemu_dir: String,
    /// The SPICE port of machines that declare no other channel.
    pub default_spice_port: u16,
    /// The platform whose viewers are tried.
    pub platform: Platform,
    /// Explicit profile choices, by lower-cased machine name.
    pub overrides: OverrideMap,
}

/// The name of the hypervisor launcher on `platform`.
pub open spec fn quickemu_program(platform: Platform) -> Seq<char> {
    if platform == Platform::Windows {
        "quickemu.exe"@
    } else {
        "quickemu"@
    }
}

/// The name of the hypervisor launcher on `platform`.
pub fn get_quickemu_cmd(platform: Platform) -> (r: String)
    ensures
        r@ == quickemu_program(platform),
{
    if platform == Platform::Windows {
        text("quickemu.exe")
    } else {
        text("quickemu")
    }
}

/// The model of the settings.
pub struct ConfigSpec {
    pub remote_app: Seq<char>,
    pub quickemu_dir: Seq<char>,
    pub default_spice_port: u16,
    pub platform: Platform,
    pub overrides: Map<Seq<char>, Seq<char>>,
}

impl View for Config {
    type V = ConfigSpec;

    open spec fn view(&self) -> ConfigSpec {
        ConfigSpec {
            remote_app: self.remote_app@,
            quickemu_dir: self.quickemu_dir@,
            default_spice_port: self.default_spice_port,
            platform: self.platform,
            overrides: self.overrides@,
        }
    }
}

/// The SPICE port that the settings start from.
pub const DEFAULT_SPICE_PORT: u16 = 5930;

/// The platform a settings value names: `windows`, `macos`, and Linux for
/// anything else.
pub open spec fn platform_named(name: Seq<char>) -> Platform {
    if name == "windows"@ {
        Platform::Windows
    } else if name == "macos"@ {
        Platform::MacOs
    } else {
        Platform::Linux
    }
}

/// The settings value that names `platform`.
pub open spec fn platform_name(platform: Platform) -> Seq<char> {
    match platform {
        Platform::Windows => "windows"@,
        Platform::MacOs => "macos"@,
        Platform::Linux => "linux"@,
    }
}

/// The generic remote-access client of `platform`, unless the settings name another.
pub open spec fn default_remote_app(platform: Platform) -> Seq<char> {
    match platform {
        Platform::Windows => "mstsc.exe"@,
        Platform::MacOs => "open"@,
        Platform::Linux => "remmina"@,
    }
}

/// What one `key=value` line of the settings file does: the key and the
/// value are read without surrounding white space; unknown keys, lines
/// without `=`, ports that do not read as a number and overrides without
/// exactly one comma change nothing. An override's machine name is lower-cased.
pub open spec fn apply_line(c: ConfigSpec, line: Seq<char>) -> ConfigSpec {
    match find_first(line, '=') {
        None => c,
        Some(i) => {
            let key = trim(line.take(i));
            let value = line.subrange(i + 1, line.len() as int);
            if key == "remote_app"@ {
                ConfigSpec { remote_app: trim(value), ..c }
            } else if key == "quickemu_dir"@ {
                ConfigSpec { quickemu_dir: trim(value), ..c }
            } else if key == "default_spice_port"@ {
                match parse_u16_spec(trim(value)) {
                    Some(p) => ConfigSpec { default_spice_port: p, ..c },
                    None => c,
                }
            } else if key == "os_type"@ {
                ConfigSpec { platform: platform_named(trim(value)), ..c }
            } else if key == "override"@ {
                let parts = split(value, ',');
                if parts.len() == 2 {
                    ConfigSpec {
                        overrides: c.overrides.insert(lower_of(trim(parts[0])), trim(parts[1])),
                        ..c
                    }
                } else {
                    c
                }
            } else {
                c
            }
        },
    }
}

/// The settings after the lines `lines`, in order.
pub open spec fn apply_lines(c: ConfigSpec, lines: Seq<Seq<char>>) -> ConfigSpec
    decreases lines.len(),
{
    if lines.len() == 0 {
        c
    } else {
        apply_lines(apply_line(c, lines[0]), lines.drop_first())
    }
}

/// The platform a settings value names.
pub fn platform_from_name(name: &str) -> (r: Platform)
    ensures
        r == platform_named(name@),
{
    platform_from_chars(&chars_of(name))
}

fn platform_from_chars(name: &Vec<char>) -> (r: Platform)
    ensures
        r == platform_named(name@),
{
    if same_chars(name, &chars_of("windows")) {
        Platform::Windows
    } else if same_chars(name, &chars_of("macos")) {
        Platform::MacOs
    } else {
        Platform::Linux
    }
}

/// The settings value that names `platform`.
pub fn platform_text(platform: Platform) -> (r: String)
    ensures
        r@ == platform_name(platform),
{
    match platform {
        Platform::Windows => text("windows"),
        Platform::MacOs => text("macos"),
        Platform::Linux => text("linux"),
    }
}

/// The settings of `platform` before any settings file is read, with the
/// machine definitions in `quickemu_dir`.
pub fn default_config(platform: Platform, quickemu_dir: String) -> (r: Config)
    ensures
        r@ == (ConfigSpec {
            remote_app: default_remote_app(platform),
            quickemu_dir: quickemu_dir@,
            default_spice_port: DEFAULT_SPICE_PORT,
            platform,
            overrides: Map::empty(),
        }),
{
    let remote_app = match platform {
        Platform::Windows => text("mstsc.exe"),
        Platform::MacOs => text("open"),
        Platform::Linux => text("remmina"),
    };
    Config {
        remote_app,
        quickemu_dir,
        default_spice_port: DEFAULT_SPICE_PORT,
        platform,
        overrides: OverrideMap::new(),
    }
}

/// Applies one settings line to `cfg`.
fn apply_config_line(cfg: &mut Config, line: &Vec<char>)
    ensures
        final(cfg)@ == apply_line(old(cfg)@, line@),
{
    let i = match find_first_char(line, '=') {
        Some(i) => i,
        None => {
            return ;
        },
    };
    let key = trimmed(&slice_chars(line, 0, i));
    let value = slice_chars(line, i + 1, line.len());
    assert(line@.take(i as int) =~= line@.subrange(0, i as int));
    if same_chars(&key, &chars_of("remote_app")) {
        cfg.remote_app = string_of(&trimmed(&value));
    } else if same_chars(&key, &chars_of("quickemu_dir")) {
        cfg.quickemu_dir = string_of(&trimmed(&value));
    } else if same_chars(&key, &chars_of("default_spice_port")) {
        if let Some(p) = parse_u16(&trimmed(&value)) {
            cfg.default_spice_port = p;
        }
    } else if same_chars(&key, &chars_of("os_type")) {
        cfg.platform = platform_from_chars(&trimmed(&value));
    } else if same_chars(&key, &chars_of("override")) {
        let parts = split_chars(&value, ',');
        assert(views(parts@).len() == parts@.len());
        if parts.len() == 2 {
            assert(views(parts@)[0] == parts@[0]@);
            assert(views(parts@)[1] == parts@[1]@);
            let name = string_of(&trimmed(&parts[0]));
            let key = lowercase(name.as_str());
            let path = string_of(&trimmed(&parts[1]));
            cfg.overrides.insert(key, path);
        }
    }
}

/// The settings that the settings file text `contents` makes of `cfg`, one
/// line after the other.
pub fn apply_config_text(cfg: Config, contents: &str) -> (r: Config)
    ensures
        r@ == apply_lines(cfg@, split(contents@, '\n')),
{
    let mut cfg = cfg;
    let lines = split_chars(&chars_of(contents), '\n');
    let ghost all = views(lines@);
    let ghost first = cfg@;
    let mut i: usize = 0;
    assert(all.subrange(0, all.len() as int) =~= all);
    while i < lines.len()
        invariant
            all == views(lines@),
            all == split(contents@, '\n'),
            i <= lines.len(),
            all.len() == lines.len(),
            apply_lines(first, all) == apply_lines(cfg@, all.subrange(i as int, all.len() as int)),
        decreases lines.len() - i,
    {
        let ghost rest = all.subrange(i as int, all.len() as int);
        assert(rest[0] == lines@[i as int]@);
        assert(rest.drop_first() =~= all.subrange(i + 1, all.len() as int));
        apply_config_line(&mut cfg, &lines[i]);
        i += 1;
    }
    assert(all.subrange(i as int, all.len() as int) =~= Seq::<Seq<char>>::empty());
    cfg
}

/// The text of a settings file that holds `cfg`'s client, directory and
/// platform, with the default SPICE port.
pub fn default_config_text(cfg: &Config) -> (r: String)
    ensures
        r@ == "remote_app="@ + cfg.remote_app@ + "\nquickemu_dir="@ + cfg.quickemu_dir@
            + "\ndefault_spice_port=5930\nos_type="@ + platform_name(cfg.platform) + "\n"@,
{
    let mut out = text("remote_app=");
    out.append(cfg.remote_app.as_str());
    out.append("\nquickemu_dir=");
    out.append(cfg.quickemu_dir.as_str());
    out.append("\ndefault_spice_port=5930\nos_type=");
    let name = platform_text(cfg.platform);
    out.append(name.as_str());
    out.append("\n");
    out
}

} // verus!
