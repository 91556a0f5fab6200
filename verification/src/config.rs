//! Configuration: presets, the model of a configuration, the parser of the
//! small TOML-like configuration format and its validation.
use vstd::prelude::*;
use vstd::string::StringExecFns;

use crate::text::{
    is_ws, decimal, push_decimal, push_str, chars_of, find_char, is_char, lemma_scan_to, lines, pieces_are, line_bounds, parse_decimal,
    parse_unsigned, scan_to, split, split_bounds, split_once, string_of, trim, trim_bounds,
};

verus! {

pub const DEFAULT_CONFIG_DIR: &'static str = "/etc/useless";

pub const DEFAULT_CONFIG_PATH: &'static str = "/etc/useless/config.toml";

pub const INSTALL_BIN_PATH: &'static str = "/usr/local/bin/useless";

pub const SYSTEMD_UNIT_PATH: &'static str = "/etc/systemd/system/useless.service";

pub const INITD_SCRIPT_PATH: &'static str = "/etc/init.d/useless";

pub const PID_FILE_PATH: &'static str = "/run/useless.pid";

// ---------------------------------------------------------------------------
// Types
// ---------------------------------------------------------------------------

#[derive(Debug, Clone, Copy, PartialEq, Eq, Structural)]
pub enum Preset {
    Low,
    Balanced,
    Aggressive,
}

#[derive(Debug, Clone, Copy, PartialEq, Eq, Structural)]
pub struct BurstWindow {
    pub burst_secs_min: u64,
    pub burst_secs_max: u64,
    pub rest_secs_min: u64,
    pub rest_secs_max: u64,
}

#[derive(Debug, Clone, Copy, PartialEq, Eq, Structural)]
pub struct GlobalConfig {
    pub check_interval_secs: u64,
    pub interactive_grace_secs: u64,
    pub active_tty_idle_secs: u64,
    pub caution_duty_percent: u8,
    pub caution_load_percent: u8,
    pub pause_load_percent: u8,
    pub caution_mem_available_percent: u8,
    pub pause_mem_available_percent: u8,
}

#[derive(Debug, Clone, Copy, PartialEq, Eq, Structural)]
pub struct CpuConfig {
    pub enabled: bool,
    pub max_percent: u8,
    pub window: BurstWindow,
}

#[derive(Debug, Clone, Copy, PartialEq, Eq, Structural)]
pub struct MemoryConfig {
    pub enabled: bool,
    pub max_percent: u8,
    pub window: BurstWindow,
}

#[derive(Debug, Clone)]
pub struct NetworkConfig {
    pub enabled: bool,
    pub max_mbps: u32,
    pub connect_timeout_secs: u64,
    pub window: BurstWindow,
    pub targets: Vec<String>,
}

#[derive(Debug, Clone)]
pub struct Config {
    pub preset: Preset,
    pub global: GlobalConfig,
    pub cpu: CpuConfig,
    pub memory: MemoryConfig,
    pub network: NetworkConfig,
}

impl View for Preset {
    type V = Preset;

    open spec fn view(&self) -> Preset {
        *self
    }
}

impl View for BurstWindow {
    type V = BurstWindow;

    open spec fn view(&self) -> BurstWindow {
        *self
    }
}

/// The network settings, with each target as its characters.
pub struct NetworkModel {
    pub enabled: bool,
    pub max_mbps: u32,
    pub connect_timeout_secs: u64,
    pub window: BurstWindow,
    pub targets: Seq<Seq<char>>,
}

/// A configuration as a mathematical value.
pub struct ConfigModel {
    pub preset: Preset,
    pub global: GlobalConfig,
    pub cpu: CpuConfig,
    pub memory: MemoryConfig,
    pub network: NetworkModel,
}

pub open spec fn strings_view(v: Seq<String>) -> Seq<Seq<char>> {
    v.map_values(|t: String| t@)
}

impl View for NetworkConfig {
    type V = NetworkModel;

    open spec fn view(&self) -> NetworkModel {
        NetworkModel {
            enabled: self.enabled,
            max_mbps: self.max_mbps,
            connect_timeout_secs: self.connect_timeout_secs,
            window: self.window,
            targets: strings_view(self.targets@),
        }
    }
}

impl View for Config {
    type V = ConfigModel;

    open spec fn view(&self) -> ConfigModel {
        ConfigModel {
            preset: self.preset,
            global: self.global,
            cpu: self.cpu,
            memory: self.memory,
            network: self.network@,
        }
    }
}

/// The three load generators, as named in messages.
#[derive(Debug, Clone, Copy, PartialEq, Eq, Structural)]
pub enum Module {
    Cpu,
    Memory,
    Network,
}

/// Why a configuration text was refused.
#[derive(Debug, Clone)]
pub enum ConfigError {
    /// A line that is neither blank, a comment, a section header nor `key = value`.
    InvalidLine { line_number: usize, line: String },
    /// The preset name (trimmed and lower-cased) is not one of the three presets.
    UnsupportedPreset { value: String },
    /// A key that the section does not have.
    UnknownKey { line_number: usize, section: Option<String>, key: String },
    ExpectedBool { line_number: usize },
    ExpectedU8 { line_number: usize },
    ExpectedU32 { line_number: usize },
    ExpectedU64 { line_number: usize },
    ExpectedArray { line_number: usize },
    /// A burst or rest minimum of zero.
    NonPositiveMinimum { module: Module },
    /// A burst or rest minimum above its maximum.
    MinimumAboveMaximum { module: Module },
    CautionDutyOutOfRange,
    ActiveTtyIdleZero,
    CautionLoadAbovePause,
    PauseMemoryAboveCaution,
    EmptyNetworkTargets,
}

/// A refusal as a mathematical value.
pub enum ConfigErrorView {
    InvalidLine { line_number: nat, line: Seq<char> },
    UnsupportedPreset { value: Seq<char> },
    UnknownKey { line_number: nat, section: Option<Seq<char>>, key: Seq<char> },
    ExpectedBool { line_number: nat },
    ExpectedU8 { line_number: nat },
    ExpectedU32 { line_number: nat },
    ExpectedU64 { line_number: nat },
    ExpectedArray { line_number: nat },
    NonPositiveMinimum { module: Module },
    MinimumAboveMaximum { module: Module },
    CautionDutyOutOfRange,
    ActiveTtyIdleZero,
    CautionLoadAbovePause,
    PauseMemoryAboveCaution,
    EmptyNetworkTargets,
}

pub open spec fn opt_string_view(o: Option<String>) -> Option<Seq<char>> {
    match o {
        Some(s) => Some(s@),
        None => None,
    }
}

impl View for ConfigError {
    type V = ConfigErrorView;

    open spec fn view(&self) -> ConfigErrorView {
        match self {
            ConfigError::InvalidLine { line_number, line } => ConfigErrorView::InvalidLine {
                line_number: *line_number as nat,
                line: line@,
            },
            ConfigError::UnsupportedPreset { value } => ConfigErrorView::UnsupportedPreset {
                value: value@,
            },
            ConfigError::UnknownKey { line_number, section, key } => ConfigErrorView::UnknownKey {
                line_number: *line_number as nat,
                section: opt_string_view(*section),
                key: key@,
            },
            ConfigError::ExpectedBool { line_number } => ConfigErrorView::ExpectedBool {
                line_number: *line_number as nat,
            },
            ConfigError::ExpectedU8 { line_number } => ConfigErrorView::ExpectedU8 {
                line_number: *line_number as nat,
            },
            ConfigError::ExpectedU32 { line_number } => ConfigErrorView::ExpectedU32 {
                line_number: *line_number as nat,
            },
            ConfigError::ExpectedU64 { line_number } => ConfigErrorView::ExpectedU64 {
                line_number: *line_number as nat,
            },
            ConfigError::ExpectedArray { line_number } => ConfigErrorView::ExpectedArray {
                line_number: *line_number as nat,
            },
            ConfigError::NonPositiveMinimum { module } => ConfigErrorView::NonPositiveMinimum {
                module: *module,
            },
            ConfigError::MinimumAboveMaximum { module } => ConfigErrorView::MinimumAboveMaximum {
                module: *module,
            },
            ConfigError::CautionDutyOutOfRange => ConfigErrorView::CautionDutyOutOfRange,
            ConfigError::ActiveTtyIdleZero => ConfigErrorView::ActiveTtyIdleZero,
            ConfigError::CautionLoadAbovePause => ConfigErrorView::CautionLoadAbovePause,
            ConfigError::PauseMemoryAboveCaution => ConfigErrorView::PauseMemoryAboveCaution,
            ConfigError::EmptyNetworkTargets => ConfigErrorView::EmptyNetworkTargets,
        }
    }
}

/// std's `Debug` text of an optional section name, such as `Some("cpu")`
/// or `None`.
pub uninterp spec fn section_debug(section: Option<Seq<char>>) -> Seq<char>;

/// `format!("{:?}", section)`: std's `Debug` text of an optional string.
/// It depends on the value alone, so its result is named by
/// `section_debug`; the contract also says that `None` reads `None`. How
/// std escapes the characters of a name is not restated.
#[verifier::external_body]
fn debug_section(section: &Option<String>) -> (s: String)
    ensures
        s@ == section_debug(opt_string_view(*section)),
        section is None ==> s@ == "None"@,
{
    format!("{:?}", section)
}

/// The name of a load generator in messages.
pub open spec fn module_text(m: Module) -> Seq<char> {
    match m {
        Module::Cpu => "cpu"@,
        Module::Memory => "memory"@,
        Module::Network => "network"@,
    }
}

/// What a refusal says.
pub open spec fn config_error_text(e: ConfigErrorView) -> Seq<char> {
    match e {
        ConfigErrorView::InvalidLine { line_number, line } => "invalid config line "@ + decimal(
            line_number,
        ) + ": "@ + line,
        ConfigErrorView::UnsupportedPreset { value } => "unsupported preset: "@ + value,
        ConfigErrorView::UnknownKey { line_number, section, key } => "unknown config key on line "@
            + decimal(line_number) + ": section="@ + section_debug(section) + " key="@ + key,
        ConfigErrorView::ExpectedBool { line_number } => "expected boolean on line "@ + decimal(
            line_number,
        ),
        ConfigErrorView::ExpectedU8 { line_number } => "expected u8 on line "@ + decimal(line_number),
        ConfigErrorView::ExpectedU32 { line_number } => "expected u32 on line "@ + decimal(
            line_number,
        ),
        ConfigErrorView::ExpectedU64 { line_number } => "expected u64 on line "@ + decimal(
            line_number,
        ),
        ConfigErrorView::ExpectedArray { line_number } => "expected array syntax on line "@
            + decimal(line_number),
        ConfigErrorView::NonPositiveMinimum { module } => module_text(module)
            + " burst/rest minimums must be positive"@,
        ConfigErrorView::MinimumAboveMaximum { module } => module_text(module)
            + " burst/rest minimums cannot exceed maximums"@,
        ConfigErrorView::CautionDutyOutOfRange => "caution_duty_percent must be between 1 and 100"@,
        ConfigErrorView::ActiveTtyIdleZero => "active_tty_idle_secs must be positive"@,
        ConfigErrorView::CautionLoadAbovePause => "caution_load_percent cannot exceed pause_load_percent"@,
        ConfigErrorView::PauseMemoryAboveCaution =>
            "pause_mem_available_percent cannot exceed caution_mem_available_percent"@,
        ConfigErrorView::EmptyNetworkTargets =>
            "network.targets cannot be empty when network is enabled"@,
    }
}

impl Module {
    /// The generator's name in messages.
    pub fn as_str(self) -> (s: &'static str)
        ensures
            s@ == module_text(self),
    {
        match self {
            Module::Cpu => "cpu",
            Module::Memory => "memory",
            Module::Network => "network",
        }
    }
}

fn push_numbered(out: &mut String, lead: &str, n: usize)
    ensures
        final(out)@ == old(out)@ + lead@ + decimal(n as nat),
{
    push_str(out, lead);
    push_decimal(out, n as u64);
}

impl ConfigError {
    /// What the refusal says.
    pub fn message(&self) -> (s: String)
        ensures
            s@ == config_error_text(self@),
    {
        let mut out = String::new();
        match self {
            ConfigError::InvalidLine { line_number, line } => {
                push_numbered(&mut out, "invalid config line ", *line_number);
                push_str(&mut out, ": ");
                push_str(&mut out, line.as_str());
            },
            ConfigError::UnsupportedPreset { value } => {
                push_str(&mut out, "unsupported preset: ");
                push_str(&mut out, value.as_str());
            },
            ConfigError::UnknownKey { line_number, section, key } => {
                push_numbered(&mut out, "unknown config key on line ", *line_number);
                push_str(&mut out, ": section=");
                let d = debug_section(section);
                push_str(&mut out, d.as_str());
                push_str(&mut out, " key=");
                push_str(&mut out, key.as_str());
            },
            ConfigError::ExpectedBool { line_number } => {
                push_numbered(&mut out, "expected boolean on line ", *line_number);
            },
            ConfigError::ExpectedU8 { line_number } => {
                push_numbered(&mut out, "expected u8 on line ", *line_number);
            },
            ConfigError::ExpectedU32 { line_number } => {
                push_numbered(&mut out, "expected u32 on line ", *line_number);
            },
            ConfigError::ExpectedU64 { line_number } => {
                push_numbered(&mut out, "expected u64 on line ", *line_number);
            },
            ConfigError::ExpectedArray { line_number } => {
                push_numbered(&mut out, "expected array syntax on line ", *line_number);
            },
            ConfigError::NonPositiveMinimum { module } => {
                push_str(&mut out, module.as_str());
                push_str(&mut out, " burst/rest minimums must be positive");
            },
            ConfigError::MinimumAboveMaximum { module } => {
                push_str(&mut out, module.as_str());
                push_str(&mut out, " burst/rest minimums cannot exceed maximums");
            },
            ConfigError::CautionDutyOutOfRange => {
                push_str(&mut out, "caution_duty_percent must be between 1 and 100");
            },
            ConfigError::ActiveTtyIdleZero => {
                push_str(&mut out, "active_tty_idle_secs must be positive");
            },
            ConfigError::CautionLoadAbovePause => {
                push_str(&mut out, "caution_load_percent cannot exceed pause_load_percent");
            },
            ConfigError::PauseMemoryAboveCaution => {
                push_str(
                    &mut out,
                    "pause_mem_available_percent cannot exceed caution_mem_available_percent",
                );
            },
            ConfigError::EmptyNetworkTargets => {
                push_str(&mut out, "network.targets cannot be empty when network is enabled");
            },
        }
        assert(out@ =~= config_error_text(self@));
        out
    }
}

pub open spec fn result_view<T: View, E: View>(r: Result<T, E>) -> Result<T::V, E::V> {
    match r {
        Ok(t) => Ok(t@),
        Err(e) => Err(e@),
    }
}


// ---------------------------------------------------------------------------
// Presets
// ---------------------------------------------------------------------------

pub open spec fn window(burst_min: u64, burst_max: u64, rest_min: u64, rest_max: u64) -> BurstWindow {
    BurstWindow {
        burst_secs_min: burst_min,
        burst_secs_max: burst_max,
        rest_secs_min: rest_min,
        rest_secs_max: rest_max,
    }
}

/// The download targets every preset starts with.
pub open spec fn default_targets_model() -> Seq<Seq<char>> {
    seq![
        "http://mirror.nl.leaseweb.net/speedtest/10000mb.bin"@,
        "http://mirror.dal10.us.leaseweb.net/speedtest/10000mb.bin"@,
        "http://mirror.hk.leaseweb.net/speedtest/10000mb.bin"@,
        "http://mirror.de.leaseweb.net/speedtest/10000mb.bin"@,
        "http://proof.ovh.net/files/10Gio.dat"@,
    ]
}

/// The configuration that each preset stands for.
pub open spec fn preset_model(p: Preset) -> ConfigModel {
    match p {
        Preset::Low => ConfigModel {
            preset: p,
            global: GlobalConfig {
                check_interval_secs: 5,
                interactive_grace_secs: 120,
                active_tty_idle_secs: 300,
                caution_duty_percent: 35,
                caution_load_percent: 45,
                pause_load_percent: 70,
                caution_mem_available_percent: 25,
                pause_mem_available_percent: 12,
            },
            cpu: CpuConfig { enabled: true, max_percent: 8, window: window(10, 35, 45, 180) },
            memory: MemoryConfig { enabled: true, max_percent: 8, window: window(30, 90, 120, 360) },
            network: NetworkModel {
                enabled: true,
                max_mbps: 5,
                connect_timeout_secs: 3,
                window: window(15, 45, 120, 420),
                targets: default_targets_model(),
            },
        },
        Preset::Balanced => ConfigModel {
            preset: p,
            global: GlobalConfig {
                check_interval_secs: 5,
                interactive_grace_secs: 180,
                active_tty_idle_secs: 300,
                caution_duty_percent: 45,
                caution_load_percent: 55,
                pause_load_percent: 82,
                caution_mem_available_percent: 20,
                pause_mem_available_percent: 10,
            },
            cpu: CpuConfig { enabled: true, max_percent: 15, window: window(15, 50, 40, 180) },
            memory: MemoryConfig {
                enabled: true,
                max_percent: 15,
                window: window(40, 120, 90, 360),
            },
            network: NetworkModel {
                enabled: true,
                max_mbps: 10,
                connect_timeout_secs: 3,
                window: window(20, 60, 90, 360),
                targets: default_targets_model(),
            },
        },
        Preset::Aggressive => ConfigModel {
            preset: p,
            global: GlobalConfig {
                check_interval_secs: 4,
                interactive_grace_secs: 180,
                active_tty_idle_secs: 300,
                caution_duty_percent: 55,
                caution_load_percent: 60,
                pause_load_percent: 90,
                caution_mem_available_percent: 18,
                pause_mem_available_percent: 8,
            },
            cpu: CpuConfig { enabled: true, max_percent: 22, window: window(20, 70, 25, 120) },
            memory: MemoryConfig {
                enabled: true,
                max_percent: 22,
                window: window(60, 180, 60, 300),
            },
            network: NetworkModel {
                enabled: true,
                max_mbps: 20,
                connect_timeout_secs: 3,
                window: window(30, 90, 45, 240),
                targets: default_targets_model(),
            },
        },
    }
}

fn new_window(burst_min: u64, burst_max: u64, rest_min: u64, rest_max: u64) -> (w: BurstWindow)
    ensures
        w == window(burst_min, burst_max, rest_min, rest_max),
{
    BurstWindow {
        burst_secs_min: burst_min,
        burst_secs_max: burst_max,
        rest_secs_min: rest_min,
        rest_secs_max: rest_max,
    }
}

fn push_target(v: &mut Vec<String>, lit: &str)
    ensures
        strings_view(final(v)@) == strings_view(old(v)@).push(lit@),
{
    v.push(String::from_str(lit));
    assert(strings_view(v@) =~= strings_view(old(v)@).push(lit@));
}

/// A copy of a list of strings.
pub fn clone_strings(v: &Vec<String>) -> (r: Vec<String>)
    ensures
        r@ == v@,
{
    let mut r: Vec<String> = Vec::new();
    let mut i: usize = 0;
    while i < v.len()
        invariant
            i <= v@.len(),
            r@ == v@.subrange(0, i as int),
        decreases v@.len() - i,
    {
        r.push(v[i].clone());
        assert(r@ =~= v@.subrange(0, i + 1));
        i = i + 1;
    }
    assert(r@ =~= v@);
    r
}

/// The download targets every preset starts with.
fn default_targets() -> (v: Vec<String>)
    ensures
        strings_view(v@) == default_targets_model(),
{
    let mut v: Vec<String> = Vec::new();
    assert(strings_view(v@) =~= seq![]);
    push_target(&mut v, "http://mirror.nl.leaseweb.net/speedtest/10000mb.bin");
    push_target(&mut v, "http://mirror.dal10.us.leaseweb.net/speedtest/10000mb.bin");
    push_target(&mut v, "http://mirror.hk.leaseweb.net/speedtest/10000mb.bin");
    push_target(&mut v, "http://mirror.de.leaseweb.net/speedtest/10000mb.bin");
    push_target(&mut v, "http://proof.ovh.net/files/10Gio.dat");
    assert(strings_view(v@) =~= default_targets_model());
    v
}

impl Preset {
    /// The preset's name, as the configuration file and `status` write it.
    pub fn as_str(&self) -> (s: &'static str)
        ensures
            s@ == preset_name(*self),
    {
        match self {
            Preset::Low => "low",
            Preset::Balanced => "balanced",
            Preset::Aggressive => "aggressive",
        }
    }
}

pub open spec fn preset_name(p: Preset) -> Seq<char> {
    match p {
        Preset::Low => "low"@,
        Preset::Balanced => "balanced"@,
        Preset::Aggressive => "aggressive"@,
    }
}

impl Config {
    /// The configuration of a preset.
    pub fn for_preset(preset: Preset) -> (c: Config)
        ensures
            c@ == preset_model(preset),
    {
        match preset {
            Preset::Low => Config {
                preset,
                global: GlobalConfig {
                    check_interval_secs: 5,
                    interactive_grace_secs: 120,
                    active_tty_idle_secs: 300,
                    caution_duty_percent: 35,
                    caution_load_percent: 45,
                    pause_load_percent: 70,
                    caution_mem_available_percent: 25,
                    pause_mem_available_percent: 12,
                },
                cpu: CpuConfig { enabled: true, max_percent: 8, window: new_window(10, 35, 45, 180) },
                memory: MemoryConfig {
                    enabled: true,
                    max_percent: 8,
                    window: new_window(30, 90, 120, 360),
                },
                network: NetworkConfig {
                    enabled: true,
                    max_mbps: 5,
                    connect_timeout_secs: 3,
                    window: new_window(15, 45, 120, 420),
                    targets: default_targets(),
                },
            },
            Preset::Balanced => Config {
                preset,
                global: GlobalConfig {
                    check_interval_secs: 5,
                    interactive_grace_secs: 180,
                    active_tty_idle_secs: 300,
                    caution_duty_percent: 45,
                    caution_load_percent: 55,
                    pause_load_percent: 82,
                    caution_mem_available_percent: 20,
                    pause_mem_available_percent: 10,
                },
                cpu: CpuConfig {
                    enabled: true,
                    max_percent: 15,
                    window: new_window(15, 50, 40, 180),
                },
                memory: MemoryConfig {
                    enabled: true,
                    max_percent: 15,
                    window: new_window(40, 120, 90, 360),
                },
                network: NetworkConfig {
                    enabled: true,
                    max_mbps: 10,
                    connect_timeout_secs: 3,
                    window: new_window(20, 60, 90, 360),
                    targets: default_targets(),
                },
            },
            Preset::Aggressive => Config {
                preset,
                global: GlobalConfig {
                    check_interval_secs: 4,
                    interactive_grace_secs: 180,
                    active_tty_idle_secs: 300,
                    caution_duty_percent: 55,
                    caution_load_percent: 60,
                    pause_load_percent: 90,
                    caution_mem_available_percent: 18,
                    pause_mem_available_percent: 8,
                },
                cpu: CpuConfig {
                    enabled: true,
                    max_percent: 22,
                    window: new_window(20, 70, 25, 120),
                },
                memory: MemoryConfig {
                    enabled: true,
                    max_percent: 22,
                    window: new_window(60, 180, 60, 300),
                },
                network: NetworkConfig {
                    enabled: true,
                    max_mbps: 20,
                    connect_timeout_secs: 3,
                    window: new_window(30, 90, 45, 240),
                    targets: default_targets(),
                },
            },
        }
    }

    /// A copy of the configuration.
    pub fn duplicate(&self) -> (r: Config)
        ensures
            r@ == self@,
    {
        Config {
            preset: self.preset,
            global: self.global,
            cpu: self.cpu,
            memory: self.memory,
            network: NetworkConfig {
                enabled: self.network.enabled,
                max_mbps: self.network.max_mbps,
                connect_timeout_secs: self.network.connect_timeout_secs,
                window: self.network.window,
                targets: clone_strings(&self.network.targets),
            },
        }
    }
}

impl Default for Config {
    fn default() -> (c: Config)
        ensures
            c@ == preset_model(Preset::Balanced),
    {
        Config::for_preset(Preset::Balanced)
    }
}


// ---------------------------------------------------------------------------
// Preset names
// ---------------------------------------------------------------------------

pub open spec fn lower_char(c: char) -> char {
    if 'A' <= c && c <= 'Z' {
        ((c as u32) + 32) as char
    } else {
        c
    }
}

/// `str::to_ascii_lowercase`.
pub open spec fn ascii_lowercase(s: Seq<char>) -> Seq<char> {
    s.map_values(|c: char| lower_char(c))
}

/// What `Preset::parse` gives for a text.
pub open spec fn preset_from_text(s: Seq<char>) -> Result<Preset, ConfigErrorView> {
    let n = ascii_lowercase(trim(s));
    if n == "low"@ {
        Ok(Preset::Low)
    } else if n == "balanced"@ {
        Ok(Preset::Balanced)
    } else if n == "aggressive"@ {
        Ok(Preset::Aggressive)
    } else {
        Err(ConfigErrorView::UnsupportedPreset { value: n })
    }
}

fn to_lower(c: char) -> (r: char)
    ensures
        r == lower_char(c),
{
    if 'A' <= c && c <= 'Z' {
        let u = (c as u32) as u8;
        let r = (u + 32) as char;
        assert(r == ((c as u32) + 32) as char);
        r
    } else {
        c
    }
}

fn lowercase(s: &[char]) -> (r: Vec<char>)
    ensures
        r@ == ascii_lowercase(s@),
{
    let mut r: Vec<char> = Vec::new();
    let mut i: usize = 0;
    while i < s.len()
        invariant
            i <= s@.len(),
            r@ == ascii_lowercase(s@.subrange(0, i as int)),
        decreases s@.len() - i,
    {
        r.push(to_lower(s[i]));
        assert(r@ =~= ascii_lowercase(s@.subrange(0, i + 1)));
        i = i + 1;
    }
    assert(s@.subrange(0, i as int) =~= s@);
    r
}

fn preset_from_chars(s: &[char]) -> (r: Result<Preset, ConfigError>)
    ensures
        result_view(r) == preset_from_text(s@),
{
    let t = crate::text::trim_slice(s);
    let n = lowercase(t);
    let len = n.len();
    if crate::text::range_is(&n, 0, len, "low") {
        assert(n@.subrange(0, len as int) =~= n@);
        Ok(Preset::Low)
    } else if crate::text::range_is(&n, 0, len, "balanced") {
        assert(n@.subrange(0, len as int) =~= n@);
        Ok(Preset::Balanced)
    } else if crate::text::range_is(&n, 0, len, "aggressive") {
        assert(n@.subrange(0, len as int) =~= n@);
        Ok(Preset::Aggressive)
    } else {
        assert(n@.subrange(0, len as int) =~= n@);
        Err(ConfigError::UnsupportedPreset { value: string_of(&n) })
    }
}

impl Preset {
    /// Reads a preset name: surrounding whitespace and letter case do not matter.
    pub fn parse(value: &str) -> (r: Result<Preset, ConfigError>)
        ensures
            result_view(r) == preset_from_text(value@),
    {
        let s = chars_of(value);
        preset_from_chars(&s)
    }
}


// ---------------------------------------------------------------------------
// The configuration format
// ---------------------------------------------------------------------------

/// What a line of the configuration text is.
pub enum LineKind {
    /// Blank, or a comment starting with `#`.
    Skip,
    /// `[name]`: the entries below belong to section `name`.
    Section(Seq<char>),
    /// `key = value`.
    Entry(Seq<char>, Seq<char>),
    /// Anything else; carries the trimmed line.
    Invalid(Seq<char>),
}

pub open spec fn classify_line(line: Seq<char>) -> LineKind {
    let t = trim(line);
    if t.len() == 0 || t[0] == '#' {
        LineKind::Skip
    } else if t[0] == '[' && t.last() == ']' {
        LineKind::Section(trim(t.subrange(1, t.len() - 1)))
    } else {
        match split_once(t, '=') {
            Some((k, v)) => LineKind::Entry(trim(k), trim(v)),
            None => LineKind::Invalid(t),
        }
    }
}

/// A `key = value` line, with the section it stands in and its 1-based number.
pub struct EntryModel {
    pub section: Option<Seq<char>>,
    pub key: Seq<char>,
    pub value: Seq<char>,
    pub line_number: nat,
}

/// The entries of lines `i..`, after those already collected in `acc`, or
/// the first invalid line.
pub open spec fn collect_entries(
    ls: Seq<Seq<char>>,
    i: int,
    section: Option<Seq<char>>,
    acc: Seq<EntryModel>,
) -> Result<Seq<EntryModel>, ConfigErrorView>
    decreases ls.len() - i,
{
    if i < 0 || i >= ls.len() {
        Ok(acc)
    } else {
        match classify_line(ls[i]) {
            LineKind::Skip => collect_entries(ls, i + 1, section, acc),
            LineKind::Section(name) => collect_entries(ls, i + 1, Some(name), acc),
            LineKind::Entry(key, value) => collect_entries(
                ls,
                i + 1,
                section,
                acc.push(EntryModel { section, key, value, line_number: (i + 1) as nat }),
            ),
            LineKind::Invalid(t) => Err(
                ConfigErrorView::InvalidLine { line_number: (i + 1) as nat, line: t },
            ),
        }
    }
}

/// The entries of a configuration text, or its first invalid line.
pub open spec fn entries_of(text: Seq<char>) -> Result<Seq<EntryModel>, ConfigErrorView> {
    collect_entries(lines(text), 0, None, seq![])
}

/// `parse_string`: the trimmed text without one pair of surrounding quotes.
pub open spec fn unquote(s: Seq<char>) -> Seq<char> {
    let t = trim(s);
    if t.len() >= 2 && t[0] == '"' && t.last() == '"' {
        t.subrange(1, t.len() - 1)
    } else {
        t
    }
}

pub open spec fn is_preset_entry(e: EntryModel) -> bool {
    e.section is None && e.key == "preset"@
}

/// The first top-level `preset` entry from index `i` on.
pub open spec fn first_preset_entry(es: Seq<EntryModel>, i: int) -> Option<EntryModel>
    decreases es.len() - i,
{
    if i < 0 || i >= es.len() {
        None
    } else if is_preset_entry(es[i]) {
        Some(es[i])
    } else {
        first_preset_entry(es, i + 1)
    }
}

/// The preset that a list of entries starts from: the first top-level
/// `preset` entry, or the balanced preset when there is none.
pub open spec fn chosen_preset(es: Seq<EntryModel>) -> Result<Preset, ConfigErrorView> {
    match first_preset_entry(es, 0) {
        None => Ok(Preset::Balanced),
        Some(e) => preset_from_text(unquote(e.value)),
    }
}

pub open spec fn u64_of(v: Seq<char>) -> Option<nat> {
    parse_unsigned(trim(v), u64::MAX as nat)
}

pub open spec fn u32_of(v: Seq<char>) -> Option<nat> {
    parse_unsigned(trim(v), u32::MAX as nat)
}

pub open spec fn u8_of(v: Seq<char>) -> Option<nat> {
    parse_unsigned(trim(v), u8::MAX as nat)
}

pub open spec fn bool_of(v: Seq<char>) -> Option<bool> {
    let t = trim(v);
    if t == "true"@ {
        Some(true)
    } else if t == "false"@ {
        Some(false)
    } else {
        None
    }
}

/// The non-empty pieces, in order.
pub open spec fn keep_nonempty(ps: Seq<Seq<char>>) -> Seq<Seq<char>>
    decreases ps.len(),
{
    if ps.len() == 0 {
        seq![]
    } else {
        let r = keep_nonempty(ps.drop_last());
        if ps.last().len() > 0 {
            r.push(ps.last())
        } else {
            r
        }
    }
}

/// `parse_string_list`: `[` items separated by `,` `]`, each item unquoted,
/// empty items dropped.
pub open spec fn string_list_of(v: Seq<char>) -> Option<Seq<Seq<char>>> {
    let t = trim(v);
    if !(t.len() > 0 && t[0] == '[') || !(t.len() > 0 && t.last() == ']') {
        None
    } else {
        let inner = trim(t.subrange(1, t.len() - 1));
        if inner.len() == 0 {
            Some(seq![])
        } else {
            Some(keep_nonempty(split(inner, ',').map_values(|p: Seq<char>| unquote(p))))
        }
    }
}

pub open spec fn unknown_key(e: EntryModel) -> ConfigErrorView {
    ConfigErrorView::UnknownKey { line_number: e.line_number, section: e.section, key: e.key }
}

pub open spec fn is_window_key(key: Seq<char>) -> bool {
    ||| key == "burst_secs_min"@
    ||| key == "burst_secs_max"@
    ||| key == "rest_secs_min"@
    ||| key == "rest_secs_max"@
}

/// A window with one of its four fields replaced.
pub open spec fn set_window(w: BurstWindow, key: Seq<char>, x: u64) -> BurstWindow {
    if key == "burst_secs_min"@ {
        BurstWindow { burst_secs_min: x, ..w }
    } else if key == "burst_secs_max"@ {
        BurstWindow { burst_secs_max: x, ..w }
    } else if key == "rest_secs_min"@ {
        BurstWindow { rest_secs_min: x, ..w }
    } else {
        BurstWindow { rest_secs_max: x, ..w }
    }
}

/// A burst window entry of a module section.
pub open spec fn window_entry(w: BurstWindow, e: EntryModel) -> Result<BurstWindow, ConfigErrorView> {
    match u64_of(e.value) {
        Some(x) => Ok(set_window(w, e.key, x as u64)),
        None => Err(ConfigErrorView::ExpectedU64 { line_number: e.line_number }),
    }
}

/// A top-level entry.
pub open spec fn apply_global(c: ConfigModel, e: EntryModel) -> Result<ConfigModel, ConfigErrorView> {
    let g = c.global;
    let n = e.line_number;
    let k = e.key;
    if k == "preset"@ {
        Ok(c)
    } else if k == "check_interval_secs"@ || k == "interactive_grace_secs"@ || k
        == "active_tty_idle_secs"@ {
        match u64_of(e.value) {
            None => Err(ConfigErrorView::ExpectedU64 { line_number: n }),
            Some(x) => {
                let x = x as u64;
                let g2 = if k == "check_interval_secs"@ {
                    GlobalConfig { check_interval_secs: x, ..g }
                } else if k == "interactive_grace_secs"@ {
                    GlobalConfig { interactive_grace_secs: x, ..g }
                } else {
                    GlobalConfig { active_tty_idle_secs: x, ..g }
                };
                Ok(ConfigModel { global: g2, ..c })
            },
        }
    } else if k == "caution_duty_percent"@ || k == "caution_load_percent"@ || k
        == "pause_load_percent"@ || k == "caution_mem_available_percent"@ || k
        == "pause_mem_available_percent"@ {
        match u8_of(e.value) {
            None => Err(ConfigErrorView::ExpectedU8 { line_number: n }),
            Some(x) => {
                let x = x as u8;
                let g2 = if k == "caution_duty_percent"@ {
                    GlobalConfig { caution_duty_percent: x, ..g }
                } else if k == "caution_load_percent"@ {
                    GlobalConfig { caution_load_percent: x, ..g }
                } else if k == "pause_load_percent"@ {
                    GlobalConfig { pause_load_percent: x, ..g }
                } else if k == "caution_mem_available_percent"@ {
                    GlobalConfig { caution_mem_available_percent: x, ..g }
                } else {
                    GlobalConfig { pause_mem_available_percent: x, ..g }
                };
                Ok(ConfigModel { global: g2, ..c })
            },
        }
    } else {
        Err(unknown_key(e))
    }
}

/// An entry of the `[cpu]` section.
pub open spec fn apply_cpu(c: ConfigModel, e: EntryModel) -> Result<ConfigModel, ConfigErrorView> {
    let m = c.cpu;
    let n = e.line_number;
    if e.key == "enabled"@ {
        match bool_of(e.value) {
            Some(b) => Ok(ConfigModel { cpu: CpuConfig { enabled: b, ..m }, ..c }),
            None => Err(ConfigErrorView::ExpectedBool { line_number: n }),
        }
    } else if e.key == "max_percent"@ {
        match u8_of(e.value) {
            Some(x) => Ok(ConfigModel { cpu: CpuConfig { max_percent: x as u8, ..m }, ..c }),
            None => Err(ConfigErrorView::ExpectedU8 { line_number: n }),
        }
    } else if is_window_key(e.key) {
        match window_entry(m.window, e) {
            Ok(w) => Ok(ConfigModel { cpu: CpuConfig { window: w, ..m }, ..c }),
            Err(err) => Err(err),
        }
    } else {
        Err(unknown_key(e))
    }
}

/// An entry of the `[memory]` section.
pub open spec fn apply_memory(c: ConfigModel, e: EntryModel) -> Result<ConfigModel, ConfigErrorView> {
    let m = c.memory;
    let n = e.line_number;
    if e.key == "enabled"@ {
        match bool_of(e.value) {
            Some(b) => Ok(ConfigModel { memory: MemoryConfig { enabled: b, ..m }, ..c }),
            None => Err(ConfigErrorView::ExpectedBool { line_number: n }),
        }
    } else if e.key == "max_percent"@ {
        match u8_of(e.value) {
            Some(x) => Ok(ConfigModel { memory: MemoryConfig { max_percent: x as u8, ..m }, ..c }),
            None => Err(ConfigErrorView::ExpectedU8 { line_number: n }),
        }
    } else if is_window_key(e.key) {
        match window_entry(m.window, e) {
            Ok(w) => Ok(ConfigModel { memory: MemoryConfig { window: w, ..m }, ..c }),
            Err(err) => Err(err),
        }
    } else {
        Err(unknown_key(e))
    }
}

/// An entry of the `[network]` section.
pub open spec fn apply_network(c: ConfigModel, e: EntryModel) -> Result<ConfigModel, ConfigErrorView> {
    let m = c.network;
    let n = e.line_number;
    if e.key == "enabled"@ {
        match bool_of(e.value) {
            Some(b) => Ok(ConfigModel { network: NetworkModel { enabled: b, ..m }, ..c }),
            None => Err(ConfigErrorView::ExpectedBool { line_number: n }),
        }
    } else if e.key == "max_mbps"@ {
        match u32_of(e.value) {
            Some(x) => Ok(ConfigModel { network: NetworkModel { max_mbps: x as u32, ..m }, ..c }),
            None => Err(ConfigErrorView::ExpectedU32 { line_number: n }),
        }
    } else if e.key == "connect_timeout_secs"@ {
        match u64_of(e.value) {
            Some(x) => Ok(
                ConfigModel { network: NetworkModel { connect_timeout_secs: x as u64, ..m }, ..c },
            ),
            None => Err(ConfigErrorView::ExpectedU64 { line_number: n }),
        }
    } else if is_window_key(e.key) {
        match window_entry(m.window, e) {
            Ok(w) => Ok(ConfigModel { network: NetworkModel { window: w, ..m }, ..c }),
            Err(err) => Err(err),
        }
    } else if e.key == "targets"@ {
        match string_list_of(e.value) {
            Some(ts) => Ok(ConfigModel { network: NetworkModel { targets: ts, ..m }, ..c }),
            None => Err(ConfigErrorView::ExpectedArray { line_number: n }),
        }
    } else {
        Err(unknown_key(e))
    }
}

/// One entry applied to a configuration.
pub open spec fn apply_entry(c: ConfigModel, e: EntryModel) -> Result<ConfigModel, ConfigErrorView> {
    match e.section {
        None => apply_global(c, e),
        Some(sec) => if sec == "cpu"@ {
            apply_cpu(c, e)
        } else if sec == "memory"@ {
            apply_memory(c, e)
        } else if sec == "network"@ {
            apply_network(c, e)
        } else {
            Err(unknown_key(e))
        },
    }
}

/// Entries `i..` applied in order; the first refused entry stops.
pub open spec fn apply_entries(c: ConfigModel, es: Seq<EntryModel>, i: int) -> Result<
    ConfigModel,
    ConfigErrorView,
>
    decreases es.len() - i,
{
    if i < 0 || i >= es.len() {
        Ok(c)
    } else {
        match apply_entry(c, es[i]) {
            Ok(c2) => apply_entries(c2, es, i + 1),
            Err(err) => Err(err),
        }
    }
}

pub open spec fn window_error(m: Module, w: BurstWindow) -> Option<ConfigErrorView> {
    if w.burst_secs_min == 0 || w.rest_secs_min == 0 {
        Some(ConfigErrorView::NonPositiveMinimum { module: m })
    } else if w.burst_secs_min > w.burst_secs_max || w.rest_secs_min > w.rest_secs_max {
        Some(ConfigErrorView::MinimumAboveMaximum { module: m })
    } else {
        None
    }
}

/// The first rule that a configuration breaks, if any.
pub open spec fn validation_error(c: ConfigModel) -> Option<ConfigErrorView> {
    if window_error(Module::Cpu, c.cpu.window) is Some {
        window_error(Module::Cpu, c.cpu.window)
    } else if window_error(Module::Memory, c.memory.window) is Some {
        window_error(Module::Memory, c.memory.window)
    } else if window_error(Module::Network, c.network.window) is Some {
        window_error(Module::Network, c.network.window)
    } else if c.global.caution_duty_percent == 0 || c.global.caution_duty_percent > 100 {
        Some(ConfigErrorView::CautionDutyOutOfRange)
    } else if c.global.active_tty_idle_secs == 0 {
        Some(ConfigErrorView::ActiveTtyIdleZero)
    } else if c.global.caution_load_percent > c.global.pause_load_percent {
        Some(ConfigErrorView::CautionLoadAbovePause)
    } else if c.global.pause_mem_available_percent > c.global.caution_mem_available_percent {
        Some(ConfigErrorView::PauseMemoryAboveCaution)
    } else if c.network.enabled && c.network.targets.len() == 0 {
        Some(ConfigErrorView::EmptyNetworkTargets)
    } else {
        None
    }
}

/// A configuration that breaks none of the rules.
pub open spec fn is_valid_config(c: ConfigModel) -> bool {
    validation_error(c) is None
}

/// What a configuration text means: its entries applied, in order, to the
/// chosen preset, then checked.
pub open spec fn parse_config_model(text: Seq<char>) -> Result<ConfigModel, ConfigErrorView> {
    match entries_of(text) {
        Err(err) => Err(err),
        Ok(es) => match chosen_preset(es) {
            Err(err) => Err(err),
            Ok(p) => match apply_entries(preset_model(p), es, 0) {
                Err(err) => Err(err),
                Ok(c) => match validation_error(c) {
                    Some(err) => Err(err),
                    None => Ok(c),
                },
            },
        },
    }
}


// ---------------------------------------------------------------------------
// The parser
// ---------------------------------------------------------------------------

/// An entry as bounds into the configuration text.
struct ParsedEntry {
    section: Option<(usize, usize)>,
    key: (usize, usize),
    value: (usize, usize),
    line_number: usize,
}

pub open spec fn range_ok(s: Seq<char>, r: (usize, usize)) -> bool {
    r.0 <= r.1 <= s.len()
}

pub open spec fn part(s: Seq<char>, r: (usize, usize)) -> Seq<char> {
    s.subrange(r.0 as int, r.1 as int)
}

spec fn section_ok(s: Seq<char>, sec: Option<(usize, usize)>) -> bool {
    match sec {
        Some(r) => range_ok(s, r),
        None => true,
    }
}

spec fn section_view(s: Seq<char>, sec: Option<(usize, usize)>) -> Option<Seq<char>> {
    match sec {
        Some(r) => Some(part(s, r)),
        None => None,
    }
}

spec fn entry_ok(s: Seq<char>, e: ParsedEntry) -> bool {
    &&& section_ok(s, e.section)
    &&& range_ok(s, e.key)
    &&& range_ok(s, e.value)
}

spec fn entry_view(s: Seq<char>, e: ParsedEntry) -> EntryModel {
    EntryModel {
        section: section_view(s, e.section),
        key: part(s, e.key),
        value: part(s, e.value),
        line_number: e.line_number as nat,
    }
}

spec fn entries_view(s: Seq<char>, es: Seq<ParsedEntry>) -> Seq<EntryModel> {
    es.map_values(|e: ParsedEntry| entry_view(s, e))
}

/// The entries of the text, or its first invalid line.
fn collect(s: &[char]) -> (r: Result<Vec<ParsedEntry>, ConfigError>)
    ensures
        match r {
            Ok(es) => {
                &&& forall|k: int| 0 <= k < es@.len() ==> entry_ok(s@, #[trigger] es@[k])
                &&& entries_of(s@) == Ok::<Seq<EntryModel>, ConfigErrorView>(
                    entries_view(s@, es@),
                )
            },
            Err(err) => entries_of(s@) == Err::<Seq<EntryModel>, ConfigErrorView>(err@),
        },
{
    let lb = line_bounds(s);
    let ghost ls = lines(s@);
    let mut es: Vec<ParsedEntry> = Vec::new();
    let mut section: Option<(usize, usize)> = None;
    let mut i: usize = 0;
    assert(entries_view(s@, es@) =~= seq![]);
    while i < lb.len()
        invariant
            ls == lines(s@),
            pieces_are(s@, lb@, ls),
            i <= lb@.len(),
            section_ok(s@, section),
            forall|k: int| 0 <= k < es@.len() ==> entry_ok(s@, #[trigger] es@[k]),
            collect_entries(ls, 0, None, seq![]) == collect_entries(
                ls,
                i as int,
                section_view(s@, section),
                entries_view(s@, es@),
            ),
        decreases lb@.len() - i,
    {
        let (a, b) = lb[i];
        assert(lb@[i as int] == (a, b));
        let (ta, tb) = trim_bounds(s, a, b);
        let ghost line = ls[i as int];
        let ghost t = trim(line);
        assert(s@.subrange(ta as int, tb as int) == t);
        if ta == tb || s[ta] == '#' {
            proof {
                if ta != tb {
                    assert(t[0] == s@[ta as int]);
                }
            }
        } else if s[ta] == '[' && s[tb - 1] == ']' {
            assert(t[0] == s@[ta as int]);
            assert(t.last() == s@[tb - 1]);
            let (na, nb) = trim_bounds(s, ta + 1, tb - 1);
            proof {
                assert(t.subrange(1, t.len() - 1) =~= s@.subrange(ta + 1, tb - 1));
            }
            section = Some((na, nb));
        } else {
            proof {
                assert(t[0] == s@[ta as int]);
                assert(t.last() == s@[tb - 1]);
            }
            let t_slice = &s[ta..tb];
            let j = find_char(t_slice, 0, '=');
            proof {
                lemma_scan_to(t, 0, is_char('='));
            }
            if j == t_slice.len() {
                return Err(ConfigError::InvalidLine { line_number: i + 1, line: string_of(t_slice) });
            }
            let key = trim_bounds(s, ta, ta + j);
            let value = trim_bounds(s, ta + j + 1, tb);
            proof {
                assert(t.subrange(0, j as int) =~= s@.subrange(ta as int, ta + j));
                assert(t.subrange(j + 1, t.len() as int) =~= s@.subrange(ta + j + 1, tb as int));
            }
            let e = ParsedEntry { section, key, value, line_number: i + 1 };
            proof {
                assert(entries_view(s@, es@.push(e)) =~= entries_view(s@, es@).push(
                    entry_view(s@, e),
                ));
            }
            es.push(e);
        }
        i = i + 1;
    }
    Ok(es)
}


/// Index of the first top-level `preset` entry.
fn find_preset(s: &[char], es: &Vec<ParsedEntry>) -> (r: Option<usize>)
    requires
        forall|k: int| 0 <= k < es@.len() ==> entry_ok(s@, #[trigger] es@[k]),
    ensures
        match first_preset_entry(entries_view(s@, es@), 0) {
            None => r is None,
            Some(e) => r matches Some(k) && k < es@.len() && entry_view(s@, es@[k as int]) == e,
        },
{
    let ghost v = entries_view(s@, es@);
    let mut i: usize = 0;
    while i < es.len()
        invariant
            i <= es@.len(),
            v == entries_view(s@, es@),
            forall|k: int| 0 <= k < es@.len() ==> entry_ok(s@, #[trigger] es@[k]),
            first_preset_entry(v, 0) == first_preset_entry(v, i as int),
        decreases es@.len() - i,
    {
        let e = &es[i];
        assert(entry_ok(s@, es@[i as int]));
        assert(v[i as int] == entry_view(s@, *e));
        if e.section.is_none() && crate::text::range_is(s, e.key.0, e.key.1, "preset") {
            return Some(i);
        }
        i = i + 1;
    }
    None
}

/// Bounds of `unquote(s[lo..hi])` in `s`.
fn unquote_bounds(s: &[char], lo: usize, hi: usize) -> (r: (usize, usize))
    requires
        lo <= hi <= s@.len(),
    ensures
        lo <= r.0 <= r.1 <= hi,
        s@.subrange(r.0 as int, r.1 as int) == unquote(s@.subrange(lo as int, hi as int)),
{
    let (a, b) = trim_bounds(s, lo, hi);
    let ghost t = s@.subrange(a as int, b as int);
    if b - a >= 2 && s[a] == '"' && s[b - 1] == '"' {
        assert(t[0] == s@[a as int] && t.last() == s@[b - 1]);
        assert(t.subrange(1, t.len() - 1) =~= s@.subrange(a + 1, b - 1));
        (a + 1, b - 1)
    } else {
        proof {
            if t.len() >= 2 {
                assert(t[0] == s@[a as int] && t.last() == s@[b - 1]);
            }
        }
        (a, b)
    }
}

fn u64_at(s: &[char], r: (usize, usize)) -> (v: Option<u64>)
    requires
        range_ok(s@, r),
    ensures
        match u64_of(part(s@, r)) {
            Some(x) => v == Some(x as u64),
            None => v is None,
        },
{
    let (a, b) = trim_bounds(s, r.0, r.1);
    parse_decimal(s, a, b, u64::MAX)
}

fn u32_at(s: &[char], r: (usize, usize)) -> (v: Option<u32>)
    requires
        range_ok(s@, r),
    ensures
        match u32_of(part(s@, r)) {
            Some(x) => v == Some(x as u32),
            None => v is None,
        },
{
    let (a, b) = trim_bounds(s, r.0, r.1);
    match parse_decimal(s, a, b, u32::MAX as u64) {
        Some(x) => Some(x as u32),
        None => None,
    }
}

fn u8_at(s: &[char], r: (usize, usize)) -> (v: Option<u8>)
    requires
        range_ok(s@, r),
    ensures
        match u8_of(part(s@, r)) {
            Some(x) => v == Some(x as u8),
            None => v is None,
        },
{
    let (a, b) = trim_bounds(s, r.0, r.1);
    match parse_decimal(s, a, b, u8::MAX as u64) {
        Some(x) => Some(x as u8),
        None => None,
    }
}

fn bool_at(s: &[char], r: (usize, usize)) -> (v: Option<bool>)
    requires
        range_ok(s@, r),
    ensures
        v == bool_of(part(s@, r)),
{
    let (a, b) = trim_bounds(s, r.0, r.1);
    if crate::text::range_is(s, a, b, "true") {
        Some(true)
    } else if crate::text::range_is(s, a, b, "false") {
        Some(false)
    } else {
        None
    }
}

fn string_list_at(s: &[char], r: (usize, usize)) -> (v: Option<Vec<String>>)
    requires
        range_ok(s@, r),
    ensures
        match string_list_of(part(s@, r)) {
            Some(ts) => v matches Some(l) && strings_view(l@) == ts,
            None => v is None,
        },
{
    let (a, b) = trim_bounds(s, r.0, r.1);
    let ghost t = s@.subrange(a as int, b as int);
    if !(a < b && s[a] == '[') || !(a < b && s[b - 1] == ']') {
        proof {
            if t.len() > 0 {
                assert(t[0] == s@[a as int] && t.last() == s@[b - 1]);
            }
        }
        return None;
    }
    assert(t[0] == s@[a as int] && t.last() == s@[b - 1]);
    assert(t.subrange(1, t.len() - 1) =~= s@.subrange(a + 1, b - 1));
    let inner = crate::text::trim_slice(&s[a + 1..b - 1]);
    let mut out: Vec<String> = Vec::new();
    if inner.len() == 0 {
        assert(strings_view(out@) =~= seq![]);
        return Some(out);
    }
    let pieces = split_bounds(inner, ',');
    let ghost ps = split(inner@, ',');
    let ghost unq = ps.map_values(|p: Seq<char>| unquote(p));
    let mut i: usize = 0;
    assert(strings_view(out@) =~= keep_nonempty(unq.subrange(0, 0)));
    while i < pieces.len()
        invariant
            i <= pieces@.len(),
            ps == split(inner@, ','),
            unq == ps.map_values(|p: Seq<char>| unquote(p)),
            pieces_are(inner@, pieces@, ps),
            strings_view(out@) == keep_nonempty(unq.subrange(0, i as int)),
        decreases pieces@.len() - i,
    {
        let (pa, pb) = pieces[i];
        assert(pieces@[i as int] == (pa, pb));
        let (ua, ub) = unquote_bounds(inner, pa, pb);
        let ghost u = inner@.subrange(ua as int, ub as int);
        assert(u == unq[i as int]);
        assert(unq.subrange(0, i + 1).drop_last() =~= unq.subrange(0, i as int));
        if ua < ub {
            let ghost before = out@;
            let item = string_of(&inner[ua..ub]);
            out.push(item);
            assert(strings_view(out@) =~= strings_view(before).push(u));
        }
        i = i + 1;
    }
    assert(unq.subrange(0, pieces@.len() as int) =~= unq);
    Some(out)
}


fn unknown_key_error(s: &[char], e: &ParsedEntry) -> (err: ConfigError)
    requires
        entry_ok(s@, *e),
    ensures
        err@ == unknown_key(entry_view(s@, *e)),
{
    let section = match e.section {
        Some(r) => Some(string_of(&s[r.0..r.1])),
        None => None,
    };
    ConfigError::UnknownKey {
        line_number: e.line_number,
        section,
        key: string_of(&s[e.key.0..e.key.1]),
    }
}

fn window_entry_exec(w: BurstWindow, s: &[char], e: &ParsedEntry) -> (r: Result<
    BurstWindow,
    ConfigError,
>)
    requires
        entry_ok(s@, *e),
    ensures
        result_view(r) == window_entry(w, entry_view(s@, *e)),
{
    match u64_at(s, e.value) {
        None => Err(ConfigError::ExpectedU64 { line_number: e.line_number }),
        Some(x) => {
            let k = e.key;
            if crate::text::range_is(s, k.0, k.1, "burst_secs_min") {
                Ok(BurstWindow { burst_secs_min: x, ..w })
            } else if crate::text::range_is(s, k.0, k.1, "burst_secs_max") {
                Ok(BurstWindow { burst_secs_max: x, ..w })
            } else if crate::text::range_is(s, k.0, k.1, "rest_secs_min") {
                Ok(BurstWindow { rest_secs_min: x, ..w })
            } else {
                Ok(BurstWindow { rest_secs_max: x, ..w })
            }
        },
    }
}

fn is_window_key_exec(s: &[char], k: (usize, usize)) -> (b: bool)
    requires
        range_ok(s@, k),
    ensures
        b == is_window_key(part(s@, k)),
{
    crate::text::range_is(s, k.0, k.1, "burst_secs_min") || crate::text::range_is(
        s,
        k.0,
        k.1,
        "burst_secs_max",
    ) || crate::text::range_is(s, k.0, k.1, "rest_secs_min") || crate::text::range_is(
        s,
        k.0,
        k.1,
        "rest_secs_max",
    )
}

pub open spec fn applied(r: Result<(), ConfigError>, before: ConfigModel, after: ConfigModel, spec_r: Result<ConfigModel, ConfigErrorView>) -> bool {
    match r {
        Ok(_) => spec_r == Ok::<ConfigModel, ConfigErrorView>(after),
        Err(err) => spec_r == Err::<ConfigModel, ConfigErrorView>(err@),
    }
}

fn apply_global_exec(c: &mut Config, s: &[char], e: &ParsedEntry) -> (r: Result<(), ConfigError>)
    requires
        entry_ok(s@, *e),
    ensures
        applied(r, old(c)@, final(c)@, apply_global(old(c)@, entry_view(s@, *e))),
{
    let k = e.key;
    let n = e.line_number;
    if crate::text::range_is(s, k.0, k.1, "preset") {
        Ok(())
    } else if crate::text::range_is(s, k.0, k.1, "check_interval_secs") || crate::text::range_is(
        s,
        k.0,
        k.1,
        "interactive_grace_secs",
    ) || crate::text::range_is(s, k.0, k.1, "active_tty_idle_secs") {
        match u64_at(s, e.value) {
            None => Err(ConfigError::ExpectedU64 { line_number: n }),
            Some(x) => {
                if crate::text::range_is(s, k.0, k.1, "check_interval_secs") {
                    c.global.check_interval_secs = x;
                } else if crate::text::range_is(s, k.0, k.1, "interactive_grace_secs") {
                    c.global.interactive_grace_secs = x;
                } else {
                    c.global.active_tty_idle_secs = x;
                }
                Ok(())
            },
        }
    } else if crate::text::range_is(s, k.0, k.1, "caution_duty_percent") || crate::text::range_is(
        s,
        k.0,
        k.1,
        "caution_load_percent",
    ) || crate::text::range_is(s, k.0, k.1, "pause_load_percent") || crate::text::range_is(
        s,
        k.0,
        k.1,
        "caution_mem_available_percent",
    ) || crate::text::range_is(s, k.0, k.1, "pause_mem_available_percent") {
        match u8_at(s, e.value) {
            None => Err(ConfigError::ExpectedU8 { line_number: n }),
            Some(x) => {
                if crate::text::range_is(s, k.0, k.1, "caution_duty_percent") {
                    c.global.caution_duty_percent = x;
                } else if crate::text::range_is(s, k.0, k.1, "caution_load_percent") {
                    c.global.caution_load_percent = x;
                } else if crate::text::range_is(s, k.0, k.1, "pause_load_percent") {
                    c.global.pause_load_percent = x;
                } else if crate::text::range_is(s, k.0, k.1, "caution_mem_available_percent") {
                    c.global.caution_mem_available_percent = x;
                } else {
                    c.global.pause_mem_available_percent = x;
                }
                Ok(())
            },
        }
    } else {
        Err(unknown_key_error(s, e))
    }
}

fn apply_cpu_exec(c: &mut Config, s: &[char], e: &ParsedEntry) -> (r: Result<(), ConfigError>)
    requires
        entry_ok(s@, *e),
    ensures
        applied(r, old(c)@, final(c)@, apply_cpu(old(c)@, entry_view(s@, *e))),
{
    let k = e.key;
    let n = e.line_number;
    if crate::text::range_is(s, k.0, k.1, "enabled") {
        match bool_at(s, e.value) {
            Some(b) => {
                c.cpu.enabled = b;
                Ok(())
            },
            None => Err(ConfigError::ExpectedBool { line_number: n }),
        }
    } else if crate::text::range_is(s, k.0, k.1, "max_percent") {
        match u8_at(s, e.value) {
            Some(x) => {
                c.cpu.max_percent = x;
                Ok(())
            },
            None => Err(ConfigError::ExpectedU8 { line_number: n }),
        }
    } else if is_window_key_exec(s, k) {
        match window_entry_exec(c.cpu.window, s, e) {
            Ok(w) => {
                c.cpu.window = w;
                Ok(())
            },
            Err(err) => Err(err),
        }
    } else {
        Err(unknown_key_error(s, e))
    }
}

fn apply_memory_exec(c: &mut Config, s: &[char], e: &ParsedEntry) -> (r: Result<(), ConfigError>)
    requires
        entry_ok(s@, *e),
    ensures
        applied(r, old(c)@, final(c)@, apply_memory(old(c)@, entry_view(s@, *e))),
{
    let k = e.key;
    let n = e.line_number;
    if crate::text::range_is(s, k.0, k.1, "enabled") {
        match bool_at(s, e.value) {
            Some(b) => {
                c.memory.enabled = b;
                Ok(())
            },
            None => Err(ConfigError::ExpectedBool { line_number: n }),
        }
    } else if crate::text::range_is(s, k.0, k.1, "max_percent") {
        match u8_at(s, e.value) {
            Some(x) => {
                c.memory.max_percent = x;
                Ok(())
            },
            None => Err(ConfigError::ExpectedU8 { line_number: n }),
        }
    } else if is_window_key_exec(s, k) {
        match window_entry_exec(c.memory.window, s, e) {
            Ok(w) => {
                c.memory.window = w;
                Ok(())
            },
            Err(err) => Err(err),
        }
    } else {
        Err(unknown_key_error(s, e))
    }
}

fn apply_network_exec(c: &mut Config, s: &[char], e: &ParsedEntry) -> (r: Result<(), ConfigError>)
    requires
        entry_ok(s@, *e),
    ensures
        applied(r, old(c)@, final(c)@, apply_network(old(c)@, entry_view(s@, *e))),
{
    let k = e.key;
    let n = e.line_number;
    if crate::text::range_is(s, k.0, k.1, "enabled") {
        match bool_at(s, e.value) {
            Some(b) => {
                c.network.enabled = b;
                Ok(())
            },
            None => Err(ConfigError::ExpectedBool { line_number: n }),
        }
    } else if crate::text::range_is(s, k.0, k.1, "max_mbps") {
        match u32_at(s, e.value) {
            Some(x) => {
                c.network.max_mbps = x;
                Ok(())
            },
            None => Err(ConfigError::ExpectedU32 { line_number: n }),
        }
    } else if crate::text::range_is(s, k.0, k.1, "connect_timeout_secs") {
        match u64_at(s, e.value) {
            Some(x) => {
                c.network.connect_timeout_secs = x;
                Ok(())
            },
            None => Err(ConfigError::ExpectedU64 { line_number: n }),
        }
    } else if is_window_key_exec(s, k) {
        match window_entry_exec(c.network.window, s, e) {
            Ok(w) => {
                c.network.window = w;
                Ok(())
            },
            Err(err) => Err(err),
        }
    } else if crate::text::range_is(s, k.0, k.1, "targets") {
        match string_list_at(s, e.value) {
            Some(ts) => {
                c.network.targets = ts;
                Ok(())
            },
            None => Err(ConfigError::ExpectedArray { line_number: n }),
        }
    } else {
        Err(unknown_key_error(s, e))
    }
}

fn apply_entry_exec(c: &mut Config, s: &[char], e: &ParsedEntry) -> (r: Result<(), ConfigError>)
    requires
        entry_ok(s@, *e),
    ensures
        applied(r, old(c)@, final(c)@, apply_entry(old(c)@, entry_view(s@, *e))),
{
    match e.section {
        None => apply_global_exec(c, s, e),
        Some(sec) => {
            if crate::text::range_is(s, sec.0, sec.1, "cpu") {
                apply_cpu_exec(c, s, e)
            } else if crate::text::range_is(s, sec.0, sec.1, "memory") {
                apply_memory_exec(c, s, e)
            } else if crate::text::range_is(s, sec.0, sec.1, "network") {
                apply_network_exec(c, s, e)
            } else {
                Err(unknown_key_error(s, e))
            }
        },
    }
}

fn window_check(m: Module, w: &BurstWindow) -> (r: Result<(), ConfigError>)
    ensures
        match window_error(m, *w) {
            Some(err) => r matches Err(x) && x@ == err,
            None => r is Ok,
        },
{
    if w.burst_secs_min == 0 || w.rest_secs_min == 0 {
        return Err(ConfigError::NonPositiveMinimum { module: m });
    }
    if w.burst_secs_min > w.burst_secs_max || w.rest_secs_min > w.rest_secs_max {
        return Err(ConfigError::MinimumAboveMaximum { module: m });
    }
    Ok(())
}

/// Checks the rules that every configuration must keep.
pub fn validate_config(config: &Config) -> (r: Result<(), ConfigError>)
    ensures
        match validation_error(config@) {
            Some(err) => r matches Err(x) && x@ == err,
            None => r is Ok,
        },
{
    window_check(Module::Cpu, &config.cpu.window)?;
    window_check(Module::Memory, &config.memory.window)?;
    window_check(Module::Network, &config.network.window)?;
    let g = &config.global;
    if g.caution_duty_percent == 0 || g.caution_duty_percent > 100 {
        return Err(ConfigError::CautionDutyOutOfRange);
    }
    if g.active_tty_idle_secs == 0 {
        return Err(ConfigError::ActiveTtyIdleZero);
    }
    if g.caution_load_percent > g.pause_load_percent {
        return Err(ConfigError::CautionLoadAbovePause);
    }
    if g.pause_mem_available_percent > g.caution_mem_available_percent {
        return Err(ConfigError::PauseMemoryAboveCaution);
    }
    if config.network.enabled && config.network.targets.len() == 0 {
        return Err(ConfigError::EmptyNetworkTargets);
    }
    Ok(())
}

/// Reads a configuration text: the first top-level `preset` chooses the
/// starting preset (balanced when there is none), every entry then sets one
/// field, in order, and the result must pass `validate_config`.
pub fn parse_config(content: &str) -> (r: Result<Config, ConfigError>)
    ensures
        result_view(r) == parse_config_model(content@),
{
    let s = chars_of(content);
    let es = match collect(&s) {
        Ok(es) => es,
        Err(err) => return Err(err),
    };
    let ghost ev = entries_view(s@, es@);
    let preset = match find_preset(&s, &es) {
        None => Preset::Balanced,
        Some(k) => {
            let e = &es[k];
            assert(entry_ok(s@, es@[k as int]));
            let (a, b) = unquote_bounds(&s, e.value.0, e.value.1);
            match preset_from_chars(&s[a..b]) {
                Ok(p) => p,
                Err(err) => return Err(err),
            }
        },
    };
    let mut config = Config::for_preset(preset);
    let mut i: usize = 0;
    while i < es.len()
        invariant
            i <= es@.len(),
            ev == entries_view(s@, es@),
            s@ == content@,
            entries_of(s@) == Ok::<Seq<EntryModel>, ConfigErrorView>(ev),
            chosen_preset(ev) == Ok::<Preset, ConfigErrorView>(preset),
            forall|k: int| 0 <= k < es@.len() ==> entry_ok(s@, #[trigger] es@[k]),
            apply_entries(preset_model(preset), ev, 0) == apply_entries(config@, ev, i as int),
        decreases es@.len() - i,
    {
        assert(entry_ok(s@, es@[i as int]));
        assert(ev[i as int] == entry_view(s@, es@[i as int]));
        match apply_entry_exec(&mut config, &s, &es[i]) {
            Ok(()) => {},
            Err(err) => return Err(err),
        }
        i = i + 1;
    }
    match validate_config(&config) {
        Ok(()) => Ok(config),
        Err(err) => Err(err),
    }
}


// ---------------------------------------------------------------------------
// The default configuration text
// ---------------------------------------------------------------------------

/// `key = value` and a newline.
pub open spec fn setting(key: Seq<char>, v: nat) -> Seq<char> {
    key + " = "@ + decimal(v) + "\n"@
}

pub open spec fn bool_text(b: bool) -> Seq<char> {
    if b {
        "true"@
    } else {
        "false"@
    }
}

pub open spec fn flag_setting(key: Seq<char>, b: bool) -> Seq<char> {
    key + " = "@ + bool_text(b) + "\n"@
}

pub open spec fn window_text(w: BurstWindow) -> Seq<char> {
    setting("burst_secs_min"@, w.burst_secs_min as nat) + setting(
        "burst_secs_max"@,
        w.burst_secs_max as nat,
    ) + setting("rest_secs_min"@, w.rest_secs_min as nat) + setting(
        "rest_secs_max"@,
        w.rest_secs_max as nat,
    )
}

pub open spec fn global_text(g: GlobalConfig) -> Seq<char> {
    setting("check_interval_secs"@, g.check_interval_secs as nat) + setting(
        "interactive_grace_secs"@,
        g.interactive_grace_secs as nat,
    ) + setting("active_tty_idle_secs"@, g.active_tty_idle_secs as nat) + setting(
        "caution_duty_percent"@,
        g.caution_duty_percent as nat,
    ) + setting("caution_load_percent"@, g.caution_load_percent as nat) + setting(
        "pause_load_percent"@,
        g.pause_load_percent as nat,
    ) + setting("caution_mem_available_percent"@, g.caution_mem_available_percent as nat)
        + setting("pause_mem_available_percent"@, g.pause_mem_available_percent as nat)
}

/// `"t1", "t2", ...`: each target in double quotes, separated by `, `.
pub open spec fn quoted_list(ts: Seq<Seq<char>>) -> Seq<char>
    decreases ts.len(),
{
    if ts.len() == 0 {
        seq![]
    } else if ts.len() == 1 {
        "\""@ + ts[0] + "\""@
    } else {
        quoted_list(ts.drop_last()) + ", "@ + "\""@ + ts.last() + "\""@
    }
}

/// The configuration file that describes a configuration.
pub open spec fn config_text(c: ConfigModel) -> Seq<char> {
    "# useless configuration\n# Edit the values below and run `useless reload` to apply changes.\n"@
        + "preset = \""@ + preset_name(c.preset) + "\"\n"@ + global_text(c.global) + "\n[cpu]\n"@
        + flag_setting("enabled"@, c.cpu.enabled) + setting("max_percent"@, c.cpu.max_percent as nat)
        + window_text(c.cpu.window) + "\n[memory]\n"@ + flag_setting("enabled"@, c.memory.enabled)
        + setting("max_percent"@, c.memory.max_percent as nat) + window_text(c.memory.window)
        + "\n[network]\n"@ + flag_setting("enabled"@, c.network.enabled) + setting(
        "max_mbps"@,
        c.network.max_mbps as nat,
    ) + setting("connect_timeout_secs"@, c.network.connect_timeout_secs as nat) + window_text(
        c.network.window,
    ) + "targets = ["@ + quoted_list(c.network.targets) + "]\n"@
}

fn push_setting(out: &mut String, key: &str, v: u64)
    ensures
        final(out)@ == old(out)@ + setting(key@, v as nat),
{
    let ghost start = out@;
    push_str(out, key);
    push_str(out, " = ");
    push_decimal(out, v);
    push_str(out, "\n");
    assert(out@ =~= start + setting(key@, v as nat));
}

fn push_flag(out: &mut String, key: &str, b: bool)
    ensures
        final(out)@ == old(out)@ + flag_setting(key@, b),
{
    let ghost start = out@;
    push_str(out, key);
    push_str(out, " = ");
    if b {
        push_str(out, "true");
    } else {
        push_str(out, "false");
    }
    push_str(out, "\n");
    assert(out@ =~= start + flag_setting(key@, b));
}

fn push_window(out: &mut String, w: &BurstWindow)
    ensures
        final(out)@ == old(out)@ + window_text(*w),
{
    let ghost start = out@;
    push_setting(out, "burst_secs_min", w.burst_secs_min);
    push_setting(out, "burst_secs_max", w.burst_secs_max);
    push_setting(out, "rest_secs_min", w.rest_secs_min);
    push_setting(out, "rest_secs_max", w.rest_secs_max);
    assert(out@ =~= start + window_text(*w));
}

fn push_global(out: &mut String, g: &GlobalConfig)
    ensures
        final(out)@ == old(out)@ + global_text(*g),
{
    let ghost start = out@;
    push_setting(out, "check_interval_secs", g.check_interval_secs);
    push_setting(out, "interactive_grace_secs", g.interactive_grace_secs);
    push_setting(out, "active_tty_idle_secs", g.active_tty_idle_secs);
    push_setting(out, "caution_duty_percent", g.caution_duty_percent as u64);
    push_setting(out, "caution_load_percent", g.caution_load_percent as u64);
    push_setting(out, "pause_load_percent", g.pause_load_percent as u64);
    push_setting(out, "caution_mem_available_percent", g.caution_mem_available_percent as u64);
    push_setting(out, "pause_mem_available_percent", g.pause_mem_available_percent as u64);
    assert(out@ =~= start + global_text(*g));
}

fn push_quoted_list(out: &mut String, ts: &Vec<String>)
    ensures
        final(out)@ == old(out)@ + quoted_list(strings_view(ts@)),
{
    let ghost start = out@;
    let ghost v = strings_view(ts@);
    let mut i: usize = 0;
    assert(v.subrange(0, 0) =~= seq![]);
    assert(out@ =~= start + quoted_list(v.subrange(0, 0)));
    while i < ts.len()
        invariant
            i <= ts@.len(),
            v == strings_view(ts@),
            out@ == start + quoted_list(v.subrange(0, i as int)),
        decreases ts@.len() - i,
    {
        let ghost before = out@;
        assert(v.subrange(0, i + 1).drop_last() =~= v.subrange(0, i as int));
        if i > 0 {
            push_str(out, ", ");
        }
        push_str(out, "\"");
        push_str(out, ts[i].as_str());
        push_str(out, "\"");
        proof {
            if i == 0 {
                assert(out@ =~= start + quoted_list(v.subrange(0, 1)));
            } else {
                assert(out@ =~= start + quoted_list(v.subrange(0, i + 1)));
            }
        }
        i = i + 1;
    }
    assert(v.subrange(0, i as int) =~= v);
}

/// Writes a configuration in the configuration file format.
fn render_config(c: &Config) -> (s: String)
    ensures
        s@ == config_text(c@),
{
    let mut out = String::new();
    push_str(
        &mut out,
        "# useless configuration\n# Edit the values below and run `useless reload` to apply changes.\n",
    );
    push_str(&mut out, "preset = \"");
    push_str(&mut out, c.preset.as_str());
    push_str(&mut out, "\"\n");
    push_global(&mut out, &c.global);
    push_str(&mut out, "\n[cpu]\n");
    push_flag(&mut out, "enabled", c.cpu.enabled);
    push_setting(&mut out, "max_percent", c.cpu.max_percent as u64);
    push_window(&mut out, &c.cpu.window);
    push_str(&mut out, "\n[memory]\n");
    push_flag(&mut out, "enabled", c.memory.enabled);
    push_setting(&mut out, "max_percent", c.memory.max_percent as u64);
    push_window(&mut out, &c.memory.window);
    push_str(&mut out, "\n[network]\n");
    push_flag(&mut out, "enabled", c.network.enabled);
    push_setting(&mut out, "max_mbps", c.network.max_mbps as u64);
    push_setting(&mut out, "connect_timeout_secs", c.network.connect_timeout_secs);
    push_window(&mut out, &c.network.window);
    push_str(&mut out, "targets = [");
    push_quoted_list(&mut out, &c.network.targets);
    push_str(&mut out, "]\n");
    assert(out@ =~= config_text(c@));
    out
}

/// The configuration file that `install` writes when none exists: the
/// balanced preset, every setting spelled out.
pub fn default_config_text() -> (s: String)
    ensures
        s@ == config_text(preset_model(Preset::Balanced)),
{
    let c = Config::for_preset(Preset::Balanced);
    render_config(&c)
}

/// Where the configuration is read from unless `--config` says otherwise.
pub fn default_config_path() -> (s: String)
    ensures
        s@ == DEFAULT_CONFIG_PATH@,
{
    String::from_str(DEFAULT_CONFIG_PATH)
}


// ---------------------------------------------------------------------------
// Laws
// ---------------------------------------------------------------------------

/// Every preset is a valid configuration.
pub proof fn lemma_presets_are_valid(p: Preset)
    ensures
        is_valid_config(preset_model(p)),
{
    assert(default_targets_model().len() == 5);
}

/// Whatever `parse_config` accepts is a valid configuration.
pub proof fn lemma_parsed_configs_are_valid(text: Seq<char>)
    ensures
        parse_config_model(text) matches Ok(c) ==> is_valid_config(c),
{
}

/// A text without entries (blank lines, comments and section headers only)
/// gives the balanced preset.
pub proof fn lemma_no_entries_means_balanced(text: Seq<char>)
    requires
        entries_of(text) == Ok::<Seq<EntryModel>, ConfigErrorView>(seq![]),
    ensures
        parse_config_model(text) == Ok::<ConfigModel, ConfigErrorView>(
            preset_model(Preset::Balanced),
        ),
{
    lemma_presets_are_valid(Preset::Balanced);
}

/// The name of each preset reads back as that preset.
pub proof fn lemma_preset_names_read_back(p: Preset)
    ensures
        preset_from_text(preset_name(p)) == Ok::<Preset, ConfigErrorView>(p),
{
    reveal_strlit("low");
    reveal_strlit("balanced");
    reveal_strlit("aggressive");
    let n = preset_name(p);
    lemma_plain_name_trims_to_itself(n);
    assert(ascii_lowercase(n) =~= n);
}

/// A name of lower-case ASCII letters is its own trimmed, lower-cased form.
proof fn lemma_plain_name_trims_to_itself(n: Seq<char>)
    requires
        n.len() > 0,
        forall|i: int| 0 <= i < n.len() ==> 'a' <= #[trigger] n[i] && n[i] <= 'z',
    ensures
        trim(n) == n,
{
    assert(!is_ws(n[0]));
    assert(!is_ws(n[n.len() - 1]));
    crate::text::lemma_scan_to_unique(n, 0, 0, crate::text::non_ws());
    crate::text::lemma_scan_back_unique(n, n.len() as int, n.len() as int, crate::text::non_ws());
    assert(n.subrange(0, n.len() as int) =~= n);
}

proof fn lemma_later_global_entry_wins(c: ConfigModel, first: EntryModel, second: EntryModel)
    requires
        first.key == second.key,
        apply_global(c, first) is Ok,
    ensures
        apply_global(apply_global(c, first)->Ok_0, second) == apply_global(c, second),
{
    let c1 = apply_global(c, first)->Ok_0;
    assert(c1.cpu == c.cpu && c1.memory == c.memory && c1.network == c.network);
}

proof fn lemma_later_cpu_entry_wins(c: ConfigModel, first: EntryModel, second: EntryModel)
    requires
        first.key == second.key,
        apply_cpu(c, first) is Ok,
    ensures
        apply_cpu(apply_cpu(c, first)->Ok_0, second) == apply_cpu(c, second),
{
}

proof fn lemma_later_memory_entry_wins(c: ConfigModel, first: EntryModel, second: EntryModel)
    requires
        first.key == second.key,
        apply_memory(c, first) is Ok,
    ensures
        apply_memory(apply_memory(c, first)->Ok_0, second) == apply_memory(c, second),
{
}

proof fn lemma_later_network_entry_wins(c: ConfigModel, first: EntryModel, second: EntryModel)
    requires
        first.key == second.key,
        apply_network(c, first) is Ok,
    ensures
        apply_network(apply_network(c, first)->Ok_0, second) == apply_network(c, second),
{
}

/// Entries apply in order, so of two entries for the same key the later one
/// decides: after an accepted entry, a second one for the same section and
/// key gives what it would have given alone.
pub proof fn lemma_later_entry_wins(c: ConfigModel, first: EntryModel, second: EntryModel)
    requires
        first.section == second.section,
        first.key == second.key,
        apply_entry(c, first) is Ok,
    ensures
        apply_entry(apply_entry(c, first)->Ok_0, second) == apply_entry(c, second),
{
    match first.section {
        None => lemma_later_global_entry_wins(c, first, second),
        Some(sec) => if sec == "cpu"@ {
            lemma_later_cpu_entry_wins(c, first, second);
        } else if sec == "memory"@ {
            lemma_later_memory_entry_wins(c, first, second);
        } else if sec == "network"@ {
            lemma_later_network_entry_wins(c, first, second);
        },
    }
}

// ---------------------------------------------------------------------------
// Settings named by lines
// ---------------------------------------------------------------------------

/// The value of one setting.
pub enum SettingValue {
    Number(nat),
    Flag(bool),
    Targets(Seq<Seq<char>>),
}

/// A burst window key's value.
pub open spec fn window_value(w: BurstWindow, key: Seq<char>) -> Option<SettingValue> {
    if key == "burst_secs_min"@ {
        Some(SettingValue::Number(w.burst_secs_min as nat))
    } else if key == "burst_secs_max"@ {
        Some(SettingValue::Number(w.burst_secs_max as nat))
    } else if key == "rest_secs_min"@ {
        Some(SettingValue::Number(w.rest_secs_min as nat))
    } else if key == "rest_secs_max"@ {
        Some(SettingValue::Number(w.rest_secs_max as nat))
    } else {
        None
    }
}

/// The value of the setting that `key` names in `section` (`None` for the
/// top level), or `None` when the configuration format has no such setting.
pub open spec fn setting_value(c: ConfigModel, section: Option<Seq<char>>, key: Seq<char>) -> Option<
    SettingValue,
> {
    match section {
        None => if key == "check_interval_secs"@ {
            Some(SettingValue::Number(c.global.check_interval_secs as nat))
        } else if key == "interactive_grace_secs"@ {
            Some(SettingValue::Number(c.global.interactive_grace_secs as nat))
        } else if key == "active_tty_idle_secs"@ {
            Some(SettingValue::Number(c.global.active_tty_idle_secs as nat))
        } else if key == "caution_duty_percent"@ {
            Some(SettingValue::Number(c.global.caution_duty_percent as nat))
        } else if key == "caution_load_percent"@ {
            Some(SettingValue::Number(c.global.caution_load_percent as nat))
        } else if key == "pause_load_percent"@ {
            Some(SettingValue::Number(c.global.pause_load_percent as nat))
        } else if key == "caution_mem_available_percent"@ {
            Some(SettingValue::Number(c.global.caution_mem_available_percent as nat))
        } else if key == "pause_mem_available_percent"@ {
            Some(SettingValue::Number(c.global.pause_mem_available_percent as nat))
        } else {
            None
        },
        Some(sec) => if sec == "cpu"@ {
            if key == "enabled"@ {
                Some(SettingValue::Flag(c.cpu.enabled))
            } else if key == "max_percent"@ {
                Some(SettingValue::Number(c.cpu.max_percent as nat))
            } else {
                window_value(c.cpu.window, key)
            }
        } else if sec == "memory"@ {
            if key == "enabled"@ {
                Some(SettingValue::Flag(c.memory.enabled))
            } else if key == "max_percent"@ {
                Some(SettingValue::Number(c.memory.max_percent as nat))
            } else {
                window_value(c.memory.window, key)
            }
        } else if sec == "network"@ {
            if key == "enabled"@ {
                Some(SettingValue::Flag(c.network.enabled))
            } else if key == "max_mbps"@ {
                Some(SettingValue::Number(c.network.max_mbps as nat))
            } else if key == "connect_timeout_secs"@ {
                Some(SettingValue::Number(c.network.connect_timeout_secs as nat))
            } else if is_window_key(key) {
                window_value(c.network.window, key)
            } else if key == "targets"@ {
                Some(SettingValue::Targets(c.network.targets))
            } else {
                None
            }
        } else {
            None
        },
    }
}

/// Whether an entry names the setting `key` of `section`.
pub open spec fn names_setting(e: EntryModel, section: Option<Seq<char>>, key: Seq<char>) -> bool {
    e.section == section && e.key == key
}

/// An accepted entry changes no other setting, and never the preset.
proof fn lemma_entry_keeps_others(c: ConfigModel, e: EntryModel, section: Option<Seq<char>>, key: Seq<char>)
    requires
        apply_entry(c, e) is Ok,
        !names_setting(e, section, key),
    ensures
        setting_value(apply_entry(c, e)->Ok_0, section, key) == setting_value(c, section, key),
        apply_entry(c, e)->Ok_0.preset == c.preset,
{
}

/// Whether an entry is accepted, and what it sets its own setting to, do
/// not depend on the configuration it is applied to.
proof fn lemma_entry_sets(c: ConfigModel, d: ConfigModel, e: EntryModel)
    requires
        apply_entry(c, e) is Ok,
        !is_preset_entry(e),
    ensures
        apply_entry(d, e) is Ok,
        setting_value(apply_entry(c, e)->Ok_0, e.section, e.key) == setting_value(
            apply_entry(d, e)->Ok_0,
            e.section,
            e.key,
        ),
{
}

proof fn lemma_untouched_setting(
    c: ConfigModel,
    es: Seq<EntryModel>,
    i: int,
    section: Option<Seq<char>>,
    key: Seq<char>,
)
    requires
        0 <= i <= es.len(),
        apply_entries(c, es, i) is Ok,
        forall|k: int| i <= k < es.len() ==> !names_setting(#[trigger] es[k], section, key),
    ensures
        setting_value(apply_entries(c, es, i)->Ok_0, section, key) == setting_value(c, section, key),
        apply_entries(c, es, i)->Ok_0.preset == c.preset,
    decreases es.len() - i,
{
    if i < es.len() {
        lemma_entry_keeps_others(c, es[i], section, key);
        lemma_untouched_setting(apply_entry(c, es[i])->Ok_0, es, i + 1, section, key);
    }
}

proof fn lemma_last_entry_decides(
    c: ConfigModel,
    d: ConfigModel,
    es: Seq<EntryModel>,
    i: int,
    j: int,
    section: Option<Seq<char>>,
    key: Seq<char>,
)
    requires
        0 <= i <= j < es.len(),
        apply_entries(c, es, i) is Ok,
        names_setting(es[j], section, key),
        !is_preset_entry(es[j]),
        forall|k: int| j < k < es.len() ==> !names_setting(#[trigger] es[k], section, key),
    ensures
        apply_entry(d, es[j]) is Ok,
        setting_value(apply_entries(c, es, i)->Ok_0, section, key) == setting_value(
            apply_entry(d, es[j])->Ok_0,
            section,
            key,
        ),
    decreases j - i,
{
    let c2 = apply_entry(c, es[i])->Ok_0;
    if i < j {
        lemma_last_entry_decides(c2, d, es, i + 1, j, section, key);
    } else {
        lemma_untouched_setting(c2, es, j + 1, section, key);
        lemma_entry_sets(c, d, es[j]);
    }
}

/// A setting that no line of an accepted text names keeps the value of the
/// preset the text starts from, and the preset stays that preset.
pub proof fn lemma_unnamed_setting_keeps_preset(text: Seq<char>, section: Option<Seq<char>>, key: Seq<char>)
    requires
        parse_config_model(text) is Ok,
        forall|k: int|
            0 <= k < entries_of(text)->Ok_0.len() ==> !names_setting(
                #[trigger] entries_of(text)->Ok_0[k],
                section,
                key,
            ),
    ensures
        ({
            let p = chosen_preset(entries_of(text)->Ok_0)->Ok_0;
            let c = parse_config_model(text)->Ok_0;
            &&& c.preset == p
            &&& setting_value(c, section, key) == setting_value(preset_model(p), section, key)
        }),
{
    let es = entries_of(text)->Ok_0;
    let p = chosen_preset(es)->Ok_0;
    lemma_untouched_setting(preset_model(p), es, 0, section, key);
}

/// Of the lines of an accepted text that name a setting (other than
/// `preset`), the last one decides its value: the setting is what that line
/// alone gives, applied to any configuration.
pub proof fn lemma_last_line_decides(
    text: Seq<char>,
    section: Option<Seq<char>>,
    key: Seq<char>,
    j: int,
    base: ConfigModel,
)
    requires
        parse_config_model(text) is Ok,
        0 <= j < entries_of(text)->Ok_0.len(),
        names_setting(entries_of(text)->Ok_0[j], section, key),
        !is_preset_entry(entries_of(text)->Ok_0[j]),
        forall|k: int|
            j < k < entries_of(text)->Ok_0.len() ==> !names_setting(
                #[trigger] entries_of(text)->Ok_0[k],
                section,
                key,
            ),
    ensures
        apply_entry(base, entries_of(text)->Ok_0[j]) is Ok,
        setting_value(parse_config_model(text)->Ok_0, section, key) == setting_value(
            apply_entry(base, entries_of(text)->Ok_0[j])->Ok_0,
            section,
            key,
        ),
{
    let es = entries_of(text)->Ok_0;
    let p = chosen_preset(es)->Ok_0;
    lemma_last_entry_decides(preset_model(p), base, es, 0, j, section, key);
}

/// Presets escalate from low to balanced to aggressive: each lets the
/// generators take more (CPU and memory shares, network speed, caution
/// duty) and reacts to pressure later (higher load marks, lower memory
/// marks).
pub proof fn lemma_presets_escalate()
    ensures
        ({
            let l = preset_model(Preset::Low);
            let b = preset_model(Preset::Balanced);
            let a = preset_model(Preset::Aggressive);
            &&& l.cpu.max_percent < b.cpu.max_percent < a.cpu.max_percent
            &&& l.memory.max_percent < b.memory.max_percent < a.memory.max_percent
            &&& l.network.max_mbps < b.network.max_mbps < a.network.max_mbps
            &&& l.global.caution_duty_percent < b.global.caution_duty_percent
                < a.global.caution_duty_percent
            &&& l.global.caution_load_percent < b.global.caution_load_percent
                < a.global.caution_load_percent
            &&& l.global.pause_load_percent < b.global.pause_load_percent
                < a.global.pause_load_percent
            &&& l.global.caution_mem_available_percent > b.global.caution_mem_available_percent
                > a.global.caution_mem_available_percent
            &&& l.global.pause_mem_available_percent > b.global.pause_mem_available_percent
                > a.global.pause_mem_available_percent
        }),
{
}

} // verus!
