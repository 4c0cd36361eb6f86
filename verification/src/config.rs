//! Configuration of the miner.
//!
//! Paths are text, and quantities are integers: temperatures in millionths of a
//! degree Celsius, voltages in microvolts, powers in milliwatts, gains and
//! limits of a controller in thousandths.

use crate::text::{chars_of, push_text};
use vstd::prelude::*;

verus! {

/// The whole configuration.
#[derive(Clone, Debug)]
pub struct Config {
    pub daemon: DaemonConfig,
    pub pools: Vec<PoolConfig>,
    pub hardware: HardwareConfig,
    pub api: ApiConfig,
}

/// The daemon process.
#[derive(Clone, Debug)]
pub struct DaemonConfig {
    pub pid_file: Option<String>,
    pub log_level: String,
    /// Whether to notify systemd.
    pub systemd: bool,
}

impl Default for DaemonConfig {
    fn default() -> (r: Self)
        ensures
            r.pid_file is None,
            r.log_level@ == "info"@,
            !r.systemd,
    {
        DaemonConfig { pid_file: None, log_level: "info".to_string(), systemd: false }
    }
}

/// A pool connection.
#[derive(Clone, Debug)]
pub struct PoolConfig {
    pub url: String,
    pub worker: String,
    pub password: Option<String>,
    /// Lower comes first.
    pub priority: u32,
}

/// The hardware.
#[derive(Clone, Debug)]
pub struct HardwareConfig {
    pub temp_limit_microc: i32,
    pub fan_min_rpm: u32,
    pub fan_max_rpm: u32,
    pub power_limit_milliwatts: Option<u32>,
    pub amlogic_control_board: Option<AmlogicControlBoardConfig>,
}

impl Default for HardwareConfig {
    fn default() -> (r: Self)
        ensures
            r.temp_limit_microc == 85_000_000,
            r.fan_min_rpm == 0,
            r.fan_max_rpm == 10_000,
            r.power_limit_milliwatts is None,
            r.amlogic_control_board is None,
    {
        HardwareConfig {
            temp_limit_microc: 85_000_000,
            fan_min_rpm: 0,
            fan_max_rpm: 10_000,
            power_limit_milliwatts: None,
            amlogic_control_board: None,
        }
    }
}

/// An Antminer Amlogic control board.
#[derive(Clone, Debug)]
pub struct AmlogicControlBoardConfig {
    pub enabled: bool,
    /// Name shown by the API in place of the default.
    pub board_name: Option<String>,
    pub psu: AmlogicPsuConfig,
    pub startup: AmlogicStartupConfig,
    pub fans: Vec<AmlogicFanConfig>,
    pub leds: Option<AmlogicLedConfig>,
    pub hashboards: Vec<AmlogicHashboardConfig>,
    pub gt_touch_display: Option<GtTouchDisplayConfig>,
}

/// A GT Touch display.
#[derive(Clone, Debug)]
pub struct GtTouchDisplayConfig {
    pub enabled: bool,
    /// Device path; found automatically if there is none.
    pub serial_path: Option<String>,
    pub baud_rate: u32,
    pub update_interval_ms: u64,
    pub reconnect_delay_ms: u64,
}

impl Default for GtTouchDisplayConfig {
    fn default() -> (r: Self)
        ensures
            !r.enabled,
            r.serial_path is None,
            r.baud_rate == 115_200,
            r.update_interval_ms == 2_000,
            r.reconnect_delay_ms == 2_000,
    {
        GtTouchDisplayConfig {
            enabled: false,
            serial_path: None,
            baud_rate: 115_200,
            update_interval_ms: 2_000,
            reconnect_delay_ms: 2_000,
        }
    }
}

/// The power supply of the control board.
#[derive(Clone, Debug)]
pub struct AmlogicPsuConfig {
    pub i2c_device: String,
    pub address: u16,
    pub write_register: u8,
    /// Active low.
    pub enable_gpio: u32,
}

/// Startup timings and defaults.
#[derive(Clone, Debug)]
pub struct AmlogicStartupConfig {
    pub default_fan_percent: u8,
    pub fan_control: AmlogicFanControlConfig,
    /// Low voltage for the first enumeration.
    pub initial_microvolts: u32,
    pub psu_settle_ms: u64,
    pub reset_assert_ms: u64,
    pub reset_release_ms: u64,
    pub health_gate: AmlogicHealthGateConfig,
}

/// The fan controller.
#[derive(Clone, Copy, Debug, PartialEq, Eq, Structural)]
pub struct AmlogicFanControlConfig {
    pub enabled: bool,
    pub target_microc: i32,
    pub min_percent: u8,
    pub max_percent: u8,
    /// Percent per degree, in thousandths.
    pub kp_milli: i32,
    /// Percent per degree-second, in thousandths.
    pub ki_milli: i32,
    /// Percent per degree and second, in thousandths.
    pub kd_milli: i32,
    /// Degree-seconds, in thousandths.
    pub integral_limit_milli: u32,
}

/// What is checked before mining starts.
#[derive(Clone, Copy, Debug, PartialEq, Eq, Structural)]
pub struct AmlogicHealthGateConfig {
    pub read_eeprom_before_mining: bool,
    pub read_temperatures_before_mining: bool,
    pub fail_on_missing_expected_hashboard: bool,
}

/// A fan.
#[derive(Clone, Copy, Debug, PartialEq, Eq, Structural)]
pub struct AmlogicFanConfig {
    pub index: u8,
    pub pwm_chip: u32,
    pub pwm_channel: u32,
    pub tach_gpio: u32,
    pub pulses_per_rev: u32,
}

/// The control board's lights.
#[derive(Clone, Copy, Debug, PartialEq, Eq, Structural)]
pub struct AmlogicLedConfig {
    pub green_gpio: u32,
    pub red_gpio: u32,
}

/// A hashboard.
#[derive(Clone, Debug)]
pub struct AmlogicHashboardConfig {
    pub index: u8,
    pub model: HashboardModel,
    pub serial_path: String,
    pub reset_gpio: u32,
    pub detect_gpio: u32,
    pub temp_i2c_device: String,
    /// Sensor addresses; if there is none, those of the slot.
    pub temp_sensor_addresses: Vec<u16>,
    pub eeprom_i2c_device: String,
    /// EEPROM address; if there is none, that of the slot.
    pub eeprom_address: Option<u16>,
    /// Whether its absence is fatal.
    pub required: bool,
}

/// The hashboards that are supported. The first one configured decides which
/// board driver is used.
#[derive(Clone, Copy, Debug, PartialEq, Eq, Structural)]
pub enum HashboardModel {
    /// BM1362 chips, 126 per board in 42 voltage domains.
    S19jPro,
    /// BM1366 chips, 77 per board in 11 voltage domains.
    S19kPro,
}

impl HashboardModel {
    /// The board's name.
    pub open spec fn board_label(&self) -> Seq<char> {
        match self {
            HashboardModel::S19jPro => "S19j Pro (Amlogic control board)"@,
            HashboardModel::S19kPro => "S19k Pro (Amlogic control board)"@,
        }
    }

    /// The chip's name.
    pub open spec fn asic_label(&self) -> Seq<char> {
        match self {
            HashboardModel::S19jPro => "BM1362"@,
            HashboardModel::S19kPro => "BM1366"@,
        }
    }

    /// The board's name, as the API shows it.
    pub fn board_model_label(self) -> (r: &'static str)
        ensures
            r@ == self.board_label(),
    {
        match self {
            HashboardModel::S19jPro => "S19j Pro (Amlogic control board)",
            HashboardModel::S19kPro => "S19k Pro (Amlogic control board)",
        }
    }

    /// The chip's name, as the display shows it.
    pub fn asic_model_label(self) -> (r: &'static str)
        ensures
            r@ == self.asic_label(),
    {
        match self {
            HashboardModel::S19jPro => "BM1362",
            HashboardModel::S19kPro => "BM1366",
        }
    }
}

/// The API server.
#[derive(Clone, Debug)]
pub struct ApiConfig {
    pub listen: String,
    pub tls: bool,
    pub cert_path: Option<String>,
    pub key_path: Option<String>,
}

impl Default for ApiConfig {
    fn default() -> (r: Self)
        ensures
            r.listen@ == "127.0.0.1:7785"@,
            !r.tls,
            r.cert_path is None,
            r.key_path is None,
    {
        ApiConfig {
            listen: "127.0.0.1:7785".to_string(),
            tls: false,
            cert_path: None,
            key_path: None,
        }
    }
}

impl Default for Config {
    fn default() -> (r: Self)
        ensures
            r.daemon.pid_file is None,
            r.daemon.log_level@ == "info"@,
            !r.daemon.systemd,
            r.pools@.len() == 0,
            r.hardware.temp_limit_microc == 85_000_000,
            r.hardware.fan_min_rpm == 0,
            r.hardware.fan_max_rpm == 10_000,
            r.hardware.power_limit_milliwatts is None,
            r.hardware.amlogic_control_board is None,
            r.api.listen@ == "127.0.0.1:7785"@,
            !r.api.tls,
            r.api.cert_path is None,
            r.api.key_path is None,
    {
        Config {
            daemon: DaemonConfig::default(),
            pools: Vec::new(),
            hardware: HardwareConfig::default(),
            api: ApiConfig::default(),
        }
    }
}

impl Config {
    /// The control board's configuration, if it is enabled.
    pub fn enabled_amlogic_control_board(&self) -> (r: Option<&AmlogicControlBoardConfig>)
        ensures
            r == match self.hardware.amlogic_control_board {
                Some(config) if config.enabled => Some(&config),
                _ => None,
            },
    {
        match &self.hardware.amlogic_control_board {
            Some(config) => if config.enabled {
                Some(config)
            } else {
                None
            },
            None => None,
        }
    }
}

/// A path below a directory.
pub open spec fn joined(dir: Seq<char>, rest: Seq<char>) -> Seq<char> {
    if dir.len() == 0 || dir.last() == '/' {
        dir + rest
    } else {
        dir + "/"@ + rest
    }
}

/// Where a configuration is looked for, in this order.
pub open spec fn search_paths(home: Option<Seq<char>>) -> Seq<Seq<char>> {
    (match home {
        Some(home) => seq![joined(home, ".config/mujina/mujina.toml"@)],
        None => Seq::<Seq<char>>::empty(),
    }) + seq!["/etc/mujina/mujina.toml"@]
}

/// Where a configuration is looked for, in this order.
pub fn default_search_paths(home: Option<&str>) -> (r: Vec<String>)
    ensures
        r@.map_values(|path: String| path@) == search_paths(
            match home {
                Some(home) => Some(home@),
                None => None,
            },
        ),
{
    let mut paths: Vec<String> = Vec::new();
    if let Some(home) = home {
        let chars = chars_of(home);
        let mut path = String::new();
        push_text(&mut path, home);
        if chars.len() > 0 && chars[chars.len() - 1] != '/' {
            push_text(&mut path, "/");
        }
        push_text(&mut path, ".config/mujina/mujina.toml");
        assert(path@ =~= joined(home@, ".config/mujina/mujina.toml"@));
        paths.push(path);
    }
    paths.push("/etc/mujina/mujina.toml".to_string());
    assert(paths@.map_values(|path: String| path@) =~= search_paths(
        match home {
            Some(home) => Some(home@),
            None => None,
        },
    ));
    paths
}

/// A path and whether there is a file.
#[derive(Clone, Debug)]
pub struct ProbedPath {
    pub path: String,
    pub exists: bool,
}

/// The file named by the operator does not exist.
#[derive(Debug)]
pub struct MissingConfigFile {
    pub path: String,
}

impl MissingConfigFile {
    /// The error as text.
    pub fn message(&self) -> (r: String)
        ensures
            r@ == "MUJINA_CONFIG points to missing file "@ + self.path@,
    {
        let mut out = String::new();
        push_text(&mut out, "MUJINA_CONFIG points to missing file ");
        push_text(&mut out, self.path.as_str());
        assert(out@ =~= "MUJINA_CONFIG points to missing file "@ + self.path@);
        out
    }
}

/// Whether `path` is the first of the candidates that exists.
pub open spec fn first_existing(candidates: Seq<ProbedPath>, path: Option<String>) -> bool {
    match path {
        Some(path) => exists|i: int|
            0 <= i < candidates.len() && (#[trigger] candidates[i]).exists && candidates[i].path@
                == path@ && forall|j: int| 0 <= j < i ==> !(#[trigger] candidates[j]).exists,
        None => forall|i: int| 0 <= i < candidates.len() ==> !(#[trigger] candidates[i]).exists,
    }
}

/// The configuration file: the one that the operator names, which must exist,
/// or else the first of the candidates that exists.
pub fn find_default_path(named: Option<ProbedPath>, candidates: &Vec<ProbedPath>) -> (r: Result<
    Option<String>,
    MissingConfigFile,
>)
    ensures
        path_found(named, candidates@, r),
{
    if let Some(probed) = named {
        if !probed.exists {
            return Err(MissingConfigFile { path: probed.path });
        }
        return Ok(Some(probed.path));
    }
    let mut i: usize = 0;
    while i < candidates.len()
        invariant
            named is None,
            i <= candidates@.len(),
            forall|j: int| 0 <= j < i ==> !(#[trigger] candidates@[j]).exists,
        decreases candidates@.len() - i,
    {
        if candidates[i].exists {
            return Ok(Some(candidates[i].path.clone()));
        }
        i = i + 1;
    }
    Ok(None)
}

/// Which configuration file is read, or which is missing.
pub open spec fn path_found(
    named: Option<ProbedPath>,
    candidates: Seq<ProbedPath>,
    r: Result<Option<String>, MissingConfigFile>,
) -> bool {
    &&& match named {
        Some(probed) => if probed.exists {
            r == Ok::<Option<String>, MissingConfigFile>(Some(probed.path))
        } else {
            r == Err::<Option<String>, MissingConfigFile>(
                MissingConfigFile { path: probed.path },
            )
        },
        None => r matches Ok(path) && first_existing(candidates, path),
    }
}

/// A file that was named is the one that is read, and it must exist. Otherwise it
/// is the first candidate that exists, and none if none does.
pub proof fn law_named_file_is_read(
    named: Option<ProbedPath>,
    candidates: Seq<ProbedPath>,
    r: Result<Option<String>, MissingConfigFile>,
    i: int,
)
    requires
        path_found(named, candidates, r),
    ensures
        named matches Some(probed) ==> {
            &&& probed.exists ==> r == Ok::<Option<String>, MissingConfigFile>(Some(probed.path))
            &&& !probed.exists ==> (r matches Err(missing) && missing.path == probed.path)
        },
        named is None ==> r is Ok,
        named is None && 0 <= i < candidates.len() && candidates[i].exists && (forall|j: int|
            0 <= j < i ==> !(#[trigger] candidates[j]).exists) ==> (r matches Ok(Some(path))
            && path@ == candidates[i].path@),
        named is None && (forall|j: int|
            0 <= j < candidates.len() ==> !(#[trigger] candidates[j]).exists) ==> r == Ok::<
            Option<String>,
            MissingConfigFile,
        >(None),
{
    if named is None && 0 <= i < candidates.len() && candidates[i].exists && (forall|j: int|
        0 <= j < i ==> !(#[trigger] candidates[j]).exists) {
        let path = r->Ok_0;
        assert(path is Some);
        let k = choose|k: int|
            0 <= k < candidates.len() && (#[trigger] candidates[k]).exists && candidates[k].path@
                == path->0@ && forall|j: int| 0 <= j < k ==> !(#[trigger] candidates[j]).exists;
        assert(k == i);
    }
}

/// The user's own file is looked for before the system's, below the home
/// directory, with one slash between them.
pub proof fn law_search_order(home: Seq<char>)
    ensures
        search_paths(None).len() == 1,
        search_paths(Some(home)).len() == 2,
        search_paths(Some(home))[1] == "/etc/mujina/mujina.toml"@,
        search_paths(None)[0] == "/etc/mujina/mujina.toml"@,
        home.len() > 0 && home.last() != '/' ==> search_paths(Some(home))[0] == home
            + "/.config/mujina/mujina.toml"@,
        home.len() > 0 && home.last() == '/' ==> search_paths(Some(home))[0] == home
            + ".config/mujina/mujina.toml"@,
{
    reveal_strlit("/");
    reveal_strlit(".config/mujina/mujina.toml");
    reveal_strlit("/.config/mujina/mujina.toml");
    assert("/"@ + ".config/mujina/mujina.toml"@ =~= "/.config/mujina/mujina.toml"@);
    assert(home + "/"@ + ".config/mujina/mujina.toml"@ =~= home + ("/"@
        + ".config/mujina/mujina.toml"@));
}

} // verus!
