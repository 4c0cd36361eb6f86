//! What the daemon starts.
//!
//! The daemon reads its configuration file and its environment, and then starts
//! transports, a job source, the scheduler, the API server and a display. This
//! module decides which, and with what settings.

use crate::api::server::ApiConfig;
use crate::board::s19j_pro_amlogic;
use crate::board::s19j_pro_amlogic::device_id_of;
use crate::config::{AmlogicControlBoardConfig, Config, GtTouchDisplayConfig, HashboardModel};
use crate::display::gt_touch::ServiceContext;
use crate::text::{chars_of, decimal, find_first, push_decimal, push_text};
use crate::transport::amlogic::{AmlogicDeviceInfo, TransportEvent as AmlogicTransportEvent};
use crate::transport::cpu::{CpuDeviceInfo, TransportEvent as CpuTransportEvent};
use crate::transport::TransportEvent;
use vstd::prelude::*;

verus! {

/// Port of the API server: ASCII M (77) and U (85).
pub const API_PORT: u16 = 7785;

/// Time between two jobs of the dummy source, in seconds.
pub const DUMMY_INTERVAL_SECS: u64 = 30;

/// A CPU miner that the environment asks for.
#[derive(Clone, Copy, Debug, PartialEq, Eq, Structural)]
pub struct CpuMinerConfig {
    pub thread_count: usize,
    pub duty_percent: u8,
}

/// What the environment says.
#[derive(Debug)]
pub struct Environment {
    /// Whether `MUJINA_USB_DISABLE` is set.
    pub usb_disable: bool,
    /// `MUJINA_POOL_URL`.
    pub pool_url: Option<String>,
    /// `MUJINA_POOL_USER`.
    pub pool_user: Option<String>,
    /// `MUJINA_POOL_PASS`.
    pub pool_pass: Option<String>,
    /// `MUJINA_API_LISTEN`.
    pub api_listen: Option<String>,
    pub cpu_miner: Option<CpuMinerConfig>,
    /// Whether a share rate is forced, for testing.
    pub forced_rate: bool,
}

/// A pool to connect to.
#[derive(Debug)]
pub struct StratumPoolConfig {
    pub url: String,
    pub username: String,
    pub password: String,
    pub user_agent: String,
}

/// The job source to start.
#[derive(Debug)]
pub enum SourcePlan {
    /// A pool, with the forced share rate in between or not.
    Stratum { pool: StratumPoolConfig, forced_rate: bool },
    /// Made-up jobs.
    Dummy { interval_secs: u64 },
}

/// The display to start.
#[derive(Debug)]
pub struct DisplayPlan {
    pub config: GtTouchDisplayConfig,
    pub context: ServiceContext,
}

/// What the daemon starts.
#[derive(Debug)]
pub struct DaemonPlan {
    pub usb_discovery: bool,
    /// Devices that are not plugged in, in the order in which they come up.
    pub devices: Vec<TransportEvent>,
    pub source: SourcePlan,
    pub api: ApiConfig,
    pub display: Option<DisplayPlan>,
}

/// The main daemon.
#[derive(Debug)]
pub struct Daemon {
    pub config: Option<Config>,
}

/// A text, or what stands in for it.
pub open spec fn text_or(text: Option<String>, otherwise: Seq<char>) -> Seq<char> {
    match text {
        Some(text) => text@,
        None => otherwise,
    }
}

fn text_or_default(text: &Option<String>, otherwise: &str) -> (r: String)
    ensures
        r@ == text_or(*text, otherwise@),
{
    match text {
        Some(text) => text.clone(),
        None => otherwise.to_string(),
    }
}

fn copy_of(text: &Option<String>) -> (r: Option<String>)
    ensures
        r == *text,
{
    match text {
        Some(text) => Some(text.clone()),
        None => None,
    }
}

/// The control board's configuration, if there is one and it is enabled.
pub open spec fn enabled_board(config: Option<Config>) -> Option<AmlogicControlBoardConfig> {
    match config {
        Some(config) => match config.hardware.amlogic_control_board {
            Some(board) if board.enabled => Some(board),
            _ => None,
        },
        None => None,
    }
}

/// The model that decides the board driver: that of the first hashboard.
pub open spec fn model_of(board: AmlogicControlBoardConfig) -> HashboardModel {
    if board.hashboards@.len() > 0 {
        board.hashboards@[0].model
    } else {
        HashboardModel::S19jPro
    }
}

/// Whether this is the control board's device. The id of a board with S19k Pro
/// hashboards is given.
pub open spec fn is_amlogic_device(
    info: AmlogicDeviceInfo,
    board: AmlogicControlBoardConfig,
    s19k_device_id: Seq<char>,
) -> bool {
    &&& info.model == model_of(board)
    &&& info.device_id@ == match info.model {
        HashboardModel::S19jPro => device_id_of(board),
        HashboardModel::S19kPro => s19k_device_id,
    }
}

/// The device of a control board. The first configured hashboard decides the
/// driver. The id of a board with S19k Pro hashboards, whose driver is another
/// one, is given.
pub fn amlogic_device(board: &AmlogicControlBoardConfig, s19k_device_id: &str) -> (r:
    AmlogicDeviceInfo)
    ensures
        is_amlogic_device(r, *board, s19k_device_id@),
{
    let model: HashboardModel = if board.hashboards.len() > 0 {
        board.hashboards[0].model
    } else {
        HashboardModel::S19jPro
    };
    let device_id: String = match model {
        HashboardModel::S19jPro => s19j_pro_amlogic::device_id(board),
        HashboardModel::S19kPro => s19k_device_id.to_string(),
    };
    AmlogicDeviceInfo { device_id, model }
}

/// Identifies a CPU miner.
pub open spec fn cpu_id(config: CpuMinerConfig) -> Seq<char> {
    "cpu-"@ + decimal(config.thread_count as nat) + "x"@ + decimal(config.duty_percent as nat)
        + "%"@
}

/// The device of a CPU miner.
pub fn cpu_device(config: CpuMinerConfig) -> (r: CpuDeviceInfo)
    ensures
        r.device_id@ == cpu_id(config),
        r.thread_count == config.thread_count,
        r.duty_percent == config.duty_percent,
{
    let mut device_id = String::new();
    push_text(&mut device_id, "cpu-");
    push_decimal(&mut device_id, config.thread_count as u64);
    push_text(&mut device_id, "x");
    push_decimal(&mut device_id, config.duty_percent as u64);
    push_text(&mut device_id, "%");
    assert(device_id@ =~= cpu_id(config));
    CpuDeviceInfo {
        device_id,
        thread_count: config.thread_count,
        duty_percent: config.duty_percent,
    }
}

/// Whether this is the job source that the environment asks for.
pub open spec fn is_source(plan: SourcePlan, env: Environment) -> bool {
    match env.pool_url {
        Some(url) => {
            &&& plan matches SourcePlan::Stratum { pool, forced_rate }
            &&& pool.url == url
            &&& pool.username@ == text_or(env.pool_user, "mujina-testing"@)
            &&& pool.password@ == text_or(env.pool_pass, "x"@)
            &&& pool.user_agent@ == "mujina-miner/0.1.0-alpha"@
            &&& forced_rate == env.forced_rate
        },
        None => plan == (SourcePlan::Dummy { interval_secs: DUMMY_INTERVAL_SECS }),
    }
}

/// The job source: the pool that the environment names, or made-up jobs.
pub fn plan_source(env: &Environment) -> (r: SourcePlan)
    ensures
        is_source(r, *env),
{
    match &env.pool_url {
        Some(url) => SourcePlan::Stratum {
            pool: StratumPoolConfig {
                url: url.clone(),
                username: text_or_default(&env.pool_user, "mujina-testing"),
                password: text_or_default(&env.pool_pass, "x"),
                user_agent: "mujina-miner/0.1.0-alpha".to_string(),
            },
            forced_rate: env.forced_rate,
        },
        None => SourcePlan::Dummy { interval_secs: DUMMY_INTERVAL_SECS },
    }
}

impl SourcePlan {
    /// The name and address under which the source is registered with the
    /// scheduler; `pool_name` is how a pool's client calls itself.
    pub fn registration(&self, pool_name: &str) -> (r: (String, Option<String>))
        ensures
            match *self {
                SourcePlan::Stratum { pool, forced_rate } => {
                    &&& r.0@ == if forced_rate {
                        pool_name@ + " (forced-rate)"@
                    } else {
                        pool_name@
                    }
                    &&& r.1 == Some(pool.url)
                },
                SourcePlan::Dummy { .. } => r.0@ == "dummy"@ && r.1 is None,
            },
    {
        match self {
            SourcePlan::Stratum { pool, forced_rate } => {
                let mut name = String::new();
                push_text(&mut name, pool_name);
                assert(name@ =~= pool_name@);
                if *forced_rate {
                    push_text(&mut name, " (forced-rate)");
                }
                (name, Some(pool.url.clone()))
            },
            SourcePlan::Dummy { .. } => ("dummy".to_string(), None),
        }
    }
}

/// Where the API server listens. An address without a port gets the default
/// port, and without an address only the host itself is served.
pub open spec fn listen_address(listen: Option<String>) -> Seq<char> {
    match listen {
        Some(address) => if address@.contains(':') {
            address@
        } else {
            address@ + ":"@ + decimal(API_PORT as nat)
        },
        None => "127.0.0.1:"@ + decimal(API_PORT as nat),
    }
}

/// Where the API server listens.
pub fn bind_addr(listen: &Option<String>) -> (r: String)
    ensures
        r@ == listen_address(*listen),
{
    let mut out = String::new();
    match listen {
        Some(address) => {
            let chars = chars_of(address.as_str());
            push_text(&mut out, address.as_str());
            let colon = find_first(&chars, 0, chars.len(), ':');
            assert(chars@.subrange(0, chars@.len() as int) =~= chars@);
            if colon.is_none() {
                push_text(&mut out, ":");
                push_decimal(&mut out, API_PORT as u64);
            }
        },
        None => {
            push_text(&mut out, "127.0.0.1:");
            push_decimal(&mut out, API_PORT as u64);
        },
    }
    assert(out@ =~= listen_address(*listen));
    out
}

/// Whether this is the display to start: the one of an enabled control board,
/// if it is enabled itself.
pub open spec fn is_display(
    plan: Option<DisplayPlan>,
    board: Option<AmlogicControlBoardConfig>,
    env: Environment,
) -> bool {
    match board {
        Some(board) => match board.gt_touch_display {
            Some(display) if display.enabled => {
                &&& plan matches Some(plan)
                &&& plan.config == display
                &&& shows(plan.context, board, env)
            },
            _ => plan is None,
        },
        None => plan is None,
    }
}

/// Whether this is what a display shows while the miner's state says nothing
/// better.
pub open spec fn shows(
    context: ServiceContext,
    board: AmlogicControlBoardConfig,
    env: Environment,
) -> bool {
    &&& context.default_pool_url == env.pool_url
    &&& context.default_pool_user == env.pool_user
    &&& context.default_mode matches Some(mode)
    &&& mode@ == "normal"@
    &&& context.default_microvolts == Some(board.startup.initial_microvolts)
    &&& if board.hashboards@.len() > 0 {
        let model = board.hashboards@[0].model;
        &&& context.default_asic_model matches Some(asic)
        &&& asic@ == model.asic_label()
        &&& context.default_device_model matches Some(device)
        &&& device@ == model.board_label()
    } else {
        context.default_asic_model is None && context.default_device_model is None
    }
}

/// The display of a control board, if it is enabled.
pub fn plan_display(board: &AmlogicControlBoardConfig, env: &Environment) -> (r: Option<
    DisplayPlan,
>)
    ensures
        is_display(r, Some(*board), *env),
{
    match &board.gt_touch_display {
        Some(display) => {
            if !display.enabled {
                return None;
            }
            let config = GtTouchDisplayConfig {
                enabled: display.enabled,
                serial_path: copy_of(&display.serial_path),
                baud_rate: display.baud_rate,
                update_interval_ms: display.update_interval_ms,
                reconnect_delay_ms: display.reconnect_delay_ms,
            };
            let mut default_asic_model: Option<String> = None;
            let mut default_device_model: Option<String> = None;
            if board.hashboards.len() > 0 {
                let model: HashboardModel = board.hashboards[0].model;
                default_asic_model = Some(model.asic_model_label().to_string());
                default_device_model = Some(model.board_model_label().to_string());
            }
            Some(
                DisplayPlan {
                    config,
                    context: ServiceContext {
                        default_device_model,
                        default_asic_model,
                        default_pool_url: copy_of(&env.pool_url),
                        default_pool_user: copy_of(&env.pool_user),
                        default_mode: Some("normal".to_string()),
                        default_microvolts: Some(board.startup.initial_microvolts),
                    },
                },
            )
        },
        None => None,
    }
}

/// How many devices come up that are not plugged in.
pub open spec fn device_count(board: Option<AmlogicControlBoardConfig>, env: Environment) -> nat {
    (if board is Some {
        1nat
    } else {
        0
    }) + (if env.cpu_miner is Some {
        1nat
    } else {
        0
    })
}

/// Whether these are the devices that come up without being plugged in: the
/// control board first, then the CPU miner.
pub open spec fn are_devices(
    devices: Seq<TransportEvent>,
    board: Option<AmlogicControlBoardConfig>,
    env: Environment,
    s19k_device_id: Seq<char>,
) -> bool {
    &&& devices.len() == device_count(board, env)
    &&& board matches Some(board) ==> {
        &&& devices[0] matches TransportEvent::Amlogic(
            AmlogicTransportEvent::DeviceConnected(info),
        )
        &&& is_amlogic_device(info, board, s19k_device_id)
    }
    &&& env.cpu_miner matches Some(cpu) ==> {
        &&& devices.last() matches TransportEvent::Cpu(CpuTransportEvent::CpuDeviceConnected(info))
        &&& info.device_id@ == cpu_id(cpu)
        &&& info.thread_count == cpu.thread_count
        &&& info.duty_percent == cpu.duty_percent
    }
}

impl Daemon {
    /// A daemon with this configuration.
    pub fn new(config: Option<Config>) -> (r: Daemon)
        ensures
            r.config == config,
    {
        Daemon { config }
    }

    /// What to start. The id of a control board with S19k Pro hashboards is
    /// given.
    pub fn plan(&self, env: &Environment, s19k_device_id: &str) -> (r: DaemonPlan)
        ensures
            planned(self.config, *env, s19k_device_id@, r),
    {
        let board: Option<&AmlogicControlBoardConfig> = match &self.config {
            Some(config) => config.enabled_amlogic_control_board(),
            None => None,
        };
        let mut devices: Vec<TransportEvent> = Vec::new();
        let mut display: Option<DisplayPlan> = None;
        match board {
            Some(board) => {
                let info = amlogic_device(board, s19k_device_id);
                devices.push(
                    TransportEvent::Amlogic(AmlogicTransportEvent::DeviceConnected(info)),
                );
                display = plan_display(board, env);
            },
            None => {},
        }
        match env.cpu_miner {
            Some(cpu) => {
                let info = cpu_device(cpu);
                devices.push(TransportEvent::Cpu(CpuTransportEvent::CpuDeviceConnected(info)));
            },
            None => {},
        }
        DaemonPlan {
            usb_discovery: !env.usb_disable,
            devices,
            source: plan_source(env),
            api: ApiConfig { bind_addr: bind_addr(&env.api_listen) },
            display,
        }
    }
}

impl Default for Daemon {
    fn default() -> (r: Self)
        ensures
            r.config is None,
    {
        Daemon::new(None)
    }
}

/// Unless the environment says otherwise, only the host itself can reach the
/// API, on port 7785; and the server listens on a port in every case.
pub proof fn law_api_is_local_by_default(listen: Option<String>)
    ensures
        listen is None ==> listen_address(listen) == "127.0.0.1:7785"@,
        listen_address(listen).contains(':'),
{
    reveal_strlit("127.0.0.1:");
    reveal_strlit("127.0.0.1:7785");
    reveal_strlit(":");
    reveal_with_fuel(decimal, 4);
    match listen {
        Some(address) => {
            if !address@.contains(':') {
                assert(listen_address(listen)[address@.len() as int] == ':');
            }
        },
        None => {
            assert(listen_address(listen) =~= "127.0.0.1:7785"@);
            assert(listen_address(listen)[9] == ':');
        },
    }
}

/// What the daemon starts.
pub open spec fn planned(
    config: Option<Config>,
    env: Environment,
    s19k_device_id: Seq<char>,
    plan: DaemonPlan,
) -> bool {
    &&& plan.usb_discovery == !env.usb_disable
    &&& are_devices(plan.devices@, enabled_board(config), env, s19k_device_id)
    &&& is_source(plan.source, env)
    &&& plan.api.bind_addr@ == listen_address(env.api_listen)
    &&& is_display(plan.display, enabled_board(config), env)
}

/// The daemon mines for the pool that the environment names, with the user and
/// password that it names, and makes up work where it names none.
pub proof fn law_pool_is_the_environments(
    config: Option<Config>,
    env: Environment,
    s19k_device_id: Seq<char>,
    plan: DaemonPlan,
)
    requires
        planned(config, env, s19k_device_id, plan),
    ensures
        env.pool_url matches Some(url) ==> (plan.source matches SourcePlan::Stratum {
            pool,
            forced_rate,
        } && {
            &&& pool.url == url
            &&& env.pool_user matches Some(user) ==> pool.username@ == user@
            &&& env.pool_user is None ==> pool.username@ == "mujina-testing"@
            &&& env.pool_pass matches Some(pass) ==> pool.password@ == pass@
            &&& env.pool_pass is None ==> pool.password@ == "x"@
            &&& pool.user_agent@ == "mujina-miner/0.1.0-alpha"@
            &&& forced_rate == env.forced_rate
        }),
        env.pool_url is None ==> plan.source == (SourcePlan::Dummy { interval_secs: 30 }),
        plan.usb_discovery <==> !env.usb_disable,
{
}

/// The board of the configuration is announced when it is enabled, under its
/// first hashboard's model, and before the CPU miner of the environment; nothing
/// else is.
pub proof fn law_devices_are_announced(
    config: Option<Config>,
    env: Environment,
    s19k_device_id: Seq<char>,
    plan: DaemonPlan,
)
    requires
        planned(config, env, s19k_device_id, plan),
    ensures
        ({
            let board = config matches Some(c) && (c.hardware.amlogic_control_board matches Some(b)
                && b.enabled);
            &&& plan.devices@.len() == (if board {
                1int
            } else {
                0
            }) + (if env.cpu_miner is Some {
                1int
            } else {
                0
            })
            &&& board ==> {
                let own = config->0.hardware.amlogic_control_board->0;
                &&& plan.devices@[0] matches TransportEvent::Amlogic(
                    AmlogicTransportEvent::DeviceConnected(info),
                ) && {
                    &&& own.hashboards@.len() > 0 ==> info.model == own.hashboards@[0].model
                    &&& info.model == HashboardModel::S19kPro ==> info.device_id@ == s19k_device_id
                    &&& info.model == HashboardModel::S19jPro && own.board_name is Some
                        ==> info.device_id@ == own.board_name->0@
                }
            }
            &&& env.cpu_miner matches Some(cpu) ==> (
            plan.devices@.last() matches TransportEvent::Cpu(
                CpuTransportEvent::CpuDeviceConnected(info),
            ) && info.thread_count == cpu.thread_count && info.duty_percent == cpu.duty_percent)
        }),
{
}

/// The display runs when the board is enabled and so is the display, with its
/// settings; it shows the pool, the user and the supply voltage that the daemon
/// was given.
pub proof fn law_display_shows_settings(
    config: Option<Config>,
    env: Environment,
    s19k_device_id: Seq<char>,
    plan: DaemonPlan,
    board: AmlogicControlBoardConfig,
    display: GtTouchDisplayConfig,
)
    requires
        planned(config, env, s19k_device_id, plan),
        config is Some && config->0.hardware.amlogic_control_board == Some(board),
        board.gt_touch_display == Some(display),
    ensures
        plan.display is Some <==> board.enabled && display.enabled,
        plan.display matches Some(shown) ==> {
            &&& shown.config == display
            &&& shown.context.default_pool_url == env.pool_url
            &&& shown.context.default_pool_user == env.pool_user
            &&& shown.context.default_microvolts == Some(board.startup.initial_microvolts)
            &&& shown.context.default_mode matches Some(mode) && mode@ == "normal"@
            &&& board.hashboards@.len() == 0 ==> shown.context.default_asic_model is None
                && shown.context.default_device_model is None
            &&& board.hashboards@.len() > 0 ==> {
                &&& shown.context.default_asic_model matches Some(asic) && asic@
                    == board.hashboards@[0].model.asic_label()
                &&& shown.context.default_device_model matches Some(device) && device@
                    == board.hashboards@[0].model.board_label()
            }
        },
{
}

/// An address without a port gets the default one, and one with a port is used
/// as it is.
pub proof fn law_listen_address(address: String)
    ensures
        address@.contains(':') ==> listen_address(Some(address)) == address@,
        !address@.contains(':') ==> listen_address(Some(address)) == address@ + ":"@ + decimal(
            7785,
        ),
{
}

} // verus!
