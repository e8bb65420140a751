//! Settings of the demo server, read from its environment variables and then
//! overridden by its command-line arguments.
//!
//! The process environment and the argument list are read by the caller and
//! handed over as plain strings. The bind address is kept as text; turning it
//! into a socket address is left to the caller.

use vstd::prelude::*;

use crate::config::{precision_named, Precision};
use crate::server::{
    device_preference_named, parse_device_preference, DevicePreference, StreamingDecodeConfig,
    STREAM_DECODE_BATCH_FRAMES, STREAM_DECODE_CONTEXT_FRAMES,
};
use crate::text::{
    ascii_lowercase, concat2, concat3, decimal, owned, parse_unsigned, parse_unsigned_spec,
    parse_usize, push_decimal, str_eq, substring, unicode_lowercase,
};

verus! {

pub const DEFAULT_MODEL_DIR: &'static str = "/home/aurel/Documents/vibe/STT-rust/LFM2.5-Audio-1.5B-ONNX";

pub const DEFAULT_BIND_ADDR: &'static str = "127.0.0.1:8080";

/// The environment variables the server reads, `None` where a variable is
/// unset.
pub struct ServerEnv {
    /// `LFM2_MODEL_PATH`
    pub model_path: Option<String>,
    /// `LFM2_BIND_ADDR`
    pub bind_addr: Option<String>,
    /// `LFM2_PRECISION`
    pub precision: Option<String>,
    /// `LFM2_DEVICE`
    pub device: Option<String>,
    /// `LFM2_CPU_WORKERS`
    pub cpu_workers: Option<String>,
    /// `LFM2_STREAM_BATCH_FRAMES`
    pub stream_batch_frames: Option<String>,
    /// `LFM2_STREAM_CONTEXT_FRAMES`
    pub stream_context_frames: Option<String>,
    /// `LFM2_INTERLEAVED_N_TEXT`
    pub interleaved_n_text: Option<String>,
    /// `LFM2_INTERLEAVED_N_AUDIO`
    pub interleaved_n_audio: Option<String>,
    /// `LFM2_INTERLEAVED_LOG_PATH`
    pub interleaved_log_path: Option<String>,
}

/// The settings as plain values, before the streaming decode window is
/// normalised.
pub struct SettingsModel {
    pub model_path: Seq<char>,
    pub static_dir: Seq<char>,
    pub bind_addr: Seq<char>,
    pub precision: Precision,
    pub device_preference: DevicePreference,
    pub cpu_workers: usize,
    pub stream_batch_frames: usize,
    pub stream_context_frames: usize,
    pub interleaved_n_text: Option<usize>,
    pub interleaved_n_audio: Option<usize>,
    /// The port that replaces the bind address's own, if one was given.
    pub port: Option<u16>,
    pub interleaved_log_path: Option<Seq<char>>,
}

/// A number read from an optional environment variable; a variable that is
/// unset or does not parse leaves the default.
pub open spec fn env_number_or(value: Option<String>, default: usize) -> usize {
    match value {
        Some(v) => match parse_unsigned_spec(v@, usize::MAX as nat) {
            Some(n) => n as usize,
            None => default,
        },
        None => default,
    }
}

/// An optional number read from an environment variable; one that does not
/// parse counts as unset.
pub open spec fn env_number(value: Option<String>) -> Option<usize> {
    match value {
        Some(v) => match parse_unsigned_spec(v@, usize::MAX as nat) {
            Some(n) => Some(n as usize),
            None => None,
        },
        None => None,
    }
}

/// Whether texts read as socket addresses, as the caller's socket-address
/// parser answers: the bind address the environment gives (its own or the
/// default), and each argument in order.
pub struct AddressChecks {
    pub env_bind_addr: bool,
    pub args: Vec<bool>,
}

/// The settings the environment gives, or the error it causes: an invalid
/// bind address is reported first, then an invalid precision, then an
/// invalid device.
pub open spec fn env_settings(env: ServerEnv, static_dir: Seq<char>, bind_addr_ok: bool) -> Result<SettingsModel, Seq<char>> {
    if !bind_addr_ok {
        Err("invalid bind address"@)
    } else {
        env_settings_checked(env, static_dir)
    }
}

/// The settings of an environment whose bind address reads well.
pub open spec fn env_settings_checked(env: ServerEnv, static_dir: Seq<char>) -> Result<SettingsModel, Seq<char>> {
    let precision: Result<Precision, Seq<char>> = match env.precision {
        None => Ok(Precision::Q4),
        Some(v) => match precision_named(unicode_lowercase(v@)) {
            Some(p) => Ok(p),
            None => Err("Unknown precision: "@ + v@),
        },
    };
    let device: Result<DevicePreference, Seq<char>> = match env.device {
        None => Ok(DevicePreference::Auto),
        Some(v) => match device_preference_named(ascii_lowercase(v@)) {
            Some(d) => Ok(d),
            None => Err("unknown device: "@ + ascii_lowercase(v@)),
        },
    };
    match (precision, device) {
        (Err(e), _) => Err(e),
        (Ok(_), Err(e)) => Err(e),
        (Ok(p), Ok(d)) => Ok(
            SettingsModel {
                model_path: match env.model_path {
                    Some(v) => v@,
                    None => DEFAULT_MODEL_DIR@,
                },
                static_dir,
                bind_addr: match env.bind_addr {
                    Some(v) => v@,
                    None => DEFAULT_BIND_ADDR@,
                },
                precision: p,
                device_preference: d,
                cpu_workers: env_number_or(env.cpu_workers, 1),
                stream_batch_frames: env_number_or(env.stream_batch_frames, STREAM_DECODE_BATCH_FRAMES),
                stream_context_frames: env_number_or(
                    env.stream_context_frames,
                    STREAM_DECODE_CONTEXT_FRAMES,
                ),
                interleaved_n_text: env_number(env.interleaved_n_text),
                interleaved_n_audio: env_number(env.interleaved_n_audio),
                port: None,
                interleaved_log_path: match env.interleaved_log_path {
                    Some(v) => Some(v@),
                    None => None,
                },
            },
        ),
    }
}

/// The command-line flags the server accepts; each takes one value.
pub open spec fn is_known_flag(flag: Seq<char>) -> bool {
    ||| flag == "--model"@
    ||| flag == "--static-dir"@
    ||| flag == "--bind"@
    ||| flag == "--precision"@
    ||| flag == "--device"@
    ||| flag == "--cpu-workers"@
    ||| flag == "--stream-batch-frames"@
    ||| flag == "--stream-context-frames"@
    ||| flag == "--interleaved-n-text"@
    ||| flag == "--interleaved-n-audio"@
    ||| flag == "--port"@
    ||| flag == "--interleaved-log"@
}

/// An argument that is not a flag: the model directory.
pub open spec fn is_positional(arg: Seq<char>) -> bool {
    arg.len() == 0 || arg[0] != '-'
}

/// The settings after one known flag and its value, or the error the value
/// causes.
pub open spec fn apply_flag(m: SettingsModel, flag: Seq<char>, value: Seq<char>, value_is_addr: bool) -> Result<SettingsModel, Seq<char>> {
    let number = parse_unsigned_spec(value, usize::MAX as nat);
    let bad_number = "invalid "@ + flag + " value"@;
    if flag == "--model"@ {
        Ok(SettingsModel { model_path: value, ..m })
    } else if flag == "--static-dir"@ {
        Ok(SettingsModel { static_dir: value, ..m })
    } else if flag == "--bind"@ {
        if value_is_addr {
            Ok(SettingsModel { bind_addr: value, ..m })
        } else {
            Err("invalid --bind socket address"@)
        }
    } else if flag == "--interleaved-log"@ {
        Ok(SettingsModel { interleaved_log_path: Some(value), ..m })
    } else if flag == "--port"@ {
        match parse_unsigned_spec(value, 65535) {
            Some(n) => Ok(SettingsModel { port: Some(n as u16), ..m }),
            None => Err(bad_number),
        }
    } else if flag == "--precision"@ {
        match precision_named(unicode_lowercase(value)) {
            Some(p) => Ok(SettingsModel { precision: p, ..m }),
            None => Err("Unknown precision: "@ + value),
        }
    } else if flag == "--device"@ {
        match device_preference_named(ascii_lowercase(value)) {
            Some(d) => Ok(SettingsModel { device_preference: d, ..m }),
            None => Err("unknown device: "@ + ascii_lowercase(value)),
        }
    } else {
        match number {
            None => Err(bad_number),
            Some(n) => if flag == "--cpu-workers"@ {
                Ok(SettingsModel { cpu_workers: n as usize, ..m })
            } else if flag == "--stream-batch-frames"@ {
                Ok(SettingsModel { stream_batch_frames: n as usize, ..m })
            } else if flag == "--stream-context-frames"@ {
                Ok(SettingsModel { stream_context_frames: n as usize, ..m })
            } else if flag == "--interleaved-n-text"@ {
                Ok(SettingsModel { interleaved_n_text: Some(n as usize), ..m })
            } else {
                Ok(SettingsModel { interleaved_n_audio: Some(n as usize), ..m })
            },
        }
    }
}

/// The settings after the arguments, taken in order: an argument that does
/// not start with `-` names the model directory, any other is a flag followed
/// by its value. The first unknown flag, flag without a value or invalid value
/// is the error.
pub open spec fn apply_args(m: SettingsModel, args: Seq<Seq<char>>, addr_ok: Seq<bool>) -> Result<SettingsModel, Seq<char>>
    decreases args.len(),
{
    if args.len() == 0 {
        Ok(m)
    } else if is_positional(args[0]) {
        apply_args(
            SettingsModel { model_path: args[0], ..m },
            args.subrange(1, args.len() as int),
            addr_ok.subrange(1, addr_ok.len() as int),
        )
    } else if !is_known_flag(args[0]) {
        Err("unknown argument: "@ + args[0])
    } else if args.len() < 2 {
        Err("missing value for "@ + args[0])
    } else {
        match apply_flag(m, args[0], args[1], addr_ok[1]) {
            Ok(next) => apply_args(
                next,
                args.subrange(2, args.len() as int),
                addr_ok.subrange(2, addr_ok.len() as int),
            ),
            Err(e) => Err(e),
        }
    }
}

/// The text of each argument.
pub open spec fn args_view(args: Seq<String>) -> Seq<Seq<char>> {
    args.map_values(|a: String| a@)
}

/// The settings from the environment, then the arguments.
pub open spec fn server_settings(env: ServerEnv, static_dir: Seq<char>, args: Seq<String>, checks: AddressChecks) -> Result<SettingsModel, Seq<char>> {
    match env_settings(env, static_dir, checks.env_bind_addr) {
        Ok(m) => apply_args(m, args_view(args), checks.args@),
        Err(e) => Err(e),
    }
}

/// Settings being assembled.
struct SettingsDraft {
    model_path: String,
    static_dir: String,
    bind_addr: String,
    precision: Precision,
    device_preference: DevicePreference,
    cpu_workers: usize,
    stream_batch_frames: usize,
    stream_context_frames: usize,
    interleaved_n_text: Option<usize>,
    interleaved_n_audio: Option<usize>,
    port: Option<u16>,
    interleaved_log_path: Option<String>,
}

impl View for SettingsDraft {
    type V = SettingsModel;

    closed spec fn view(&self) -> SettingsModel {
        SettingsModel {
            model_path: self.model_path@,
            static_dir: self.static_dir@,
            bind_addr: self.bind_addr@,
            precision: self.precision,
            device_preference: self.device_preference,
            cpu_workers: self.cpu_workers,
            stream_batch_frames: self.stream_batch_frames,
            stream_context_frames: self.stream_context_frames,
            interleaved_n_text: self.interleaved_n_text,
            interleaved_n_audio: self.interleaved_n_audio,
            port: self.port,
            interleaved_log_path: match self.interleaved_log_path {
                Some(v) => Some(v@),
                None => None,
            },
        }
    }
}

spec fn draft_result(r: Result<SettingsDraft, String>) -> Result<SettingsModel, Seq<char>> {
    match r {
        Ok(d) => Ok(d@),
        Err(e) => Err(e@),
    }
}

fn env_number_or_exec(value: &Option<String>, default: usize) -> (n: usize)
    ensures
        n == env_number_or(*value, default),
{
    match value {
        Some(v) => match parse_usize(v.as_str()) {
            Some(n) => n,
            None => default,
        },
        None => default,
    }
}

fn env_number_exec(value: &Option<String>) -> (n: Option<usize>)
    ensures
        n == env_number(*value),
{
    match value {
        Some(v) => parse_usize(v.as_str()),
        None => None,
    }
}

fn settings_from_env(env: &ServerEnv, static_dir: &str) -> (r: Result<SettingsDraft, String>)
    ensures
        draft_result(r) == env_settings_checked(*env, static_dir@),
{
    let precision = match &env.precision {
        None => Precision::Q4,
        Some(v) => match Precision::parse(v.as_str()) {
            Ok(p) => p,
            Err(e) => {
                return Err(e);
            },
        },
    };
    let device_preference = match &env.device {
        None => DevicePreference::Auto,
        Some(v) => match parse_device_preference(v.as_str()) {
            Ok(d) => d,
            Err(e) => {
                return Err(e);
            },
        },
    };
    let model_path = match &env.model_path {
        Some(v) => owned(v.as_str()),
        None => owned(DEFAULT_MODEL_DIR),
    };
    let bind_addr = match &env.bind_addr {
        Some(v) => owned(v.as_str()),
        None => owned(DEFAULT_BIND_ADDR),
    };
    Ok(
        SettingsDraft {
            model_path,
            static_dir: owned(static_dir),
            bind_addr,
            precision,
            device_preference,
            cpu_workers: env_number_or_exec(&env.cpu_workers, 1),
            stream_batch_frames: env_number_or_exec(
                &env.stream_batch_frames,
                STREAM_DECODE_BATCH_FRAMES,
            ),
            stream_context_frames: env_number_or_exec(
                &env.stream_context_frames,
                STREAM_DECODE_CONTEXT_FRAMES,
            ),
            interleaved_n_text: env_number_exec(&env.interleaved_n_text),
            interleaved_n_audio: env_number_exec(&env.interleaved_n_audio),
            port: None,
            interleaved_log_path: match &env.interleaved_log_path {
                Some(v) => Some(owned(v.as_str())),
                None => None,
            },
        },
    )
}

fn is_positional_exec(arg: &str) -> (b: bool)
    ensures
        b == is_positional(arg@),
{
    arg.unicode_len() == 0 || arg.get_char(0) != '-'
}

fn is_known_flag_exec(flag: &str) -> (b: bool)
    ensures
        b == is_known_flag(flag@),
{
    str_eq(flag, "--model") || str_eq(flag, "--static-dir") || str_eq(flag, "--bind") || str_eq(
        flag,
        "--precision",
    ) || str_eq(flag, "--device") || str_eq(flag, "--cpu-workers") || str_eq(
        flag,
        "--stream-batch-frames",
    ) || str_eq(flag, "--stream-context-frames") || str_eq(flag, "--interleaved-n-text")
        || str_eq(flag, "--interleaved-n-audio") || str_eq(flag, "--port") || str_eq(
        flag,
        "--interleaved-log",
    )
}

fn apply_flag_exec(d: SettingsDraft, flag: &str, value: &str, value_is_addr: bool) -> (r: Result<SettingsDraft, String>)
    requires
        is_known_flag(flag@),
    ensures
        draft_result(r) == apply_flag(d@, flag@, value@, value_is_addr),
{
    if str_eq(flag, "--model") {
        Ok(SettingsDraft { model_path: owned(value), ..d })
    } else if str_eq(flag, "--static-dir") {
        Ok(SettingsDraft { static_dir: owned(value), ..d })
    } else if str_eq(flag, "--bind") {
        if value_is_addr {
            Ok(SettingsDraft { bind_addr: owned(value), ..d })
        } else {
            Err(owned("invalid --bind socket address"))
        }
    } else if str_eq(flag, "--interleaved-log") {
        Ok(SettingsDraft { interleaved_log_path: Some(owned(value)), ..d })
    } else if str_eq(flag, "--port") {
        match parse_unsigned(value, 65535) {
            Some(n) => Ok(SettingsDraft { port: Some(n as u16), ..d }),
            None => Err(concat3("invalid ", flag, " value")),
        }
    } else if str_eq(flag, "--precision") {
        match Precision::parse(value) {
            Ok(p) => Ok(SettingsDraft { precision: p, ..d }),
            Err(e) => Err(e),
        }
    } else if str_eq(flag, "--device") {
        match parse_device_preference(value) {
            Ok(p) => Ok(SettingsDraft { device_preference: p, ..d }),
            Err(e) => Err(e),
        }
    } else {
        match parse_usize(value) {
            None => Err(concat3("invalid ", flag, " value")),
            Some(n) => if str_eq(flag, "--cpu-workers") {
                Ok(SettingsDraft { cpu_workers: n, ..d })
            } else if str_eq(flag, "--stream-batch-frames") {
                Ok(SettingsDraft { stream_batch_frames: n, ..d })
            } else if str_eq(flag, "--stream-context-frames") {
                Ok(SettingsDraft { stream_context_frames: n, ..d })
            } else if str_eq(flag, "--interleaved-n-text") {
                Ok(SettingsDraft { interleaved_n_text: Some(n), ..d })
            } else {
                Ok(SettingsDraft { interleaved_n_audio: Some(n), ..d })
            },
        }
    }
}

/// Settings of the demo server.
pub struct ServerConfig {
    pub model_path: String,
    pub static_dir: String,
    pub bind_addr: String,
    pub precision: Precision,
    pub device_preference: DevicePreference,
    pub cpu_workers: usize,
    pub interleaved_n_text: Option<usize>,
    pub interleaved_n_audio: Option<usize>,
    pub stream_decode: StreamingDecodeConfig,
    /// Where the interleaved sessions' trace is written, if anywhere.
    pub interleaved_log_path: Option<String>,
}

/// The text of an optional string.
pub open spec fn text_option(o: Option<String>) -> Option<Seq<char>> {
    match o {
        Some(v) => Some(v@),
        None => None,
    }
}

/// Position of the last `:` of a text, or -1 when it has none.
pub open spec fn last_colon(s: Seq<char>) -> int
    decreases s.len(),
{
    if s.len() == 0 {
        -1
    } else if s.last() == ':' {
        s.len() - 1
    } else {
        last_colon(s.drop_last())
    }
}

/// The host part of a bind address: what comes before its last `:`, or the
/// whole text when it has none.
pub open spec fn bind_host(addr: Seq<char>) -> Seq<char> {
    let k = last_colon(addr);
    if k < 0 {
        addr
    } else {
        addr.subrange(0, k)
    }
}

/// The bind address with its port replaced.
pub open spec fn with_port(addr: Seq<char>, port: u16) -> Seq<char> {
    bind_host(addr) + ":"@ + decimal(port as nat)
}

/// The bind address the settings give: the given port, if any, replaces the
/// address's own.
pub open spec fn effective_bind_addr(m: SettingsModel) -> Seq<char> {
    match m.port {
        Some(p) => with_port(m.bind_addr, p),
        None => m.bind_addr,
    }
}

proof fn lemma_last_colon_bounds(s: Seq<char>)
    ensures
        -1 <= last_colon(s) < s.len(),
        last_colon(s) >= 0 ==> s[last_colon(s)] == ':',
    decreases s.len(),
{
    if s.len() > 0 && s.last() != ':' {
        lemma_last_colon_bounds(s.drop_last());
    }
}

/// Replace the port of a bind address.
pub fn bind_addr_with_port(addr: &str, port: u16) -> (r: String)
    ensures
        r@ == with_port(addr@, port),
{
    let n = addr.unicode_len();
    let mut k: usize = n;
    let mut found = false;
    proof {
        assert(addr@.subrange(0, n as int) =~= addr@);
    }
    while k > 0 && !found
        invariant
            k <= n,
            n == addr@.len(),
            !found ==> last_colon(addr@) == last_colon(addr@.subrange(0, k as int)),
            found ==> last_colon(addr@) == k as int,
        decreases k,
    {
        let ghost before = addr@.subrange(0, k as int);
        proof {
            assert(before.drop_last() =~= addr@.subrange(0, k - 1));
        }
        if addr.get_char(k - 1) == ':' {
            found = true;
        }
        k = k - 1;
    }
    proof {
        if !found {
            assert(addr@.subrange(0, 0).len() == 0);
        }
        lemma_last_colon_bounds(addr@);
    }
    let mut r = if found {
        substring(addr, 0, k)
    } else {
        owned(addr)
    };
    r.append(":");
    proof {
        reveal_strlit(":");
    }
    push_decimal(&mut r, port as usize);
    r
}

/// The configuration carries the model's settings, with the streaming decode
/// window raised to at least one frame.
pub open spec fn config_matches(c: ServerConfig, m: SettingsModel) -> bool {
    &&& c.model_path@ == m.model_path
    &&& c.static_dir@ == m.static_dir
    &&& c.bind_addr@ == effective_bind_addr(m)
    &&& text_option(c.interleaved_log_path) == m.interleaved_log_path
    &&& c.precision == m.precision
    &&& c.device_preference == m.device_preference
    &&& c.cpu_workers == m.cpu_workers
    &&& c.interleaved_n_text == m.interleaved_n_text
    &&& c.interleaved_n_audio == m.interleaved_n_audio
    &&& c.stream_decode.batch_frames == (if m.stream_batch_frames < 1 {
        1
    } else {
        m.stream_batch_frames
    })
    &&& c.stream_decode.context_frames == (if m.stream_context_frames < 1 {
        1
    } else {
        m.stream_context_frames
    })
}

impl ServerConfig {
    /// The settings from the environment, overridden by the arguments (the
    /// program name excluded); `static_dir` is the directory served when no
    /// `--static-dir` is given. `checks` tells which texts read as socket
    /// addresses: the environment's bind address and each argument.
    pub fn from_env_and_args(env: &ServerEnv, static_dir: &str, args: &Vec<String>, checks: &AddressChecks) -> (r: Result<ServerConfig, String>)
        requires
            checks.args@.len() == args@.len(),
        ensures
            server_settings(*env, static_dir@, args@, *checks) matches Ok(m) ==> (r matches Ok(c)
                && config_matches(c, m)),
            server_settings(*env, static_dir@, args@, *checks) matches Err(e) ==> (r matches Err(msg)
                && msg@ == e),
    {
        let ghost argv = args_view(args@);
        let ghost okv = checks.args@;
        if !checks.env_bind_addr {
            proof {
                reveal_strlit("invalid bind address");
            }
            return Err(owned("invalid bind address"));
        }
        let mut draft = match settings_from_env(env, static_dir) {
            Ok(d) => d,
            Err(e) => {
                return Err(e);
            },
        };
        let ghost initial = draft@;
        let n = args.len();
        let mut i: usize = 0;
        proof {
            assert(argv.subrange(0, n as int) =~= argv);
            assert(okv.subrange(0, n as int) =~= okv);
        }
        while i < n
            invariant
                n == args.len(),
                argv == args_view(args@),
                okv == checks.args@,
                okv.len() == n,
                i <= n,
                env_settings(*env, static_dir@, checks.env_bind_addr) == Ok::<SettingsModel, Seq<char>>(initial),
                apply_args(draft@, argv.subrange(i as int, n as int), okv.subrange(i as int, n as int))
                    == apply_args(initial, argv, okv),
            decreases n - i,
        {
            let ghost rest = argv.subrange(i as int, n as int);
            let ghost rest_ok = okv.subrange(i as int, n as int);
            let flag = args[i].as_str();
            assert(rest[0] == flag@);
            if is_positional_exec(flag) {
                assert(rest.subrange(1, rest.len() as int) =~= argv.subrange(i + 1, n as int));
                assert(rest_ok.subrange(1, rest_ok.len() as int) =~= okv.subrange(i + 1, n as int));
                draft = SettingsDraft { model_path: owned(flag), ..draft };
                i = i + 1;
                continue;
            }
            if !is_known_flag_exec(flag) {
                return Err(concat2("unknown argument: ", flag));
            }
            if i + 1 >= n {
                return Err(concat2("missing value for ", flag));
            }
            let value = args[i + 1].as_str();
            assert(rest[1] == value@);
            assert(rest.subrange(2, rest.len() as int) =~= argv.subrange(i + 2, n as int));
            assert(rest_ok.subrange(2, rest_ok.len() as int) =~= okv.subrange(i + 2, n as int));
            let value_is_addr = checks.args[i + 1];
            assert(rest_ok[1] == value_is_addr);
            match apply_flag_exec(draft, flag, value, value_is_addr) {
                Ok(d) => {
                    draft = d;
                },
                Err(e) => {
                    return Err(e);
                },
            }
            i = i + 2;
        }
        proof {
            assert(argv.subrange(n as int, n as int).len() == 0);
        }
        let bind_addr = match draft.port {
            Some(p) => bind_addr_with_port(draft.bind_addr.as_str(), p),
            None => draft.bind_addr,
        };
        Ok(
            ServerConfig {
                model_path: draft.model_path,
                static_dir: draft.static_dir,
                bind_addr,
                precision: draft.precision,
                device_preference: draft.device_preference,
                cpu_workers: draft.cpu_workers,
                interleaved_n_text: draft.interleaved_n_text,
                interleaved_n_audio: draft.interleaved_n_audio,
                stream_decode: StreamingDecodeConfig::new(
                    draft.stream_batch_frames,
                    draft.stream_context_frames,
                ),
                interleaved_log_path: draft.interleaved_log_path,
            },
        )
    }
}

} // verus!
