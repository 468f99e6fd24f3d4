//! The agent's configuration, from its arguments and its file.
use std::path::PathBuf;
use vstd::prelude::*;
use vstd::string::StrSliceExecFns;

verus! {

/// `std::path::PathBuf`, which is only carried along.
#[verifier::external_type_specification]
#[verifier::external_body]
pub struct ExPathBuf(PathBuf);

/// `PathBuf::clone`: a copy is the same path.
pub assume_specification[ <PathBuf as Clone>::clone ](path: &PathBuf) -> (copy: PathBuf)
    ensures
        copy == *path,
;

pub const DEFAULT_FRAMES_PER_SECOND: u32 = 60;

pub const DEFAULT_BITRATE: u32 = 12_000_000;

#[derive(Debug)]
pub struct Config {
    pub config_path: PathBuf,
    pub server: String,
    pub device_id: String,
    pub agent_token: String,
    pub update_manifest_url: String,
    pub frames_per_second: u32,
    pub bitrate_bits_per_second: u32,
    pub json_logs: bool,
}

/// What the agent runs as.
#[derive(Debug, Clone, Copy, PartialEq, Eq, Structural)]
pub enum ExecutionMode {
    Service,
    Worker,
    Console,
}

/// The arguments that matter to the configuration, and what the environment
/// gives in their place.
#[derive(Debug)]
pub struct Arguments {
    pub service: bool,
    pub worker: bool,
    pub console: bool,
    pub server: Option<String>,
    pub device_id: Option<String>,
    pub agent_token: Option<String>,
    pub update_manifest_url: Option<String>,
    pub frames_per_second: Option<u32>,
    pub bitrate_bits_per_second: Option<u32>,
    pub json_logs: bool,
}

/// What a configuration file says.
#[derive(Debug)]
pub struct FileConfig {
    pub server: Option<String>,
    pub device_id: Option<String>,
    pub agent_token: Option<String>,
    pub update_manifest_url: Option<String>,
    pub frames_per_second: Option<u32>,
    pub bitrate_bits_per_second: Option<u32>,
    pub json_logs: Option<bool>,
}

#[derive(Debug, Clone, Copy, PartialEq, Eq, Structural)]
pub enum ConfigError {
    NoMode,
    MissingServer,
    MissingDevice,
    MissingToken,
    /// The update manifest is not where it may be.
    ManifestUrl,
    ZeroRate,
}

impl ConfigError {
    pub open spec fn text_of(self) -> Seq<char> {
        match self {
            ConfigError::NoMode =>
                "this Agent must be installed as a Windows service from the PulseRMM dashboard; use --console only for local development"@,
            ConfigError::MissingServer => "missing server URL in agent.json or --server"@,
            ConfigError::MissingDevice => "missing device ID in agent.json or --device-id"@,
            ConfigError::MissingToken => "missing Agent token in agent.json or --agent-token"@,
            ConfigError::ManifestUrl => "invalid update manifest URL"@,
            ConfigError::ZeroRate => "frame rate and bitrate must be greater than zero"@,
        }
    }

    pub fn message(&self) -> (text: &'static str)
        ensures
            text@ == self.text_of(),
    {
        match self {
            ConfigError::NoMode =>
                "this Agent must be installed as a Windows service from the PulseRMM dashboard; use --console only for local development",
            ConfigError::MissingServer => "missing server URL in agent.json or --server",
            ConfigError::MissingDevice => "missing device ID in agent.json or --device-id",
            ConfigError::MissingToken => "missing Agent token in agent.json or --agent-token",
            ConfigError::ManifestUrl => "invalid update manifest URL",
            ConfigError::ZeroRate => "frame rate and bitrate must be greater than zero",
        }
    }
}

pub open spec fn mode_of(arguments: Arguments) -> Option<ExecutionMode> {
    if arguments.service {
        Some(ExecutionMode::Service)
    } else if arguments.worker {
        Some(ExecutionMode::Worker)
    } else if arguments.console {
        Some(ExecutionMode::Console)
    } else {
        None
    }
}

/// What the agent runs as, if its arguments say so.
pub fn execution_mode(arguments: &Arguments) -> (mode: Result<ExecutionMode, ConfigError>)
    ensures
        mode == (match mode_of(*arguments) {
            Some(found) => Ok::<ExecutionMode, ConfigError>(found),
            None => Err(ConfigError::NoMode),
        }),
{
    if arguments.service {
        Ok(ExecutionMode::Service)
    } else if arguments.worker {
        Ok(ExecutionMode::Worker)
    } else if arguments.console {
        Ok(ExecutionMode::Console)
    } else {
        Err(ConfigError::NoMode)
    }
}

/// An argument goes before the file.
pub open spec fn either<T>(argument: Option<T>, file: Option<T>) -> Option<T> {
    match argument {
        Some(value) => Some(value),
        None => file,
    }
}

pub open spec fn number(argument: Option<u32>, file: Option<u32>, default: u32) -> u32 {
    match either(argument, file) {
        Some(value) => value,
        None => default,
    }
}

fn first<T>(argument: Option<T>, file: Option<T>) -> (value: Option<T>)
    ensures
        value == either(argument, file),
{
    match argument {
        Some(value) => Some(value),
        None => file,
    }
}

fn first_number(argument: Option<u32>, file: Option<u32>, default: u32) -> (value: u32)
    ensures
        value == number(argument, file, default),
{
    match argument {
        Some(value) => value,
        None => match file {
            Some(value) => value,
            None => default,
        },
    }
}

pub open spec fn manifest_of(arguments: Arguments, file: FileConfig, default: Seq<char>) -> Seq<
    char,
> {
    match either(arguments.update_manifest_url, file.update_manifest_url) {
        Some(url) => url@,
        None => default,
    }
}

/// Where the update manifest is.
pub fn manifest_url(arguments: &Arguments, file: &FileConfig, default: &str) -> (url: String)
    ensures
        url@ == manifest_of(*arguments, *file, default@),
{
    match &arguments.update_manifest_url {
        Some(url) => url.clone(),
        None => match &file.update_manifest_url {
            Some(url) => url.clone(),
            None => default.to_owned(),
        },
    }
}

/// Why a configuration is refused, if it is: what is checked first comes first.
pub open spec fn refusal(arguments: Arguments, file: FileConfig, manifest_accepted: bool) -> Option<
    ConfigError,
> {
    if mode_of(arguments) is None {
        Some(ConfigError::NoMode)
    } else if either(arguments.server, file.server) is None {
        Some(ConfigError::MissingServer)
    } else if either(arguments.device_id, file.device_id) is None {
        Some(ConfigError::MissingDevice)
    } else if either(arguments.agent_token, file.agent_token) is None {
        Some(ConfigError::MissingToken)
    } else if !manifest_accepted {
        Some(ConfigError::ManifestUrl)
    } else if number(
        arguments.frames_per_second,
        file.frames_per_second,
        DEFAULT_FRAMES_PER_SECOND,
    ) == 0 || number(
        arguments.bitrate_bits_per_second,
        file.bitrate_bits_per_second,
        DEFAULT_BITRATE,
    ) == 0 {
        Some(ConfigError::ZeroRate)
    } else {
        None
    }
}

impl Clone for Config {
    fn clone(&self) -> (copy: Self)
        ensures
            copy.config_path == self.config_path,
            copy.server@ == self.server@,
            copy.device_id@ == self.device_id@,
            copy.agent_token@ == self.agent_token@,
            copy.update_manifest_url@ == self.update_manifest_url@,
            copy.frames_per_second == self.frames_per_second,
            copy.bitrate_bits_per_second == self.bitrate_bits_per_second,
            copy.json_logs == self.json_logs,
    {
        Config {
            config_path: self.config_path.clone(),
            server: self.server.clone(),
            device_id: self.device_id.clone(),
            agent_token: self.agent_token.clone(),
            update_manifest_url: self.update_manifest_url.clone(),
            frames_per_second: self.frames_per_second,
            bitrate_bits_per_second: self.bitrate_bits_per_second,
            json_logs: self.json_logs,
        }
    }
}

impl Config {
    /// Whether this is what the arguments and the file say.
    pub open spec fn says(
        self,
        arguments: Arguments,
        file: FileConfig,
        config_path: PathBuf,
        default_manifest_url: Seq<char>,
    ) -> bool {
        &&& self.config_path == config_path
        &&& either(arguments.server, file.server) == Some(self.server)
        &&& either(arguments.device_id, file.device_id) == Some(self.device_id)
        &&& either(arguments.agent_token, file.agent_token) == Some(self.agent_token)
        &&& self.update_manifest_url@ == manifest_of(arguments, file, default_manifest_url)
        &&& self.frames_per_second == number(
            arguments.frames_per_second,
            file.frames_per_second,
            DEFAULT_FRAMES_PER_SECOND,
        )
        &&& self.bitrate_bits_per_second == number(
            arguments.bitrate_bits_per_second,
            file.bitrate_bits_per_second,
            DEFAULT_BITRATE,
        )
        &&& self.json_logs == (arguments.json_logs || file.json_logs == Some(true))
    }

    /// Puts the configuration together; `manifest_accepted` is whether the
    /// update manifest may be where `manifest_url` says it is.
    pub fn load(
        arguments: Arguments,
        file: FileConfig,
        config_path: PathBuf,
        default_manifest_url: &str,
        manifest_accepted: bool,
    ) -> (result: Result<(ExecutionMode, Config), ConfigError>)
        ensures
            match result {
                Ok((mode, config)) => refusal(arguments, file, manifest_accepted) is None
                    && mode_of(arguments) == Some(mode) && config.says(
                    arguments,
                    file,
                    config_path,
                    default_manifest_url@,
                ),
                Err(error) => refusal(arguments, file, manifest_accepted) == Some(error),
            },
    {
        let mode = execution_mode(&arguments)?;
        let update_manifest_url = manifest_url(&arguments, &file, default_manifest_url);
        let server = match first(arguments.server, file.server) {
            Some(server) => server,
            None => {
                return Err(ConfigError::MissingServer);
            },
        };
        let device_id = match first(arguments.device_id, file.device_id) {
            Some(device_id) => device_id,
            None => {
                return Err(ConfigError::MissingDevice);
            },
        };
        let agent_token = match first(arguments.agent_token, file.agent_token) {
            Some(agent_token) => agent_token,
            None => {
                return Err(ConfigError::MissingToken);
            },
        };
        if !manifest_accepted {
            return Err(ConfigError::ManifestUrl);
        }
        let frames_per_second: u32 = first_number(
            arguments.frames_per_second,
            file.frames_per_second,
            DEFAULT_FRAMES_PER_SECOND,
        );
        let bitrate_bits_per_second: u32 = first_number(
            arguments.bitrate_bits_per_second,
            file.bitrate_bits_per_second,
            DEFAULT_BITRATE,
        );
        if frames_per_second == 0 || bitrate_bits_per_second == 0 {
            return Err(ConfigError::ZeroRate);
        }
        let file_json = match file.json_logs {
            Some(json) => json,
            None => false,
        };
        Ok(
            (
                mode,
                Config {
                    config_path,
                    server,
                    device_id,
                    agent_token,
                    update_manifest_url,
                    frames_per_second,
                    bitrate_bits_per_second,
                    json_logs: arguments.json_logs || file_json,
                },
            ),
        )
    }
}

/// A configuration that is accepted can be streamed with: it has a frame rate
/// and a bitrate.
pub proof fn accepted_rates_are_positive(
    config: Config,
    arguments: Arguments,
    file: FileConfig,
    config_path: PathBuf,
    default_manifest_url: Seq<char>,
    manifest_accepted: bool,
)
    requires
        refusal(arguments, file, manifest_accepted) is None,
        config.says(arguments, file, config_path, default_manifest_url),
    ensures
        config.frames_per_second > 0,
        config.bitrate_bits_per_second > 0,
{
}

/// Whether the configuration file is read; only the default one may be missing.
pub fn reads_file(explicit: bool, exists: bool) -> (reads: bool)
    ensures
        reads == (explicit || exists),
{
    explicit || exists
}

/// A text without the byte order marks before it.
pub open spec fn without_marks(contents: Seq<char>) -> Seq<char>
    decreases contents.len(),
{
    if contents.len() > 0 && contents[0] == '\u{feff}' {
        without_marks(contents.skip(1))
    } else {
        contents
    }
}

proof fn lemma_marks(contents: Seq<char>, at: int)
    requires
        0 <= at <= contents.len(),
        forall|i: int| 0 <= i < at ==> contents[i] == '\u{feff}',
        at < contents.len() ==> contents[at] != '\u{feff}',
    ensures
        without_marks(contents) == contents.skip(at),
    decreases at,
{
    if at > 0 {
        lemma_marks(contents.skip(1), at - 1);
        assert(contents.skip(1).skip(at - 1) =~= contents.skip(at));
    } else {
        assert(contents.skip(0) =~= contents);
    }
}

/// The JSON in a configuration file, which editors may have marked.
pub fn file_json(contents: &str) -> (json: &str)
    ensures
        json@ == without_marks(contents@),
{
    let total: usize = contents.unicode_len();
    let mut at: usize = 0;
    while at < total && contents.get_char(at) == '\u{feff}'
        invariant
            at <= total,
            total == contents@.len(),
            forall|i: int| 0 <= i < at ==> contents@[i] == '\u{feff}',
        decreases total - at,
    {
        at += 1;
    }
    proof {
        lemma_marks(contents@, at as int);
        assert(contents@.subrange(at as int, total as int) =~= contents@.skip(at as int));
    }
    contents.substring_char(at, total)
}

/// An argument decides wherever it is given, whatever the file says; the file
/// decides otherwise, and only what neither gives is left to the default.
pub proof fn arguments_go_before_the_file<T>(
    argument: T,
    file: Option<T>,
    rate: u32,
    file_rate: Option<u32>,
    default: u32,
)
    ensures
        either(Some(argument), file) == Some(argument),
        either(None, file) == file,
        number(Some(rate), file_rate, default) == rate,
        number(None, Some(rate), default) == rate,
        number(None, None, default) == default,
{
}

/// A service is a service whatever else it is asked to be, and a worker is no
/// console; without any of the three the agent does not run.
pub proof fn modes_have_an_order(arguments: Arguments)
    ensures
        mode_of(arguments) == Some(ExecutionMode::Service) <==> arguments.service,
        mode_of(arguments) == Some(ExecutionMode::Worker) <==> arguments.worker
            && !arguments.service,
        mode_of(arguments) == Some(ExecutionMode::Console) <==> arguments.console
            && !arguments.worker && !arguments.service,
        mode_of(arguments) is None <==> !arguments.console && !arguments.worker
            && !arguments.service,
{
}

/// A configuration is accepted exactly when it says what the agent runs as, where
/// it connects, as which device and with which token, when the update manifest may
/// be where it is, and when neither rate is zero. What is refused is refused for
/// something that it lacks.
pub proof fn configurations_need_all_of_it(
    arguments: Arguments,
    file: FileConfig,
    manifest_accepted: bool,
)
    ensures
        ({
            let refused = refusal(arguments, file, manifest_accepted);
            let runs = arguments.service || arguments.worker || arguments.console;
            let server = arguments.server is Some || file.server is Some;
            let device = arguments.device_id is Some || file.device_id is Some;
            let token = arguments.agent_token is Some || file.agent_token is Some;
            let still = arguments.frames_per_second == Some(0u32) || (arguments.frames_per_second
                is None && file.frames_per_second == Some(0u32))
                || arguments.bitrate_bits_per_second == Some(0u32) || (
            arguments.bitrate_bits_per_second is None && file.bitrate_bits_per_second == Some(
                0u32,
            ));
            &&& refused is None <==> runs && server && device && token && manifest_accepted
                && !still
            &&& refused == Some(ConfigError::NoMode) <==> !runs
            &&& refused == Some(ConfigError::MissingServer) <==> runs && !server
            &&& refused == Some(ConfigError::MissingDevice) <==> runs && server && !device
            &&& refused == Some(ConfigError::MissingToken) <==> runs && server && device && !token
            &&& refused == Some(ConfigError::ManifestUrl) <==> runs && server && device && token
                && !manifest_accepted
            &&& refused == Some(ConfigError::ZeroRate) <==> runs && server && device && token
                && manifest_accepted && still
        }),
{
}

/// What a configuration holds is what it was given: each argument where there is
/// one, what the file says where there is none, and the defaults, sixty frames
/// and twelve million bits a second, where there is neither. Logs are JSON where
/// either asks for it.
pub proof fn configurations_hold_what_was_given(
    config: Config,
    arguments: Arguments,
    file: FileConfig,
    config_path: PathBuf,
    default_manifest_url: Seq<char>,
)
    requires
        config.says(arguments, file, config_path, default_manifest_url),
    ensures
        config.config_path == config_path,
        arguments.server matches Some(server) ==> config.server == server,
        arguments.server is None ==> file.server == Some(config.server),
        arguments.device_id matches Some(device) ==> config.device_id == device,
        arguments.device_id is None ==> file.device_id == Some(config.device_id),
        arguments.agent_token matches Some(token) ==> config.agent_token == token,
        arguments.agent_token is None ==> file.agent_token == Some(config.agent_token),
        arguments.update_manifest_url matches Some(url) ==> config.update_manifest_url@ == url@,
        arguments.update_manifest_url is None ==> config.update_manifest_url@ == (
        match file.update_manifest_url {
            Some(url) => url@,
            None => default_manifest_url,
        }),
        arguments.frames_per_second matches Some(rate) ==> config.frames_per_second == rate,
        arguments.frames_per_second is None ==> config.frames_per_second == (
        match file.frames_per_second {
            Some(rate) => rate,
            None => 60u32,
        }),
        arguments.bitrate_bits_per_second matches Some(rate) ==> config.bitrate_bits_per_second
            == rate,
        arguments.bitrate_bits_per_second is None ==> config.bitrate_bits_per_second == (
        match file.bitrate_bits_per_second {
            Some(rate) => rate,
            None => 12_000_000u32,
        }),
        config.json_logs <==> arguments.json_logs || file.json_logs == Some(true),
{
}

/// Byte order marks before a text are not part of it, however many there are;
/// those inside it are.
pub proof fn marks_are_no_text(marks: Seq<char>, contents: Seq<char>)
    requires
        forall|i: int| 0 <= i < marks.len() ==> marks[i] as int == 0xfeff,
        contents.len() > 0 ==> contents[0] as int != 0xfeff,
    ensures
        without_marks(marks + contents) == contents,
{
    let whole = marks + contents;
    assert forall|i: int| 0 <= i < marks.len() implies whole[i] == '\u{feff}' by {
        assert(whole[i] == marks[i]);
    }
    if contents.len() > 0 {
        assert(whole[marks.len() as int] == contents[0]);
    }
    lemma_marks(whole, marks.len() as int);
    assert(whole.skip(marks.len() as int) =~= contents);
}

/// A configuration that is refused is told what it lacks.
pub proof fn refusals_say_what_is_missing(error: ConfigError)
    ensures
        error == ConfigError::NoMode ==> error.text_of()
            == "this Agent must be installed as a Windows service from the PulseRMM dashboard; use --console only for local development"@,
        error == ConfigError::MissingServer ==> error.text_of()
            == "missing server URL in agent.json or --server"@,
        error == ConfigError::MissingDevice ==> error.text_of()
            == "missing device ID in agent.json or --device-id"@,
        error == ConfigError::MissingToken ==> error.text_of()
            == "missing Agent token in agent.json or --agent-token"@,
        error == ConfigError::ManifestUrl ==> error.text_of() == "invalid update manifest URL"@,
        error == ConfigError::ZeroRate ==> error.text_of()
            == "frame rate and bitrate must be greater than zero"@,
{
}

} // verus!
