//! The start of the program: the checks and the first discovery that come before the server.
use vstd::prelude::*;

use crate::cmd;

verus! {

/// The name of the program's data directory.
pub const DATA_DIR_NAME: &'static str = "tapo-rest";

/// Why the program did not start.
#[derive(Clone, Copy, Debug, PartialEq, Eq, Structural)]
pub enum StartupError {
    DiscoveryTimeout,
    NoDataDir,
    CreateDataDir,
    ConfigNotFound,
    ReadConfig,
    ParseConfig,
}

impl StartupError {
    /// The message for the error; `config_path` is the path of the configuration file.
    pub fn message(&self, config_path: &str) -> (r: String)
        ensures
            r@ == (match *self {
                StartupError::DiscoveryTimeout =>
                    "The discovery timeout has to be between 1 and 60 seconds"@,
                StartupError::NoDataDir => "Failed to find a valid local data directory"@,
                StartupError::CreateDataDir => "Failed to create a local data directory"@,
                StartupError::ConfigNotFound => "Configuration was not found at path "@
                    + config_path@,
                StartupError::ReadConfig =>
                    "Failed to read the devices configuration file for initial discovery"@,
                StartupError::ParseConfig =>
                    "Failed to parse the devices configuration file for initial discovery"@,
            }),
    {
        match self {
            StartupError::DiscoveryTimeout =>
                "The discovery timeout has to be between 1 and 60 seconds".to_owned(),
            StartupError::NoDataDir => "Failed to find a valid local data directory".to_owned(),
            StartupError::CreateDataDir => "Failed to create a local data directory".to_owned(),
            StartupError::ConfigNotFound => {
                let mut r: String = "Configuration was not found at path ".to_owned();
                r.append(config_path);
                r
            },
            StartupError::ReadConfig =>
                "Failed to read the devices configuration file for initial discovery".to_owned(),
            StartupError::ParseConfig =>
                "Failed to parse the devices configuration file for initial discovery".to_owned(),
        }
    }
}

/// The directory that the program's data directory goes to: the one for state, or else the one for
/// local data.
pub fn data_dir<P>(state_dir: Option<P>, data_local_dir: Option<P>) -> (r: Result<P, StartupError>)
    ensures
        r == (match (state_dir, data_local_dir) {
            (Some(dir), _) => Ok::<P, StartupError>(dir),
            (None, Some(dir)) => Ok(dir),
            (None, None) => Err(StartupError::NoDataDir),
        }),
{
    match state_dir {
        Some(dir) => Ok(dir),
        None => match data_local_dir {
            Some(dir) => Ok(dir),
            None => Err(StartupError::NoDataDir),
        },
    }
}

/// Where the start of the program stands: the step to take next, or how it ended.
#[derive(Clone, Copy, Debug, PartialEq, Eq, Structural)]
pub enum StartupStep {
    /// Create the data directory.
    CreateDataDir,
    /// See whether the configuration file is there.
    FindConfig,
    /// Read the configuration file.
    ReadConfig,
    /// Parse the configuration file.
    ParseConfig,
    /// Run the first discovery, with the account and the broadcast target of the configuration.
    Discover,
    /// Serve.
    Serve,
    /// The program does not start.
    Failed(StartupError),
}

impl StartupStep {
    /// The first step, for the discovery timeout and once the data directory is known.
    pub open spec fn at_start(timeout_secs: u64, data_dir_exists: bool) -> StartupStep {
        if !(1 <= timeout_secs <= 60) {
            StartupStep::Failed(StartupError::DiscoveryTimeout)
        } else if data_dir_exists {
            StartupStep::FindConfig
        } else {
            StartupStep::CreateDataDir
        }
    }

    /// The step that follows, once this one came out well (`ok`) or not.
    pub open spec fn following(self, ok: bool) -> StartupStep {
        match self {
            StartupStep::CreateDataDir => if ok {
                StartupStep::FindConfig
            } else {
                StartupStep::Failed(StartupError::CreateDataDir)
            },
            StartupStep::FindConfig => if ok {
                StartupStep::ReadConfig
            } else {
                StartupStep::Failed(StartupError::ConfigNotFound)
            },
            StartupStep::ReadConfig => if ok {
                StartupStep::ParseConfig
            } else {
                StartupStep::Failed(StartupError::ReadConfig)
            },
            StartupStep::ParseConfig => if ok {
                StartupStep::Discover
            } else {
                StartupStep::Failed(StartupError::ParseConfig)
            },
            StartupStep::Discover => StartupStep::Serve,
            ended => ended,
        }
    }

    /// Begins the start of the program, once the data directory is known. With a timeout that no
    /// discovery can be run with, the program does not start.
    pub fn begin(timeout_secs: u64, data_dir_exists: bool) -> (r: Self)
        ensures
            r == StartupStep::at_start(timeout_secs, data_dir_exists),
    {
        if cmd::discovery_timeout(timeout_secs).is_none() {
            StartupStep::Failed(StartupError::DiscoveryTimeout)
        } else if data_dir_exists {
            StartupStep::FindConfig
        } else {
            StartupStep::CreateDataDir
        }
    }

    /// The step that follows, once this one came out well (`ok`) or not. A discovery that finds
    /// nothing, or fails, stops nothing.
    pub fn after(self, ok: bool) -> (r: Self)
        ensures
            r == self.following(ok),
    {
        match self {
            StartupStep::CreateDataDir => if ok {
                StartupStep::FindConfig
            } else {
                StartupStep::Failed(StartupError::CreateDataDir)
            },
            StartupStep::FindConfig => if ok {
                StartupStep::ReadConfig
            } else {
                StartupStep::Failed(StartupError::ConfigNotFound)
            },
            StartupStep::ReadConfig => if ok {
                StartupStep::ParseConfig
            } else {
                StartupStep::Failed(StartupError::ReadConfig)
            },
            StartupStep::ParseConfig => if ok {
                StartupStep::Discover
            } else {
                StartupStep::Failed(StartupError::ParseConfig)
            },
            StartupStep::Discover => StartupStep::Serve,
            ended => ended,
        }
    }
}

/// Where the start stands after steps with the given outcomes.
pub open spec fn startup_run(
    timeout_secs: u64,
    data_dir_exists: bool,
outcomes: Seq<bool>,
) -> StartupStep
    decreases outcomes.len(),
{
    if outcomes.len() == 0 {
        StartupStep::at_start(timeout_secs, data_dir_exists)
    } else {
        startup_run(timeout_secs, data_dir_exists, outcomes.drop_last()).following(outcomes.last())
    }
}

/// How many steps come before the first discovery.
pub open spec fn checks(data_dir_exists: bool) -> nat {
    if data_dir_exists {
        3
    } else {
        4
    }
}

/// The program serves exactly if the discovery timeout is one that a discovery can be run with and
/// every check came out well, and only after the first discovery; what came of the discovery does
/// not matter. With any other timeout no discovery is run.
pub proof fn serves_after_all_checks(
    timeout_secs: u64,
    data_dir_exists: bool,
    outcomes: Seq<bool>,
)
    ensures
        startup_run(timeout_secs, data_dir_exists, outcomes) == StartupStep::Serve <==> (1
            <= timeout_secs <= 60 && outcomes.len() > checks(data_dir_exists) && forall|i: int|
            0 <= i < checks(data_dir_exists) ==> outcomes[i]),
        startup_run(timeout_secs, data_dir_exists, outcomes) == StartupStep::Discover ==> 1
            <= timeout_secs <= 60,
{
    startup_progress(timeout_secs, data_dir_exists, outcomes);
}

/// The steps in their order, when none fails.
spec fn startup_step(k: int, data_dir_exists: bool) -> StartupStep {
    let n = checks(data_dir_exists);
    if k == n {
        StartupStep::Discover
    } else if k == n - 1 {
        StartupStep::ParseConfig
    } else if k == n - 2 {
        StartupStep::ReadConfig
    } else if k == n - 3 {
        StartupStep::FindConfig
    } else {
        StartupStep::CreateDataDir
    }
}

proof fn startup_progress(timeout_secs: u64, data_dir_exists: bool, outcomes: Seq<bool>)
    ensures
        ({
            let n = checks(data_dir_exists);
            let step = startup_run(timeout_secs, data_dir_exists, outcomes);
            if !(1 <= timeout_secs <= 60) {
                step == StartupStep::Failed(StartupError::DiscoveryTimeout)
            } else if exists|i: int| 0 <= i < n && i < outcomes.len() && !outcomes[i] {
                step is Failed
            } else if outcomes.len() <= n {
                step == startup_step(outcomes.len() as int, data_dir_exists)
            } else {
                step == StartupStep::Serve
            }
        }),
    decreases outcomes.len(),
{
    let n = checks(data_dir_exists);
    if outcomes.len() > 0 {
        let before = outcomes.drop_last();
        startup_progress(timeout_secs, data_dir_exists, before);
        assert(forall|i: int| 0 <= i < before.len() ==> before[i] == outcomes[i]);
        if exists|i: int| 0 <= i < n && i < before.len() && !before[i] {
            let i = choose|i: int| 0 <= i < n && i < before.len() && !before[i];
            assert(!outcomes[i]);
        } else if before.len() < n && !outcomes.last() {
            assert(!outcomes[before.len() as int]);
        }
    }
}

} // verus!
