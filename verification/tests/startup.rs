use tapo_rest::cmd::discovery_timeout;
use tapo_rest::startup::{data_dir, StartupError, StartupStep, DATA_DIR_NAME};

fn run(data_dir_exists: bool, outcomes: &[bool]) -> StartupStep {
    let mut step = StartupStep::begin(10, data_dir_exists);
    for &ok in outcomes {
        step = step.after(ok);
    }
    step
}

#[test]
fn the_state_directory_comes_first() {
    assert_eq!(data_dir(Some("state"), Some("local")), Ok("state"));
    assert_eq!(data_dir(None, Some("local")), Ok("local"));
    assert_eq!(data_dir::<&str>(None, None), Err(StartupError::NoDataDir));
}

#[test]
fn serves_once_every_check_came_out_well() {
    assert_eq!(run(true, &[true, true, true]), StartupStep::Discover);
    assert_eq!(run(true, &[true, true, true, true]), StartupStep::Serve);
    assert_eq!(run(true, &[true, true, true, false]), StartupStep::Serve);
    assert_eq!(run(false, &[true, true, true, true, false]), StartupStep::Serve);
    assert_eq!(run(false, &[true, true, true, true]), StartupStep::Discover);
}

#[test]
fn each_check_has_its_error() {
    let failed = StartupStep::Failed;
    assert_eq!(run(false, &[false, true]), failed(StartupError::CreateDataDir));
    assert_eq!(run(true, &[false, true]), failed(StartupError::ConfigNotFound));
    assert_eq!(run(true, &[true, false, true]), failed(StartupError::ReadConfig));
    assert_eq!(run(true, &[true, true, false, true]), failed(StartupError::ParseConfig));
}

#[test]
fn messages_of_a_failed_start() {
    assert_eq!(DATA_DIR_NAME, "tapo-rest");
    let message = |e: StartupError| e.message("/etc/tapo.json");
    assert_eq!(
        message(StartupError::DiscoveryTimeout),
        "The discovery timeout has to be between 1 and 60 seconds"
    );
    assert_eq!(message(StartupError::NoDataDir), "Failed to find a valid local data directory");
    assert_eq!(message(StartupError::CreateDataDir), "Failed to create a local data directory");
    assert_eq!(
        message(StartupError::ConfigNotFound),
        "Configuration was not found at path /etc/tapo.json"
    );
    assert_eq!(
        message(StartupError::ReadConfig),
        "Failed to read the devices configuration file for initial discovery"
    );
    assert_eq!(
        message(StartupError::ParseConfig),
        "Failed to parse the devices configuration file for initial discovery"
    );
}

#[test]
fn a_discovery_timeout_is_between_a_second_and_a_minute() {
    for secs in [1, 10, 60] {
        assert_eq!(discovery_timeout(secs), Some(secs));
        assert_eq!(StartupStep::begin(secs, true), StartupStep::FindConfig);
        assert_eq!(StartupStep::begin(secs, false), StartupStep::CreateDataDir);
    }
    for secs in [0, 61, u64::MAX] {
        assert_eq!(discovery_timeout(secs), None);
        let refused = StartupStep::Failed(StartupError::DiscoveryTimeout);
        assert_eq!(StartupStep::begin(secs, true), refused);
        assert_eq!(StartupStep::begin(secs, false).after(true), refused);
    }
}
