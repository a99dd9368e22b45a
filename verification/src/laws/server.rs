//! Laws of the server, its start and its arguments.
use vstd::prelude::*;

use crate::cmd;
use crate::server;
use crate::server::{Admission, Route, Verb};
use crate::startup;
use crate::startup::{StartupError, StartupStep};
use crate::text;

verus! {

/// The verb and the path of every route.
pub proof fn routes_are_where_they_are(route: &Route, verb: Option<Verb>, path: &'static str)
    requires
        call_ensures(Route::verb, (route,), verb),
        call_ensures(Route::path, (route,), path),
    ensures
        path@ == "/reload-config"@ && verb == Some(Verb::Post) <==> *route == Route::ReloadConfig,
        path@ == "/refresh-session"@ && verb == Some(Verb::Get) <==> *route
            == Route::RefreshSession,
        path@ == "/devices"@ && verb == Some(Verb::Get) <==> *route == Route::Devices,
        path@ == "/actions"@ && verb is None <==> *route == Route::Actions,
        path@ == "/login"@ && verb == Some(Verb::Post) <==> *route == Route::Login,
        path@ == "/actions"@ && verb == Some(Verb::Get) <==> *route == Route::ActionList,
{
    reveal_strlit("/reload-config");
    reveal_strlit("/refresh-session");
    reveal_strlit("/devices");
    reveal_strlit("/actions");
    reveal_strlit("/login");
    assert("/reload-config"@[1] == 'r' && "/reload-config"@[3] == 'l');
    assert("/refresh-session"@[1] == 'r' && "/refresh-session"@[3] == 'f');
    assert("/devices"@[1] == 'd');
    assert("/actions"@[1] == 'a');
    assert("/login"@[1] == 'l');
}

/// All routes but the login and the list of actions need a session: without one a request for them
/// is refused, and every other request is handled.
pub proof fn session_is_needed_by_all_but_two(
    route: &Route,
    is_protected: bool,
    authenticated: bool,
    r: Admission,
)
    requires
        call_ensures(Route::is_protected, (route,), is_protected),
        call_ensures(Route::decide, (route, authenticated), r),
    ensures
        is_protected <==> *route != Route::Login && *route != Route::ActionList,
        r == Admission::Refuse <==> is_protected && !authenticated,
{
}

/// The server listens on every interface at the given port.
pub proof fn server_listens_on_port(port: u16, r: String, digits: String)
    requires
        call_ensures(server::listen_address, (port,), r),
        call_ensures(text::to_decimal, (port as u64,), digits),
    ensures
        r@ == "0.0.0.0:"@ + digits@,
{
}

/// Every action is on a line of its own.
pub proof fn actions_are_on_lines(uris: &Vec<String>, r: String, lines: String, newline: &str)
    requires
        call_ensures(server::action_list, (uris,), r),
        call_ensures(text::join, (uris, newline), lines),
        newline@ == seq!['\n'],
    ensures
        r@ == lines@,
{
    reveal_strlit("\n");
    assert("\n"@ =~= seq!['\n']);
}

/// A reload is answered with `OK`, or with the error.
pub proof fn reload_is_answered(outcome: &Result<(), String>, r: String)
    requires
        call_ensures(server::reload_config, (outcome,), r),
    ensures
        *outcome is Ok ==> r@ == "OK"@,
        *outcome is Err ==> r@ == "Error: "@ + (*outcome)->Err_0@,
{
}

/// Every timeout of a second to a minute is taken as it is, and no other.
pub proof fn timeouts_up_to_a_minute_are_taken(secs: u64, r: Option<u64>)
    requires
        call_ensures(cmd::discovery_timeout, (secs,), r),
    ensures
        1 <= secs && secs <= 60 ==> r == Some(secs),
        secs == 0 || secs > 60 ==> r is None,
{
}

/// The directory for state is used if there is one, or else that for local data; without either the
/// program does not start.
pub proof fn state_directory_comes_first<P>(
    state_dir: Option<P>,
    data_local_dir: Option<P>,
    r: Result<P, StartupError>,
)
    requires
        call_ensures(startup::data_dir::<P>, (state_dir, data_local_dir), r),
    ensures
        state_dir is Some ==> r is Ok && r->Ok_0 == state_dir->0,
        state_dir is None && data_local_dir is Some ==> r is Ok && r->Ok_0 == data_local_dir->0,
        state_dir is None && data_local_dir is None ==> r is Err && r->Err_0
            == StartupError::NoDataDir,
{
}

/// With a timeout of a second to a minute the program creates its data directory, if that is not
/// there, and looks for its configuration; with any other it does not start.
pub proof fn start_needs_a_timeout(timeout_secs: u64, data_dir_exists: bool, r: StartupStep)
    requires
        call_ensures(StartupStep::begin, (timeout_secs, data_dir_exists), r),
    ensures
        1 <= timeout_secs && timeout_secs <= 60 && data_dir_exists ==> r == StartupStep::FindConfig,
        1 <= timeout_secs && timeout_secs <= 60 && !data_dir_exists ==> r
            == StartupStep::CreateDataDir,
        timeout_secs == 0 || timeout_secs > 60 ==> r == StartupStep::Failed(
            StartupError::DiscoveryTimeout,
        ),
{
}

/// The steps of the start come one after the other, and each but the discovery fails the start when
/// it fails.
pub proof fn start_goes_through_its_steps(step: StartupStep, ok: bool, r: StartupStep)
    requires
        call_ensures(StartupStep::after, (step, ok), r),
    ensures
        step == StartupStep::CreateDataDir ==> r == (if ok {
            StartupStep::FindConfig
        } else {
            StartupStep::Failed(StartupError::CreateDataDir)
        }),
        step == StartupStep::FindConfig ==> r == (if ok {
            StartupStep::ReadConfig
        } else {
            StartupStep::Failed(StartupError::ConfigNotFound)
        }),
        step == StartupStep::ReadConfig ==> r == (if ok {
            StartupStep::ParseConfig
        } else {
            StartupStep::Failed(StartupError::ReadConfig)
        }),
        step == StartupStep::ParseConfig ==> r == (if ok {
            StartupStep::Discover
        } else {
            StartupStep::Failed(StartupError::ParseConfig)
        }),
        step == StartupStep::Discover ==> r == StartupStep::Serve,
        step == StartupStep::Serve || step is Failed ==> r == step,
{
}

/// The messages of a start that failed.
pub proof fn failed_start_is_explained(error: &StartupError, config_path: &str, r: String)
    requires
        call_ensures(StartupError::message, (error, config_path), r),
    ensures
        *error == StartupError::DiscoveryTimeout ==> r@
            == "The discovery timeout has to be between 1 and 60 seconds"@,
        *error == StartupError::NoDataDir ==> r@ == "Failed to find a valid local data directory"@,
        *error == StartupError::CreateDataDir ==> r@ == "Failed to create a local data directory"@,
        *error == StartupError::ConfigNotFound ==> r@ == "Configuration was not found at path "@
            + config_path@,
        *error == StartupError::ReadConfig ==> r@
            == "Failed to read the devices configuration file for initial discovery"@,
        *error == StartupError::ParseConfig ==> r@
            == "Failed to parse the devices configuration file for initial discovery"@,
{
}

/// What the arguments are when they are not given, and where the program keeps its data.
pub proof fn defaults_and_places()
    ensures
        cmd::DEFAULT_DISCOVERY_INTERVAL_SECS == 300,
        cmd::DEFAULT_DISCOVERY_TIMEOUT_SECS == 10,
        startup::DATA_DIR_NAME@ == "tapo-rest"@,
        crate::discovery::CACHE_FILE_NAME@ == "tapo_devices.json"@,
{
}

} // verus!
