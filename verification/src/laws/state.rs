//! Laws of the server's state.
use std::path::PathBuf;

use vstd::prelude::*;

use crate::config::{Config, TapoConnectionInfos};
use crate::devices::TapoDevice;
use crate::discovery::DeviceCache;
use crate::state;
use crate::state::{LoadedConfig, PeriodicRefresh, StateData};

verus! {

/// The device at `i` is the last one with the given name.
pub open spec fn last_named<S>(devices: Seq<TapoDevice<S>>, name: Seq<char>, i: int) -> bool {
    &&& 0 <= i < devices.len()
    &&& devices[i].conn_infos.name@ == name
    &&& forall|j: int| i < j < devices.len() ==> (#[trigger] devices[j]).conn_infos.name@ != name
}

/// No device has the given name.
pub open spec fn nameless<S>(devices: Seq<TapoDevice<S>>, name: Seq<char>) -> bool {
    forall|j: int| 0 <= j < devices.len() ==> (#[trigger] devices[j]).conn_infos.name@ != name
}

proof fn by_name_is_last<S>(devices: Seq<TapoDevice<S>>, name: Seq<char>)
    ensures
        forall|i: int| #[trigger]
            last_named(devices, name, i) ==> state::by_name(devices).contains_key(name)
                && state::by_name(devices)[name] == devices[i],
        nameless(devices, name) <==> !state::by_name(devices).contains_key(name),
        state::by_name(devices).contains_key(name) ==> exists|i: int| last_named(devices, name, i),
    decreases devices.len(),
{
    if devices.len() > 0 {
        let before = devices.drop_last();
        by_name_is_last(before, name);
        let last = devices.len() - 1;
        assert(forall|j: int| 0 <= j < last ==> #[trigger] devices[j] == before[j]);
        if devices[last].conn_infos.name@ == name {
            assert(last_named(devices, name, last));
            assert(!nameless(devices, name));
            assert forall|i: int| #[trigger] last_named(devices, name, i) implies i == last by {
                if i < last {
                    assert(devices[last].conn_infos.name@ != name);
                }
            }
        } else {
            assert forall|i: int| #[trigger]
                last_named(devices, name, i) implies state::by_name(devices).contains_key(name)
                && state::by_name(devices)[name] == devices[i] by {
                assert(last_named(before, name, i)) by {
                    assert forall|j: int| i < j < before.len() implies (#[trigger] before[j]).conn_infos.name@
                        != name by {
                        assert(devices[j].conn_infos.name@ != name);
                    }
                }
            }
            if state::by_name(devices).contains_key(name) {
                let i = choose|i: int| last_named(before, name, i);
                assert(last_named(devices, name, i)) by {
                    assert forall|j: int| i < j < devices.len() implies (#[trigger] devices[j]).conn_infos.name@
                        != name by {
                        if j < last {
                            assert(before[j].conn_infos.name@ != name);
                        }
                    }
                }
            }
            if nameless(before, name) {
                assert forall|j: int| 0 <= j < devices.len() implies (#[trigger] devices[j]).conn_infos.name@
                    != name by {
                    if j < last {
                        assert(before[j].conn_infos.name@ != name);
                    }
                }
            }
            if nameless(devices, name) {
                assert forall|j: int| 0 <= j < before.len() implies (#[trigger] before[j]).conn_infos.name@
                    != name by {
                    assert(devices[j].conn_infos.name@ != name);
                }
            }
        }
    }
}

/// A name gives the last device that was loaded under it, and nothing only if none was.
pub proof fn name_gives_last_device<S>(
    config: Config,
    devices: Vec<TapoDevice<S>>,
    loaded: LoadedConfig<S>,
    held: &Config,
    name: &str,
    r: Option<&TapoDevice<S>>,
)
    requires
        call_ensures(LoadedConfig::<S>::new, (config, devices), loaded),
        call_ensures(LoadedConfig::<S>::config, (&loaded,), held),
        call_ensures(LoadedConfig::<S>::get, (&loaded, name), r),
    ensures
        *held == config,
        forall|i: int| #[trigger]
            last_named(devices@, name@, i) ==> r is Some && *r->0 == devices@[i],
        r is None <==> nameless(devices@, name@),
{
    by_name_is_last(devices@, name@);
}

/// The list holds the configuration of the last device of every name, and of each name once.
pub proof fn every_name_is_listed_once<S>(
    config: Config,
    devices: Vec<TapoDevice<S>>,
    loaded: LoadedConfig<S>,
    r: Vec<TapoConnectionInfos>,
)
    requires
        call_ensures(LoadedConfig::<S>::new, (config, devices), loaded),
        call_ensures(LoadedConfig::<S>::list_devices, (&loaded,), r),
    ensures
        forall|i: int|
            0 <= i < devices@.len() && last_named(
                devices@,
                (#[trigger] devices@[i]).conn_infos.name@,
                i,
            ) ==> exists|k: int| 0 <= k < r@.len() && #[trigger] r@[k] == devices@[i].conn_infos,
        forall|k: int|
            0 <= k < r@.len() ==> exists|i: int|
                last_named(devices@, (#[trigger] r@[k]).name@, i) && devices@[i].conn_infos == r@[k],
        forall|j: int, k: int|
            0 <= j < k < r@.len() ==> (#[trigger] r@[j]).name@ != (#[trigger] r@[k]).name@,
{
    assert forall|i: int|
        0 <= i < devices@.len() && last_named(
            devices@,
            (#[trigger] devices@[i]).conn_infos.name@,
            i,
        ) implies exists|k: int| 0 <= k < r@.len() && #[trigger] r@[k] == devices@[i].conn_infos by {
        last_is_listed(devices@, r@, i);
    }
    assert forall|k: int| 0 <= k < r@.len() implies exists|i: int|
        last_named(devices@, (#[trigger] r@[k]).name@, i) && devices@[i].conn_infos == r@[k] by {
        listed_is_last(devices@, r@, k);
    }
}

proof fn last_is_listed<S>(devices: Seq<TapoDevice<S>>, list: Seq<TapoConnectionInfos>, i: int)
    requires
        state::lists(list, state::by_name(devices)),
        last_named(devices, devices[i].conn_infos.name@, i),
    ensures
        exists|k: int| 0 <= k < list.len() && #[trigger] list[k] == devices[i].conn_infos,
{
    let name = devices[i].conn_infos.name@;
    by_name_is_last(devices, name);
    let map = state::by_name(devices);
    assert(map.contains_key(name));
    let k = choose|k: int| 0 <= k < list.len() && #[trigger] list[k].name@ == name;
    assert(map[list[k].name@].conn_infos == list[k]);
    assert(list[k] == devices[i].conn_infos);
}

proof fn listed_is_last<S>(devices: Seq<TapoDevice<S>>, list: Seq<TapoConnectionInfos>, k: int)
    requires
        state::lists(list, state::by_name(devices)),
        0 <= k < list.len(),
    ensures
        exists|i: int| last_named(devices, list[k].name@, i) && devices[i].conn_infos == list[k],
{
    let name = list[k].name@;
    by_name_is_last(devices, name);
    assert(state::by_name(devices).contains_key(name));
    let i = choose|i: int| last_named(devices, name, i);
    assert(last_named(devices, name, i) && devices[i].conn_infos == list[k]);
}

/// What was loaded again is what is then found by name and held as the configuration; a failure is
/// handed back and changes nothing.
pub proof fn reload_takes_what_was_loaded<S, E>(
    loaded: &mut LoadedConfig<S>,
    outcome: Result<(Config, Vec<TapoDevice<S>>), E>,
    r: Result<(), E>,
    held: &Config,
    name: &str,
    found: Option<&TapoDevice<S>>,
)
    requires
        call_ensures(LoadedConfig::<S>::reload::<E>, (loaded, outcome), r),
        call_ensures(LoadedConfig::<S>::config, (&*final(loaded),), held),
        call_ensures(LoadedConfig::<S>::get, (&*final(loaded), name), found),
    ensures
        outcome is Err ==> r is Err && r->Err_0 == outcome->Err_0 && *final(loaded) == *old(loaded),
        outcome is Ok ==> {
            let devices = outcome->Ok_0.1@;
            &&& r is Ok
            &&& *held == outcome->Ok_0.0
            &&& forall|i: int| #[trigger]
                last_named(devices, name@, i) ==> found is Some && *found->0 == devices[i]
            &&& found is None <==> nameless(devices, name@)
        },
{
    if outcome is Ok {
        by_name_is_last(outcome->Ok_0.1@, name@);
    }
}

/// The state at the start holds what it was made with, and the account and broadcast target of its
/// configuration; a name gives the last device that was loaded under it.
pub proof fn state_starts_from_configuration<S, K>(
    config_path: PathBuf,
    cache_path: PathBuf,
    config: Config,
    devices: Vec<TapoDevice<S>>,
    cache: K,
    timeout_secs: u64,
    r: StateData<LoadedConfig<S>, K>,
    held: &Config,
    name: &str,
    found: Option<&TapoDevice<S>>,
)
    requires
        call_ensures(
            StateData::<LoadedConfig<S>, K>::init,
            (config_path, cache_path, config, devices, cache, timeout_secs),
            r,
        ),
        call_ensures(LoadedConfig::<S>::config, (&r.loaded_config,), held),
        call_ensures(LoadedConfig::<S>::get, (&r.loaded_config, name), found),
    ensures
        r.config_path == config_path,
        r.cache_path == cache_path,
        r.device_cache == cache,
        r.discovery_timeout_secs == timeout_secs,
        *r.credentials == config.tapo_credentials,
        r.discovery_broadcast == config.discovery_broadcast,
        *held == config,
        forall|i: int| #[trigger]
            last_named(devices@, name@, i) ==> found is Some && *found->0 == devices@[i],
        found is None <==> nameless(devices@, name@),
{
    by_name_is_last(devices@, name@);
}

/// Loading again changes the loaded configuration of the state and nothing else, and nothing at
/// all on a failure.
pub proof fn state_reloads_configuration_only<S, K, E>(
    state: &mut StateData<LoadedConfig<S>, K>,
    outcome: Result<(Config, Vec<TapoDevice<S>>), E>,
    r: Result<(), E>,
    held: &Config,
    name: &str,
    found: Option<&TapoDevice<S>>,
)
    requires
        call_ensures(
            StateData::<LoadedConfig<S>, K>::reload_config::<E>,
            (state, outcome),
            r,
        ),
        call_ensures(LoadedConfig::<S>::config, (&final(state).loaded_config,), held),
        call_ensures(LoadedConfig::<S>::get, (&final(state).loaded_config, name), found),
    ensures
        final(state).config_path == old(state).config_path,
        final(state).cache_path == old(state).cache_path,
        final(state).device_cache == old(state).device_cache,
        final(state).credentials == old(state).credentials,
        final(state).discovery_broadcast == old(state).discovery_broadcast,
        final(state).discovery_timeout_secs == old(state).discovery_timeout_secs,
        outcome is Err ==> r is Err && r->Err_0 == outcome->Err_0 && final(state).loaded_config
            == old(state).loaded_config,
        outcome is Ok ==> {
            let devices = outcome->Ok_0.1@;
            &&& r is Ok
            &&& *held == outcome->Ok_0.0
            &&& forall|i: int| #[trigger]
                last_named(devices, name@, i) ==> found is Some && *found->0 == devices[i]
            &&& found is None <==> nameless(devices, name@)
        },
{
    if outcome is Ok {
        by_name_is_last(outcome->Ok_0.1@, name@);
    }
}

/// A refresh changes the cache of the state, to the refreshed one, and nothing else.
pub proof fn state_takes_refreshed_cache<L>(
    state: &mut StateData<L, DeviceCache>,
    fresh: DeviceCache,
)
    requires
        call_ensures(StateData::<L, DeviceCache>::refresh_cache, (state, fresh), ()),
    ensures
        final(state).device_cache == fresh,
        final(state).config_path == old(state).config_path,
        final(state).loaded_config == old(state).loaded_config,
        final(state).cache_path == old(state).cache_path,
        final(state).credentials == old(state).credentials,
        final(state).discovery_broadcast == old(state).discovery_broadcast,
        final(state).discovery_timeout_secs == old(state).discovery_timeout_secs,
{
}

/// With an interval, whichever it is, the first tick does not refresh and the second one does.
pub proof fn second_tick_refreshes(
    interval_secs: u64,
    started: PeriodicRefresh,
    first: &mut PeriodicRefresh,
    first_refreshes: bool,
    second: &mut PeriodicRefresh,
    second_refreshes: bool,
)
    requires
        call_ensures(PeriodicRefresh::start, (interval_secs,), started),
        call_ensures(PeriodicRefresh::tick, (first,), first_refreshes),
        call_ensures(PeriodicRefresh::tick, (second,), second_refreshes),
        *old(first) == started,
        *old(second) == *final(first),
    ensures
        !first_refreshes,
        second_refreshes <==> interval_secs != 0,
        interval_secs == 0 <==> started == PeriodicRefresh::Disabled,
        interval_secs == 0 ==> *final(second) == started,
{
}

/// Once a tick refreshed, every further one does.
pub proof fn refreshing_goes_on(
    one: &mut PeriodicRefresh,
    refreshes: bool,
    next: &mut PeriodicRefresh,
    next_refreshes: bool,
)
    requires
        call_ensures(PeriodicRefresh::tick, (one,), refreshes),
        call_ensures(PeriodicRefresh::tick, (next,), next_refreshes),
        *old(next) == *final(one),
        refreshes,
    ensures
        next_refreshes,
        *final(next) == *final(one),
{
}

/// Guarding the state guards its loaded configuration and keeps everything else.
pub proof fn guarded_state_is_the_same<L, K, G, F: FnOnce(L) -> G>(
    state: StateData<L, K>,
    guard: F,
    r: StateData<G, K>,
)
    requires
        call_ensures(StateData::<L, K>::guarded::<G, F>, (state, guard), r),
    ensures
        call_ensures(guard, (state.loaded_config,), r.loaded_config),
        r.config_path == state.config_path,
        r.cache_path == state.cache_path,
        r.device_cache == state.device_cache,
        r.credentials == state.credentials,
        r.discovery_broadcast == state.discovery_broadcast,
        r.discovery_timeout_secs == state.discovery_timeout_secs,
{
}

} // verus!
