//! The server's state: the loaded configuration with its devices by name, and the periodic
//! refresh of the discovery cache.
use std::path::PathBuf;
use std::sync::Arc;

use vstd::prelude::*;

use crate::config::{Config, TapoConnectionInfos, TapoCredentials};
use crate::devices::TapoDevice;
use crate::discovery::DeviceCache;
use crate::text;

verus! {

/// The names of the devices, in order.
pub open spec fn names<S>(devices: Seq<TapoDevice<S>>) -> Seq<Seq<char>> {
    Seq::new(devices.len(), |i: int| devices[i].conn_infos.name@)
}

/// The devices by name; of those with the same name, the last one.
pub open spec fn by_name<S>(devices: Seq<TapoDevice<S>>) -> Map<Seq<char>, TapoDevice<S>>
    decreases devices.len(),
{
    if devices.len() == 0 {
        Map::<Seq<char>, TapoDevice<S>>::empty()
    } else {
        by_name(devices.drop_last()).insert(devices.last().conn_infos.name@, devices.last())
    }
}

/// A configuration with its devices by name.
#[derive(Debug)]
pub struct LoadedConfig<S> {
    config: Config,
    /// The devices, no two of the same name.
    devices: Vec<TapoDevice<S>>,
}

impl<S> View for LoadedConfig<S> {
    type V = Map<Seq<char>, TapoDevice<S>>;

    closed spec fn view(&self) -> Map<Seq<char>, TapoDevice<S>> {
        by_name(self.devices@)
    }
}

impl<S> LoadedConfig<S> {
    #[verifier::type_invariant]
    spec fn names_are_distinct(self) -> bool {
        text::distinct(names(self.devices@))
    }

    /// The configuration that was loaded.
    pub closed spec fn loaded(self) -> Config {
        self.config
    }

    /// The configuration with the given devices, by name. Of devices with the same name the last
    /// one counts.
    pub fn new(config: Config, devices: Vec<TapoDevice<S>>) -> (r: Self)
        ensures
            r.loaded() == config,
            r@ == by_name(devices@),
    {
        let ghost all = devices@;
        let mut rows: Vec<TapoDevice<S>> = Vec::new();
        for device in it: devices
            invariant
                it.seq() == all,
                text::distinct(names(rows@)),
                by_name(rows@) == by_name(all.take(it.index())),
        {
            let ghost before = rows@;
            assert(all.take(it.index() + 1).drop_last() == all.take(it.index()));
            match Self::index_of(&rows, &device.conn_infos.name) {
                Some(i) => {
                    rows.set(i, device);
                    proof {
                        replaced_by_name(before, i as int, device);
                    }
                },
                None => {
                    rows.push(device);
                    proof {
                        text::position_is_first(names(before), device.conn_infos.name@);
                        assert(names(rows@) == names(before).push(device.conn_infos.name@));
                        assert(rows@.drop_last() == before);
                    }
                },
            }
        }
        assert(all.take(all.len() as int) == all);
        LoadedConfig { config, devices: rows }
    }

    fn index_of(rows: &Vec<TapoDevice<S>>, name: &String) -> (r: Option<usize>)
        ensures
            r is Some <==> text::position(names(rows@), name@) is Some,
            r is Some ==> r->0 == text::position(names(rows@), name@)->0 && r->0 < rows@.len()
                && names(rows@)[r->0 as int] == name@,
    {
        let ghost keys = names(rows@);
        let mut i: usize = 0;
        while i < rows.len()
            invariant
                i <= rows@.len(),
                keys == names(rows@),
                forall|j: int| 0 <= j < i ==> keys[j] != name@,
            decreases rows@.len() - i,
        {
            if rows[i].conn_infos.name == *name {
                proof {
                    text::first_is_position(keys, name@, i as int);
                }
                return Some(i);
            }
            i = i + 1;
        }
        proof {
            text::position_is_first(keys, name@);
        }
        None
    }

    /// The configuration.
    pub fn config(&self) -> (r: &Config)
        ensures
            *r == self.loaded(),
    {
        &self.config
    }

    /// The device with the given name.
    pub fn get(&self, name: &str) -> (r: Option<&TapoDevice<S>>)
        ensures
            r is Some <==> self@.contains_key(name@),
            r is Some ==> *r->0 == self@[name@],
    {
        proof {
            use_type_invariant(self);
            text::position_is_first(names(self.devices@), name@);
            by_name_of_distinct(self.devices@, name@);
        }
        let key: String = name.to_owned();
        match Self::index_of(&self.devices, &key) {
            Some(i) => Some(&self.devices[i]),
            None => None,
        }
    }

    /// The configuration of every device, in no order.
    pub fn list_devices(&self) -> (r: Vec<TapoConnectionInfos>)
        ensures
            lists(r@, self@),
    {
        proof {
            use_type_invariant(self);
        }
        let mut r: Vec<TapoConnectionInfos> = Vec::new();
        let mut i: usize = 0;
        while i < self.devices.len()
            invariant
                i <= self.devices@.len(),
                r@.len() == i,
                forall|k: int| 0 <= k < i ==> #[trigger] r@[k] == self.devices@[k].conn_infos,
            decreases self.devices@.len() - i,
        {
            r.push(self.devices[i].conn_infos().clone());
            i = i + 1;
        }
        proof {
            let rows = self.devices@;
            assert forall|k: int| 0 <= k < r@.len() implies self@.contains_key(
                #[trigger] r@[k].name@,
            ) && self@[r@[k].name@].conn_infos == r@[k] by {
                by_name_of_distinct(rows, names(rows)[k]);
                text::first_is_position(names(rows), names(rows)[k], k);
            }
            assert forall|name: Seq<char>| #[trigger] self@.contains_key(name) implies exists|k: int|
                0 <= k < r@.len() && #[trigger] r@[k].name@ == name by {
                by_name_of_distinct(rows, name);
                text::position_is_first(names(rows), name);
                let k = text::position(names(rows), name)->0;
                assert(r@[k].name@ == name);
            }
            assert forall|i: int, j: int| 0 <= i < j < r@.len() implies #[trigger] r@[i].name@
                != #[trigger] r@[j].name@ by {
                assert(names(rows)[i] != names(rows)[j]);
            }
        }
        r
    }

    /// Takes in the outcome of loading the configuration again: what was loaded takes the place of
    /// the configuration and its devices, and a failure is handed back and changes nothing.
    pub fn reload<E>(&mut self, outcome: Result<(Config, Vec<TapoDevice<S>>), E>) -> (r: Result<
        (),
        E,
    >)
        ensures
            match outcome {
                Ok(fresh) => r == Ok::<(), E>(()) && final(self).loaded() == fresh.0 && final(self)@
                    == by_name(fresh.1@),
                Err(e) => r == Err::<(), E>(e) && *final(self) == *old(self),
            },
    {
        match outcome {
            Ok((config, devices)) => {
                *self = LoadedConfig::new(config, devices);
                Ok(())
            },
            Err(e) => Err(e),
        }
    }
}

/// The list holds the configuration of each device once.
pub open spec fn lists<S>(
    list: Seq<TapoConnectionInfos>,
    devices: Map<Seq<char>, TapoDevice<S>>,
) -> bool {
    &&& forall|i: int, j: int|
        0 <= i < j < list.len() ==> #[trigger] list[i].name@ != #[trigger] list[j].name@
    &&& forall|i: int|
        0 <= i < list.len() ==> devices.contains_key(#[trigger] list[i].name@)
            && devices[list[i].name@].conn_infos == list[i]
    &&& forall|name: Seq<char>| #[trigger]
        devices.contains_key(name) ==> exists|i: int|
            0 <= i < list.len() && #[trigger] list[i].name@ == name
}

/// A name gives a device exactly if there is one of that name, and then the last one.
pub proof fn by_name_gives_last<S>(devices: Seq<TapoDevice<S>>, name: Seq<char>)
    ensures
        by_name(devices).contains_key(name) <==> exists|i: int|
            0 <= i < devices.len() && #[trigger] devices[i].conn_infos.name@ == name,
        forall|i: int|
            0 <= i < devices.len() && #[trigger] devices[i].conn_infos.name@ == name && (forall|
                j: int,
            |
                i < j < devices.len() ==> #[trigger] devices[j].conn_infos.name@ != name)
                ==> by_name(devices)[name] == devices[i],
    decreases devices.len(),
{
    if devices.len() > 0 {
        let before = devices.drop_last();
        by_name_gives_last(before, name);
        assert(forall|i: int| 0 <= i < before.len() ==> before[i] == devices[i]);
        assert(devices[devices.len() - 1] == devices.last());
        if by_name(before).contains_key(name) {
            let i = choose|i: int|
                0 <= i < before.len() && #[trigger] before[i].conn_infos.name@ == name;
            assert(devices[i].conn_infos.name@ == name);
        }
        assert forall|i: int|
            0 <= i < devices.len() && #[trigger] devices[i].conn_infos.name@ == name && (forall|
                j: int,
            |
                i < j < devices.len() ==> #[trigger] devices[j].conn_infos.name@ != name) implies by_name(
            devices,
        )[name] == devices[i] by {
            if i < before.len() {
                assert(before[i].conn_infos.name@ == name);
                assert(devices[devices.len() - 1].conn_infos.name@ != name);
            }
        }
    }
}

/// Where names are distinct, a name gives the device at its place.
proof fn by_name_of_distinct<S>(devices: Seq<TapoDevice<S>>, name: Seq<char>)
    requires
        text::distinct(names(devices)),
    ensures
        by_name(devices).contains_key(name) <==> text::position(names(devices), name) is Some,
        text::position(names(devices), name) is Some ==> by_name(devices)[name]
            == devices[text::position(names(devices), name)->0],
{
    by_name_gives_last(devices, name);
    text::position_is_first(names(devices), name);
    match text::position(names(devices), name) {
        Some(p) => {
            assert(devices[p].conn_infos.name@ == name);
            assert forall|j: int| p < j < devices.len() implies #[trigger] devices[j].conn_infos.name@
                != name by {
                assert(names(devices)[p] != names(devices)[j]);
            }
        },
        None => {
            assert forall|i: int| 0 <= i < devices.len() implies #[trigger] devices[i].conn_infos.name@
                != name by {
                assert(names(devices)[i] != name);
            }
        },
    }
}

/// Where names are distinct, putting a device in the place of the one of its name is inserting it.
proof fn replaced_by_name<S>(devices: Seq<TapoDevice<S>>, i: int, device: TapoDevice<S>)
    requires
        text::distinct(names(devices)),
        0 <= i < devices.len(),
        names(devices)[i] == device.conn_infos.name@,
    ensures
        text::distinct(names(devices.update(i, device))),
        by_name(devices.update(i, device)) == by_name(devices).insert(
            device.conn_infos.name@,
            device,
        ),
{
    let after = devices.update(i, device);
    assert(names(after) == names(devices));
    let left = by_name(after);
    let right = by_name(devices).insert(device.conn_infos.name@, device);
    assert forall|name: Seq<char>|
        #![trigger left.dom().contains(name)]
        #![trigger right.dom().contains(name)]
        #![trigger left[name]]
        left.dom().contains(name) == right.dom().contains(name) && (left.dom().contains(name)
            ==> left[name] == right[name]) by {
        by_name_of_distinct(devices, name);
        by_name_of_distinct(after, name);
        text::position_is_first(names(devices), name);
        if name == device.conn_infos.name@ {
            let p = text::position(names(devices), name)->0;
            assert(names(devices)[p] == names(devices)[i]);
            assert(p == i);
        }
    }
    assert(left =~= right);
}

/// The state that the handlers share. The loaded configuration and the cache stand as they are, or
/// under whatever guards them.
#[derive(Debug)]
pub struct StateData<L, K> {
    pub config_path: PathBuf,
    pub loaded_config: L,
    pub cache_path: PathBuf,
    pub device_cache: K,
    pub credentials: Arc<TapoCredentials>,
    pub discovery_broadcast: String,
    pub discovery_timeout_secs: u64,
}

impl<S, K> StateData<LoadedConfig<S>, K> {
    /// The state at the start, for the configuration and the devices that were loaded. The account
    /// and the broadcast target of the discovery are those of this configuration.
    pub fn init(
        config_path: PathBuf,
        cache_path: PathBuf,
        config: Config,
        devices: Vec<TapoDevice<S>>,
        device_cache: K,
        discovery_timeout_secs: u64,
    ) -> (r: Self)
        ensures
            r.config_path == config_path,
            r.cache_path == cache_path,
            r.loaded_config.loaded() == config,
            r.loaded_config@ == by_name(devices@),
            r.device_cache == device_cache,
            *r.credentials == config.tapo_credentials,
            r.discovery_broadcast == config.discovery_broadcast,
            r.discovery_timeout_secs == discovery_timeout_secs,
    {
        let credentials: Arc<TapoCredentials> = Arc::new(config.tapo_credentials.clone());
        let discovery_broadcast = config.discovery_broadcast.clone();
        StateData {
            config_path,
            loaded_config: LoadedConfig::new(config, devices),
            cache_path,
            device_cache,
            credentials,
            discovery_broadcast,
            discovery_timeout_secs,
        }
    }

    /// Takes in the outcome of loading the configuration again. Only the loaded configuration
    /// changes, and on a failure nothing does.
    pub fn reload_config<E>(
        &mut self,
        outcome: Result<(Config, Vec<TapoDevice<S>>), E>,
    ) -> (r: Result<(), E>)
        ensures
            final(self).config_path == old(self).config_path,
            final(self).cache_path == old(self).cache_path,
            final(self).device_cache == old(self).device_cache,
            final(self).credentials == old(self).credentials,
            final(self).discovery_broadcast == old(self).discovery_broadcast,
            final(self).discovery_timeout_secs == old(self).discovery_timeout_secs,
            match outcome {
                Ok(fresh) => r == Ok::<(), E>(()) && final(self).loaded_config.loaded() == fresh.0
                    && final(self).loaded_config@ == by_name(fresh.1@),
                Err(e) => r == Err::<(), E>(e) && final(self).loaded_config
                    == old(self).loaded_config,
            },
    {
        self.loaded_config.reload(outcome)
    }
}

impl<L, K> StateData<L, K> {
    /// The state with the loaded configuration put under a guard, such as a lock.
    pub fn guarded<G, F: FnOnce(L) -> G>(self, guard: F) -> (r: StateData<G, K>)
        requires
            guard.requires((self.loaded_config,)),
        ensures
            guard.ensures((self.loaded_config,), r.loaded_config),
            r.config_path == self.config_path,
            r.cache_path == self.cache_path,
            r.device_cache == self.device_cache,
            r.credentials == self.credentials,
            r.discovery_broadcast == self.discovery_broadcast,
            r.discovery_timeout_secs == self.discovery_timeout_secs,
    {
        StateData {
            config_path: self.config_path,
            loaded_config: guard(self.loaded_config),
            cache_path: self.cache_path,
            device_cache: self.device_cache,
            credentials: self.credentials,
            discovery_broadcast: self.discovery_broadcast,
            discovery_timeout_secs: self.discovery_timeout_secs,
        }
    }
}

impl<L> StateData<L, DeviceCache> {
    /// Takes in the cache that a periodic refresh came to. Nothing else changes.
    pub fn refresh_cache(&mut self, fresh: DeviceCache)
        ensures
            final(self).device_cache == fresh,
            final(self).config_path == old(self).config_path,
            final(self).loaded_config == old(self).loaded_config,
            final(self).cache_path == old(self).cache_path,
            final(self).credentials == old(self).credentials,
            final(self).discovery_broadcast == old(self).discovery_broadcast,
            final(self).discovery_timeout_secs == old(self).discovery_timeout_secs,
    {
        self.device_cache.renew(fresh);
    }
}

/// The periodic refresh of the discovery cache.
#[derive(Clone, Copy, Debug, PartialEq, Eq, Structural)]
pub enum PeriodicRefresh {
    /// There is none.
    Disabled,
    /// The first tick, which comes at once, is still to come.
    Starting,
    /// Every tick refreshes.
    Running,
}

impl PeriodicRefresh {
    /// The refresh at the start, for the interval between two ticks.
    pub open spec fn at_start(interval_secs: u64) -> PeriodicRefresh {
        if interval_secs == 0 {
            PeriodicRefresh::Disabled
        } else {
            PeriodicRefresh::Starting
        }
    }

    /// The refresh after a number of ticks.
    pub open spec fn after_ticks(interval_secs: u64, ticks: nat) -> PeriodicRefresh
        decreases ticks,
    {
        if ticks == 0 {
            PeriodicRefresh::at_start(interval_secs)
        } else {
            PeriodicRefresh::after_ticks(interval_secs, (ticks - 1) as nat).ticked()
        }
    }

    /// The refresh after one more tick.
    pub open spec fn ticked(self) -> PeriodicRefresh {
        match self {
            PeriodicRefresh::Disabled => PeriodicRefresh::Disabled,
            _ => PeriodicRefresh::Running,
        }
    }

    /// Starts the refresh. An interval of zero disables it.
    pub fn start(interval_secs: u64) -> (r: Self)
        ensures
            r == PeriodicRefresh::at_start(interval_secs),
    {
        if interval_secs == 0 {
            PeriodicRefresh::Disabled
        } else {
            PeriodicRefresh::Starting
        }
    }

    /// Takes in a tick and tells whether to refresh. The first tick, right after the sweep made at
    /// the start of the program, does not.
    pub fn tick(&mut self) -> (r: bool)
        ensures
            *final(self) == old(self).ticked(),
            r == (*old(self) == PeriodicRefresh::Running),
    {
        match *self {
            PeriodicRefresh::Disabled => false,
            PeriodicRefresh::Starting => {
                *self = PeriodicRefresh::Running;
                false
            },
            PeriodicRefresh::Running => true,
        }
    }
}

/// Every tick but the first refreshes the cache, unless the interval is zero: then none does.
pub proof fn all_but_first_tick_refresh(interval_secs: u64, ticks_before: nat)
    ensures
        PeriodicRefresh::after_ticks(interval_secs, ticks_before) == PeriodicRefresh::Running <==> (
        interval_secs != 0 && ticks_before >= 1),
        PeriodicRefresh::after_ticks(interval_secs, ticks_before) == PeriodicRefresh::Disabled
            <==> interval_secs == 0,
    decreases ticks_before,
{
    if ticks_before > 0 {
        all_but_first_tick_refresh(interval_secs, (ticks_before - 1) as nat);
    }
}

/// The shared cache after ticks, from the one at the start. `refreshed` gives for each tick the
/// cache that a refresh at that tick comes to; a tick that does not refresh leaves the cache as it
/// is.
pub open spec fn cache_after_ticks(
    interval_secs: u64,
    start: DeviceCache,
    refreshed: Seq<DeviceCache>,
) -> DeviceCache
    decreases refreshed.len(),
{
    if refreshed.len() == 0 {
        start
    } else if PeriodicRefresh::after_ticks(interval_secs, (refreshed.len() - 1) as nat)
        == PeriodicRefresh::Running {
        refreshed.last()
    } else {
        cache_after_ticks(interval_secs, start, refreshed.drop_last())
    }
}

/// After each refresh the shared cache is the one that the refresh came to. Without an interval, and
/// until the second tick, it is the one from the start.
pub proof fn cache_is_the_last_refresh(
    interval_secs: u64,
    start: DeviceCache,
    refreshed: Seq<DeviceCache>,
)
    ensures
        cache_after_ticks(interval_secs, start, refreshed) == (if interval_secs != 0
            && refreshed.len() >= 2 {
            refreshed.last()
        } else {
            start
        }),
    decreases refreshed.len(),
{
    if refreshed.len() > 0 {
        all_but_first_tick_refresh(interval_secs, (refreshed.len() - 1) as nat);
        cache_is_the_last_refresh(interval_secs, start, refreshed.drop_last());
    }
}

} // verus!
