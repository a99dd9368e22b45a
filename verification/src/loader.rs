//! Loading the configured devices: addresses that the configuration leaves out come from the
//! discovery cache, and devices without an address are not loaded.
use std::sync::Arc;

use vstd::prelude::*;

use crate::config::{Config, TapoConnectionInfos, TapoCredentials};
use crate::devices::{ClientSlot, TapoDevice};
use crate::discovery::{DeviceCache, DiscoveredDevice};
use crate::discovery;
use crate::ip::{self, IpAddr};

verus! {

/// Where a configured device's address comes from.
#[derive(Clone, Debug, PartialEq, Eq)]
pub enum IpResolution {
    /// The configuration gives it.
    Configured,
    /// The cache gave it.
    Cached(IpAddr),
    /// The cache has an entry for the device, but what it gives as the address, which is in here,
    /// cannot be parsed.
    Unparseable(String),
    /// The cache has no entry for the device.
    Unknown,
}

/// What reading the configuration file came to.
#[derive(Debug, PartialEq, Eq)]
pub enum ConfigFile {
    Parsed(Config),
    Unreadable,
    Unparseable,
}

/// Why a configuration could not be loaded.
#[derive(Clone, Copy, Debug, PartialEq, Eq, Structural)]
pub enum ConfigError {
    Read,
    Parse,
}

impl ConfigError {
    /// The message for the error.
    pub fn message(&self) -> (r: &'static str)
        ensures
            r@ == (match *self {
                ConfigError::Read => "Failed to read the devices configuration file"@,
                ConfigError::Parse => "Failed to parse the devices configuration file"@,
            }),
    {
        match self {
            ConfigError::Read => "Failed to read the devices configuration file",
            ConfigError::Parse => "Failed to parse the devices configuration file",
        }
    }
}

/// A configured device with its address looked up in the cache, where the configuration gives
/// none.
pub open spec fn resolved(
    infos: TapoConnectionInfos,
    cache: Seq<DiscoveredDevice>,
) -> TapoConnectionInfos {
    TapoConnectionInfos {
        name: infos.name,
        device_type: infos.device_type,
        ip_addr: match infos.ip_addr {
            Some(address) => Some(address),
            None => discovery::known_address(cache, infos.name@),
        },
    }
}

/// Tells where the address of a configured device comes from.
pub open spec fn resolution_of(
    r: IpResolution,
    infos: TapoConnectionInfos,
    cache: Seq<DiscoveredDevice>,
) -> bool {
    if infos.ip_addr is Some {
        r == IpResolution::Configured
    } else {
        match discovery::row_by_nickname(cache, infos.name@) {
            Some(device) => match ip::address(device.ip@) {
                Some(address) => r == IpResolution::Cached(address),
                None => r == IpResolution::Unparseable(device.ip),
            },
            None => r == IpResolution::Unknown,
        }
    }
}

impl TapoConnectionInfos {
    /// Looks the device's address up in the cache by the device's name, unless the configuration
    /// gives one.
    pub fn resolve_ip(&mut self, cache: &DeviceCache) -> (r: IpResolution)
        ensures
            *final(self) == resolved(*old(self), cache.devices@),
            resolution_of(r, *old(self), cache.devices@),
    {
        if self.ip_addr.is_some() {
            return IpResolution::Configured;
        }
        match cache.lookup_by_nickname(self.name.as_str()) {
            Some(found) => match ip::parse_ip(found.ip.as_str()) {
                Some(address) => {
                    self.ip_addr = Some(address);
                    IpResolution::Cached(address)
                },
                None => IpResolution::Unparseable(found.ip.clone()),
            },
            None => IpResolution::Unknown,
        }
    }
}

/// The configured devices with their addresses looked up.
pub open spec fn all_resolved(
    devices: Seq<TapoConnectionInfos>,
    cache: Seq<DiscoveredDevice>,
) -> Seq<TapoConnectionInfos> {
    devices.map_values(|infos: TapoConnectionInfos| resolved(infos, cache))
}

/// The configured devices that can be loaded: those with an address.
pub open spec fn loadable(devices: Seq<TapoConnectionInfos>) -> Seq<TapoConnectionInfos> {
    devices.filter(|infos: TapoConnectionInfos| infos.ip_addr is Some)
}

/// Devices as they are loaded for the given configuration entries: unconnected, each to be tried
/// at its address, all with the same account, broadcast target and discovery timeout.
pub open spec fn loaded_for<C>(
    devices: Seq<TapoDevice<ClientSlot<C>>>,
    entries: Seq<TapoConnectionInfos>,
    credentials: TapoCredentials,
    broadcast: String,
    timeout_secs: u64,
) -> bool {
    &&& devices.len() == entries.len()
    &&& forall|i: int|
        0 <= i < devices.len() ==> {
            let device = #[trigger] devices[i];
            &&& device.conn_infos == entries[i]
            &&& *device.credentials == credentials
            &&& device.slot.client is None
            &&& device.slot.current_ip == entries[i].ip_addr
            &&& device.discovery_broadcast == broadcast
            &&& device.discovery_timeout_secs == timeout_secs
        }
}

/// Looks up the addresses that the configuration leaves out, and tells for each device where its
/// address comes from.
pub fn resolve_addresses(devices: &mut Vec<TapoConnectionInfos>, cache: &DeviceCache) -> (r: Vec<
    IpResolution,
>)
    ensures
        final(devices)@ == all_resolved(old(devices)@, cache.devices@),
        r@.len() == old(devices)@.len(),
        forall|i: int|
            0 <= i < r@.len() ==> resolution_of(
                #[trigger] r@[i],
                old(devices)@[i],
                cache.devices@,
            ),
{
    let ghost start = devices@;
    let mut r: Vec<IpResolution> = Vec::new();
    let mut i: usize = 0;
    while i < devices.len()
        invariant
            i <= devices@.len(),
            devices@.len() == start.len(),
            r@.len() == i,
            forall|k: int| 0 <= k < i ==> devices@[k] == resolved(#[trigger] start[k], cache.devices@),
            forall|k: int| i <= k < start.len() ==> devices@[k] == #[trigger] start[k],
            forall|k: int|
                0 <= k < i ==> resolution_of(#[trigger] r@[k], start[k], cache.devices@),
        decreases devices@.len() - i,
    {
        assert(devices@[i as int] == start[i as int]);
        let mut infos = devices[i].clone();
        let found = infos.resolve_ip(cache);
        r.push(found);
        devices.set(i, infos);
        i = i + 1;
    }
    assert(devices@ == all_resolved(start, cache.devices@));
    r
}

/// The devices to load for a configuration whose addresses have been looked up.
pub fn load_tapo_devices<C>(config: &Config, discovery_timeout_secs: u64) -> (r: Vec<
    TapoDevice<ClientSlot<C>>,
>)
    ensures
        loaded_for(
            r@,
            loadable(config.devices@),
            config.tapo_credentials,
            config.discovery_broadcast,
            discovery_timeout_secs,
        ),
{
    let credentials: Arc<TapoCredentials> = Arc::new(config.tapo_credentials.clone());
    let ghost has_address = |infos: TapoConnectionInfos| infos.ip_addr is Some;
    let mut r: Vec<TapoDevice<ClientSlot<C>>> = Vec::new();
    let mut i: usize = 0;
    proof {
        reveal(Seq::filter);
        assert(config.devices@.take(0).filter(has_address) == Seq::<TapoConnectionInfos>::empty());
    }
    while i < config.devices.len()
        invariant
            i <= config.devices@.len(),
            has_address == (|infos: TapoConnectionInfos| infos.ip_addr is Some),
            *credentials == config.tapo_credentials,
            loaded_for(
                r@,
                config.devices@.take(i as int).filter(has_address),
                config.tapo_credentials,
                config.discovery_broadcast,
                discovery_timeout_secs,
            ),
        decreases config.devices@.len() - i,
    {
        proof {
            reveal(Seq::filter);
            assert(config.devices@.take(i + 1).drop_last() == config.devices@.take(i as int));
            assert(config.devices@.take(i + 1).last() == config.devices@[i as int]);
        }
        if config.devices[i].ip_addr.is_some() {
            let device: TapoDevice<ClientSlot<C>> = TapoDevice::new(
                config.devices[i].clone(),
                Arc::clone(&credentials),
                config.discovery_broadcast.clone(),
                discovery_timeout_secs,
            );
            r.push(device);
        }
        i = i + 1;
    }
    assert(config.devices@.take(config.devices@.len() as int) == config.devices@);
    r
}

/// A configuration that was loaded.
#[derive(Debug, PartialEq, Eq)]
pub struct Loaded<C> {
    /// The configuration, with the addresses that the cache gave.
    pub config: Config,
    /// For each configured device, where its address comes from.
    pub resolutions: Vec<IpResolution>,
    /// The devices to connect to.
    pub devices: Vec<TapoDevice<ClientSlot<C>>>,
}

/// Loads the configured devices from what reading the configuration file came to.
pub fn load_tapo_devices_from_config<C>(
    file: ConfigFile,
    cache: &DeviceCache,
    discovery_timeout_secs: u64,
) -> (r: Result<Loaded<C>, ConfigError>)
    ensures
        match file {
            ConfigFile::Unreadable => r == Err::<Loaded<C>, ConfigError>(ConfigError::Read),
            ConfigFile::Unparseable => r == Err::<Loaded<C>, ConfigError>(ConfigError::Parse),
            ConfigFile::Parsed(config) => {
                &&& r is Ok
                &&& r->Ok_0.config.tapo_credentials == config.tapo_credentials
                &&& r->Ok_0.config.server_password == config.server_password
                &&& r->Ok_0.config.discovery_broadcast == config.discovery_broadcast
                &&& r->Ok_0.config.devices@ == all_resolved(config.devices@, cache.devices@)
                &&& r->Ok_0.resolutions@.len() == config.devices@.len()
                &&& forall|i: int|
                    0 <= i < config.devices@.len() ==> resolution_of(
                        #[trigger] r->Ok_0.resolutions@[i],
                        config.devices@[i],
                        cache.devices@,
                    )
                &&& loaded_for(
                    r->Ok_0.devices@,
                    loadable(all_resolved(config.devices@, cache.devices@)),
                    config.tapo_credentials,
                    config.discovery_broadcast,
                    discovery_timeout_secs,
                )
            },
        },
{
    match file {
        ConfigFile::Unreadable => Err(ConfigError::Read),
        ConfigFile::Unparseable => Err(ConfigError::Parse),
        ConfigFile::Parsed(mut config) => {
            let resolutions = resolve_addresses(&mut config.devices, cache);
            let devices = load_tapo_devices(&config, discovery_timeout_secs);
            Ok(Loaded { config, resolutions, devices })
        },
    }
}

/// The first failure among the outcomes of loading devices.
pub open spec fn first_failure<D, E, J>(outcomes: Seq<Result<(D, Result<(), E>), J>>) -> Option<J>
    decreases outcomes.len(),
{
    if outcomes.len() == 0 {
        None
    } else {
        match first_failure(outcomes.drop_last()) {
            Some(failure) => Some(failure),
            None => match outcomes.last() {
                Ok(_) => None,
                Err(failure) => Some(failure),
            },
        }
    }
}

/// The devices of tasks that each loaded one and tried to connect to it, in the order in which the
/// tasks ended. A device that could not be connected to is loaded all the same; a task that broke
/// down fails the whole.
pub fn collect_devices<D, E, J>(outcomes: Vec<Result<(D, Result<(), E>), J>>) -> (r: Result<
    Vec<D>,
    J,
>)
    ensures
        match first_failure(outcomes@) {
            Some(failure) => r == Err::<Vec<D>, J>(failure),
            None => r is Ok && r->Ok_0@ == Seq::new(
                outcomes@.len(),
                |i: int| outcomes@[i]->Ok_0.0,
            ),
        },
{
    let ghost all = outcomes@;
    let mut devices: Vec<D> = Vec::new();
    for outcome in it: outcomes
        invariant
            it.seq() == all,
            first_failure(all.take(it.index())) is None,
            devices@ == Seq::new(it.index() as nat, |i: int| all[i]->Ok_0.0),
    {
        assert(all.take(it.index() + 1).drop_last() == all.take(it.index()));
        match outcome {
            Ok((device, _)) => {
                devices.push(device);
            },
            Err(failure) => {
                proof {
                    failure_stays_first(all, it.index() + 1);
                }
                return Err(failure);
            },
        }
    }
    assert(all.take(all.len() as int) == all);
    Ok(devices)
}

/// The first failure among the first outcomes is the first failure of all.
proof fn failure_stays_first<D, E, J>(outcomes: Seq<Result<(D, Result<(), E>), J>>, k: int)
    requires
        0 <= k <= outcomes.len(),
        first_failure(outcomes.take(k)) is Some,
    ensures
        first_failure(outcomes) == first_failure(outcomes.take(k)),
    decreases outcomes.len(),
{
    if k == outcomes.len() {
        assert(outcomes.take(k) == outcomes);
    } else {
        assert(outcomes.drop_last().take(k) == outcomes.take(k));
        failure_stays_first(outcomes.drop_last(), k);
    }
}

/// An address in the configuration is never replaced, and looking up the addresses twice is
/// looking them up once.
pub proof fn resolving_keeps_configured_addresses(
    devices: Seq<TapoConnectionInfos>,
    cache: Seq<DiscoveredDevice>,
    i: int,
)
    requires
        0 <= i < devices.len(),
    ensures
        devices[i].ip_addr is Some ==> all_resolved(devices, cache)[i] == devices[i],
        all_resolved(devices, cache)[i].name == devices[i].name,
        all_resolved(devices, cache)[i].device_type == devices[i].device_type,
        all_resolved(all_resolved(devices, cache), cache) == all_resolved(devices, cache),
{
    assert(all_resolved(all_resolved(devices, cache), cache) =~= all_resolved(devices, cache));
}

} // verus!
