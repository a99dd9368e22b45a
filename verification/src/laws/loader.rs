//! Laws of loading.
use vstd::prelude::*;

use crate::config::{Config, TapoConnectionInfos, TapoCredentials};
use crate::devices::{ClientSlot, TapoDevice};
use crate::discovery::DeviceCache;
use crate::ip;
use crate::ip::IpAddr;
use crate::laws::discovery as ld;
use crate::loader;
use crate::loader::{ConfigError, ConfigFile, IpResolution, Loaded};

verus! {

/// A device is as it is loaded for a configuration entry.
pub open spec fn ready<C>(
    device: TapoDevice<ClientSlot<C>>,
    entry: TapoConnectionInfos,
    config: Config,
    timeout_secs: u64,
) -> bool {
    &&& device.conn_infos == entry
    &&& *device.credentials == config.tapo_credentials
    &&& device.slot.client is None
    &&& device.slot.current_ip == entry.ip_addr
    &&& device.discovery_broadcast == config.discovery_broadcast
    &&& device.discovery_timeout_secs == timeout_secs
}

/// Every configured entry with an address is loaded, whatever its name and kind, once and in order;
/// only those without an address are left out.
pub proof fn entries_with_address_are_loaded<C>(
    config: &Config,
    timeout_secs: u64,
    r: Vec<TapoDevice<ClientSlot<C>>>,
)
    requires
        call_ensures(loader::load_tapo_devices::<C>, (config, timeout_secs), r),
    ensures
        ({
            let entries = config.devices@.filter(
                |entry: TapoConnectionInfos| entry.ip_addr is Some,
            );
            &&& r@.len() == entries.len()
            &&& forall|k: int|
                0 <= k < entries.len() ==> ready(
                    #[trigger] r@[k],
                    entries[k],
                    *config,
                    timeout_secs,
                )
        }),
{
    let has_address = |entry: TapoConnectionInfos| entry.ip_addr is Some;
    assert(loader::loadable(config.devices@) == config.devices@.filter(has_address));
}

/// An entry with an address is among the loaded devices.
pub proof fn entry_with_address_is_loaded<C>(
    config: &Config,
    timeout_secs: u64,
    r: Vec<TapoDevice<ClientSlot<C>>>,
    i: int,
)
    requires
        call_ensures(loader::load_tapo_devices::<C>, (config, timeout_secs), r),
        0 <= i < config.devices@.len(),
        config.devices@[i].ip_addr is Some,
    ensures
        exists|k: int| 0 <= k < r@.len() && (#[trigger] r@[k]).conn_infos == config.devices@[i],
{
    let has_address = |entry: TapoConnectionInfos| entry.ip_addr is Some;
    let entries = config.devices@.filter(has_address);
    assert(has_address(config.devices@[i]));
    config.devices@.lemma_filter_contains(has_address, i);
    assert(entries.contains(config.devices@[i]));
    let k = choose|k: int| 0 <= k < entries.len() && entries[k] == config.devices@[i];
    entries_with_address_are_loaded(config, timeout_secs, r);
    assert(ready(r@[k], entries[k], *config, timeout_secs));
}

/// An address that the configuration gives stays; one that it leaves out is that of the first row
/// of the cache with the device's name as its nickname. Nothing else changes.
pub proof fn missing_address_comes_from_cache(
    infos: &mut TapoConnectionInfos,
    cache: &DeviceCache,
    r: IpResolution,
    i: int,
    written: &str,
    parsed: Option<IpAddr>,
)
    requires
        call_ensures(TapoConnectionInfos::resolve_ip, (infos, cache), r),
        call_ensures(ip::parse_ip, (written,), parsed),
    ensures
        final(infos).name == old(infos).name,
        final(infos).device_type == old(infos).device_type,
        old(infos).ip_addr is Some ==> final(infos).ip_addr == old(infos).ip_addr && r
            == IpResolution::Configured,
        old(infos).ip_addr is None && ld::first_named(cache.devices@, old(infos).name@, i)
            && written@ == cache.devices@[i].ip@ ==> final(infos).ip_addr == parsed && (
        match parsed {
            Some(address) => r == IpResolution::Cached(address),
            None => r == IpResolution::Unparseable(cache.devices@[i].ip),
        }),
        old(infos).ip_addr is None && ld::unnamed(cache.devices@, old(infos).name@) ==> final(infos).ip_addr is None && r == IpResolution::Unknown,
{
    ld::nickname_position(cache.devices@, old(infos).name@);
    ld::nickname_position_is(cache.devices@, old(infos).name@, i);
}

/// The addresses of a list are looked up as that of each entry by itself.
pub proof fn addresses_are_looked_up_one_by_one(
    devices: &mut Vec<TapoConnectionInfos>,
    cache: &DeviceCache,
    r: Vec<IpResolution>,
    one: &mut TapoConnectionInfos,
    found: IpResolution,
    i: int,
)
    requires
        call_ensures(loader::resolve_addresses, (devices, cache), r),
        call_ensures(TapoConnectionInfos::resolve_ip, (one, cache), found),
        0 <= i < old(devices)@.len(),
        *old(one) == old(devices)@[i],
    ensures
        final(devices)@.len() == old(devices)@.len(),
        r@.len() == old(devices)@.len(),
        final(devices)@[i] == *final(one),
        r@[i] == found,
{
}

/// A configuration that could not be read or parsed is the error for it; one that was parsed is
/// loaded, with the addresses looked up, everything else as it is, and every entry that then has
/// an address loaded.
pub proof fn parsed_configuration_is_loaded<C>(
    file: ConfigFile,
    cache: &DeviceCache,
    timeout_secs: u64,
    r: Result<Loaded<C>, ConfigError>,
    devices: &mut Vec<TapoConnectionInfos>,
    found: Vec<IpResolution>,
)
    requires
        call_ensures(
            loader::load_tapo_devices_from_config::<C>,
            (file, cache, timeout_secs),
            r,
        ),
        call_ensures(loader::resolve_addresses, (devices, cache), found),
        file is Parsed ==> old(devices)@ == file->Parsed_0.devices@,
    ensures
        file is Unreadable ==> r is Err && r->Err_0 == ConfigError::Read,
        file is Unparseable ==> r is Err && r->Err_0 == ConfigError::Parse,
        file is Parsed ==> {
            let entries = final(devices)@.filter(
                |entry: TapoConnectionInfos| entry.ip_addr is Some,
            );
            &&& r is Ok
            &&& r->Ok_0.config.tapo_credentials == file->Parsed_0.tapo_credentials
            &&& r->Ok_0.config.server_password == file->Parsed_0.server_password
            &&& r->Ok_0.config.discovery_broadcast == file->Parsed_0.discovery_broadcast
            &&& r->Ok_0.config.devices@ == final(devices)@
            &&& r->Ok_0.resolutions@ == found@
            &&& r->Ok_0.devices@.len() == entries.len()
            &&& forall|k: int|
                0 <= k < entries.len() ==> ready(
                    #[trigger] r->Ok_0.devices@[k],
                    entries[k],
                    file->Parsed_0,
                    timeout_secs,
                )
        },
{
    let has_address = |entry: TapoConnectionInfos| entry.ip_addr is Some;
    if file is Parsed {
        let all = final(devices)@;
        assert(loader::loadable(all) == all.filter(has_address));
        let got = r->Ok_0.resolutions@;
        assert forall|i: int| 0 <= i < got.len() implies got[i] == found@[i] by {
            assert(loader::resolution_of(got[i], old(devices)@[i], cache.devices@));
            assert(loader::resolution_of(found@[i], old(devices)@[i], cache.devices@));
        }
        assert(got == found@);
    }
}

/// Every device whose task came to an end is there, connected or not, in the order of the tasks;
/// the first task that broke down fails the whole.
pub proof fn devices_of_all_tasks_are_collected<D, E, J>(
    outcomes: Vec<Result<(D, Result<(), E>), J>>,
    r: Result<Vec<D>, J>,
)
    requires
        call_ensures(loader::collect_devices::<D, E, J>, (outcomes,), r),
    ensures
        (forall|i: int| 0 <= i < outcomes@.len() ==> #[trigger] outcomes@[i] is Ok) ==> {
            &&& r is Ok
            &&& r->Ok_0@.len() == outcomes@.len()
            &&& forall|i: int|
                0 <= i < outcomes@.len() ==> #[trigger] r->Ok_0@[i] == outcomes@[i]->Ok_0.0
        },
        forall|i: int|
            0 <= i < outcomes@.len() && #[trigger] outcomes@[i] is Err && (forall|j: int|
                0 <= j < i ==> #[trigger] outcomes@[j] is Ok) ==> r is Err && r->Err_0
                == outcomes@[i]->Err_0,
{
    first_failure_is_least(outcomes@);
}

proof fn first_failure_is_least<D, E, J>(outcomes: Seq<Result<(D, Result<(), E>), J>>)
    ensures
        (forall|i: int| 0 <= i < outcomes.len() ==> #[trigger] outcomes[i] is Ok)
            ==> loader::first_failure(outcomes) is None,
        forall|i: int|
            0 <= i < outcomes.len() && #[trigger] outcomes[i] is Err && (forall|j: int|
                0 <= j < i ==> #[trigger] outcomes[j] is Ok) ==> loader::first_failure(outcomes)
                == Some(outcomes[i]->Err_0),
    decreases outcomes.len(),
{
    if outcomes.len() > 0 {
        let before = outcomes.drop_last();
        first_failure_is_least(before);
        assert(forall|i: int| 0 <= i < before.len() ==> #[trigger] before[i] == outcomes[i]);
        if forall|i: int| 0 <= i < outcomes.len() ==> #[trigger] outcomes[i] is Ok {
            assert(outcomes[outcomes.len() - 1] is Ok);
        }
        assert forall|i: int|
            0 <= i < outcomes.len() && #[trigger] outcomes[i] is Err && (forall|j: int|
                0 <= j < i ==> #[trigger] outcomes[j] is Ok) implies loader::first_failure(outcomes)
            == Some(outcomes[i]->Err_0) by {
            if i < before.len() {
                assert(before[i] is Err);
                assert forall|j: int| 0 <= j < i implies #[trigger] before[j] is Ok by {
                    assert(outcomes[j] is Ok);
                }
            } else {
                assert forall|j: int| 0 <= j < before.len() implies #[trigger] before[j] is Ok by {
                    assert(outcomes[j] is Ok);
                }
            }
        }
    }
}

/// The messages of the errors.
pub proof fn config_error_messages(error: &ConfigError, r: &'static str)
    requires
        call_ensures(ConfigError::message, (error,), r),
    ensures
        *error == ConfigError::Read ==> r@ == "Failed to read the devices configuration file"@,
        *error == ConfigError::Parse ==> r@ == "Failed to parse the devices configuration file"@,
{
}

} // verus!
