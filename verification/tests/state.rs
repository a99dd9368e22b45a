use std::path::PathBuf;
use std::sync::Arc;

use tapo_rest::config::{Config, TapoConnectionInfos, TapoCredentials};
use tapo_rest::devices::{TapoDevice, TapoDeviceType};
use tapo_rest::discovery::{discover_and_cache, DeviceCache, DiscoveredDevice, Timestamp};
use tapo_rest::state::{LoadedConfig, PeriodicRefresh, StateData};

fn account(email: &str) -> TapoCredentials {
    TapoCredentials { email: email.to_string(), password: "p".to_string() }
}

fn config(email: &str) -> Config {
    Config {
        tapo_credentials: account(email),
        devices: vec![],
        server_password: "s".to_string(),
        discovery_broadcast: format!("{email}-net"),
    }
}

fn device(name: &str, slot: u8) -> TapoDevice<u8> {
    TapoDevice {
        conn_infos: TapoConnectionInfos {
            name: name.to_string(),
            device_type: TapoDeviceType::L510,
            ip_addr: None,
        },
        credentials: Arc::new(account("me")),
        slot,
        discovery_broadcast: "b".to_string(),
        discovery_timeout_secs: 1,
    }
}

#[test]
fn of_devices_with_one_name_the_last_counts() {
    let loaded =
        LoadedConfig::new(config("me"), vec![device("a", 1), device("b", 2), device("a", 3)]);
    assert_eq!(loaded.get("a"), Some(&device("a", 3)));
    assert_eq!(loaded.get("b"), Some(&device("b", 2)));
    assert_eq!(loaded.get("c"), None);
    assert_eq!(loaded.config(), &config("me"));
}

#[test]
fn every_device_is_listed_once() {
    let loaded =
        LoadedConfig::new(config("me"), vec![device("a", 1), device("b", 2), device("a", 3)]);
    let mut names: Vec<String> = loaded.list_devices().into_iter().map(|i| i.name).collect();
    names.sort();
    assert_eq!(names, vec!["a", "b"]);
    assert_eq!(LoadedConfig::<u8>::new(config("me"), vec![]).list_devices(), vec![]);
}

fn state() -> StateData<LoadedConfig<u8>, &'static str> {
    StateData::init(
        PathBuf::from("config.json"),
        PathBuf::from("cache.json"),
        config("me"),
        vec![device("a", 1)],
        "cache",
        10,
    )
}

#[test]
fn the_state_starts_from_the_configuration() {
    let state = state();
    assert_eq!(state.config_path, PathBuf::from("config.json"));
    assert_eq!(state.cache_path, PathBuf::from("cache.json"));
    assert_eq!(state.loaded_config.get("a"), Some(&device("a", 1)));
    assert_eq!(state.loaded_config.config(), &config("me"));
    assert_eq!(state.device_cache, "cache");
    assert_eq!(*state.credentials, account("me"));
    assert_eq!(state.discovery_broadcast, "me-net");
    assert_eq!(state.discovery_timeout_secs, 10);
    let guarded = state.guarded(|loaded| (loaded.list_devices().len(), "guard"));
    assert_eq!(guarded.loaded_config, (1, "guard"));
    assert_eq!(guarded.device_cache, "cache");
}

#[test]
fn reloading_replaces_the_configuration_only() {
    let mut state = state();
    let outcome = state.reload_config::<&str>(Ok((config("you"), vec![device("b", 2)])));
    assert_eq!(outcome, Ok(()));
    assert_eq!(state.loaded_config.config(), &config("you"));
    assert_eq!(state.loaded_config.get("a"), None);
    assert_eq!(state.loaded_config.get("b"), Some(&device("b", 2)));
    assert_eq!(*state.credentials, account("me"));
    assert_eq!(state.discovery_broadcast, "me-net");
}

#[test]
fn a_failed_reload_changes_nothing() {
    let mut state = state();
    assert_eq!(state.reload_config(Err("no file")), Err("no file"));
    assert_eq!(state.loaded_config.config(), &config("me"));
    assert_eq!(state.loaded_config.get("a"), Some(&device("a", 1)));
}

#[test]
fn all_ticks_but_the_first_refresh() {
    let mut refresh = PeriodicRefresh::start(300);
    assert_eq!(refresh, PeriodicRefresh::Starting);
    let ticks: Vec<bool> = (0..4).map(|_| refresh.tick()).collect();
    assert_eq!(ticks, vec![false, true, true, true]);
}

#[test]
fn an_interval_of_zero_disables_the_refresh() {
    let mut refresh = PeriodicRefresh::start(0);
    assert_eq!(refresh, PeriodicRefresh::Disabled);
    assert!((0..4).all(|_| !refresh.tick()));
}

fn seen(id: &str) -> DiscoveredDevice {
    DiscoveredDevice {
        device_id: id.to_string(),
        model: "L530".to_string(),
        nickname: id.to_string(),
        ip: "10.0.0.1".to_string(),
        last_seen: Timestamp { secs: 0, nanos: 0 },
    }
}

#[test]
fn after_a_refresh_the_cache_is_what_it_came_to() {
    let mut state = StateData::init(
        PathBuf::from("config.json"),
        PathBuf::from("cache.json"),
        config("me"),
        vec![device("a", 1)],
        DeviceCache { devices: vec![seen("in memory only")] },
        10,
    );
    let mut refresh = PeriodicRefresh::start(300);
    let mut refreshes = 0;
    for id in ["first", "second", "third"] {
        if refresh.tick() {
            refreshes += 1;
            let loaded = DeviceCache { devices: vec![seen("on disk")] };
            let (fresh, _) = discover_and_cache::<()>(loaded, Ok(vec![seen(id)]));
            state.refresh_cache(fresh);
            assert_eq!(state.device_cache.devices, vec![seen("on disk"), seen(id)]);
        } else {
            assert_eq!(state.device_cache.devices, vec![seen("in memory only")]);
        }
    }
    assert_eq!(refreshes, 2);
    assert_eq!(state.config_path, PathBuf::from("config.json"));
    assert_eq!(state.cache_path, PathBuf::from("cache.json"));
    assert_eq!(state.loaded_config.list_devices().len(), 1);
    assert_eq!(*state.credentials, account("me"));
    assert_eq!(state.discovery_timeout_secs, 10);
}
