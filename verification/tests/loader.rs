use tapo_rest::config::{Config, TapoConnectionInfos, TapoCredentials};
use tapo_rest::devices::TapoDeviceType;
use tapo_rest::discovery::{DeviceCache, DiscoveredDevice, Timestamp};
use tapo_rest::ip::IpAddr;
use tapo_rest::loader::{
    collect_devices, load_tapo_devices_from_config, resolve_addresses, ConfigError, ConfigFile, IpResolution,
    Loaded,
};

fn entry(name: &str, ip_addr: Option<IpAddr>) -> TapoConnectionInfos {
    TapoConnectionInfos { name: name.to_string(), device_type: TapoDeviceType::P110, ip_addr }
}

fn cached(nickname: &str, ip: &str) -> DiscoveredDevice {
    DiscoveredDevice {
        device_id: nickname.to_string(),
        model: "P110".to_string(),
        nickname: nickname.to_string(),
        ip: ip.to_string(),
        last_seen: Timestamp { secs: 0, nanos: 0 },
    }
}

fn cache() -> DeviceCache {
    DeviceCache {
        devices: vec![
            cached("fixed", "10.0.0.9"),
            cached("found", "10.0.0.2"),
            cached("found", "10.0.0.3"),
            cached("broken", "10.0.0"),
        ],
    }
}

const FIXED: IpAddr = IpAddr::V4(10, 0, 0, 1);
const FOUND: IpAddr = IpAddr::V4(10, 0, 0, 2);

fn entries() -> Vec<TapoConnectionInfos> {
    vec![
        entry("broken", None),
        entry("fixed", Some(FIXED)),
        entry("lost", None),
        entry("found", None),
    ]
}

fn config() -> Config {
    Config {
        tapo_credentials: TapoCredentials { email: "me".to_string(), password: "p".to_string() },
        devices: entries(),
        server_password: "s".to_string(),
        discovery_broadcast: "10.0.0.255".to_string(),
    }
}

fn resolved() -> Vec<TapoConnectionInfos> {
    vec![
        entry("broken", None),
        entry("fixed", Some(FIXED)),
        entry("lost", None),
        entry("found", Some(FOUND)),
    ]
}

fn resolutions() -> Vec<IpResolution> {
    vec![
        IpResolution::Unparseable("10.0.0".to_string()),
        IpResolution::Configured,
        IpResolution::Unknown,
        IpResolution::Cached(FOUND),
    ]
}

#[test]
fn missing_addresses_come_from_the_cache() {
    let mut devices = entries();
    assert_eq!(resolve_addresses(&mut devices, &cache()), resolutions());
    assert_eq!(devices, resolved());
}

#[test]
fn resolving_twice_is_resolving_once() {
    let mut devices = resolved();
    resolve_addresses(&mut devices, &cache());
    assert_eq!(devices, resolved());
}

#[test]
fn devices_without_an_address_are_not_loaded() {
    let loaded: Loaded<()> =
        load_tapo_devices_from_config(ConfigFile::Parsed(config()), &cache(), 10).unwrap();
    assert_eq!(loaded.config, Config { devices: resolved(), ..config() });
    assert_eq!(loaded.resolutions, resolutions());
    let got: Vec<(&str, Option<IpAddr>)> = loaded
        .devices
        .iter()
        .map(|d| (d.conn_infos().name.as_str(), d.slot.current_ip))
        .collect();
    assert_eq!(got, vec![("fixed", Some(FIXED)), ("found", Some(FOUND))]);
    for device in &loaded.devices {
        assert_eq!(device.slot.client, None);
        assert_eq!(*device.credentials, config().tapo_credentials);
        assert_eq!(device.discovery_broadcast, "10.0.0.255");
        assert_eq!(device.discovery_timeout_secs, 10);
    }
}

#[test]
fn a_configuration_that_cannot_be_had_is_an_error() {
    let read = load_tapo_devices_from_config::<()>(ConfigFile::Unreadable, &cache(), 10);
    assert_eq!(read, Err(ConfigError::Read));
    let parse = load_tapo_devices_from_config::<()>(ConfigFile::Unparseable, &cache(), 10);
    assert_eq!(parse, Err(ConfigError::Parse));
    assert_eq!(ConfigError::Read.message(), "Failed to read the devices configuration file");
    assert_eq!(ConfigError::Parse.message(), "Failed to parse the devices configuration file");
}

#[test]
fn devices_stay_loaded_when_connecting_fails() {
    let outcomes: Vec<Result<(&str, Result<(), &str>), u8>> =
        vec![Ok(("b", Err("refused"))), Ok(("a", Ok(())))];
    assert_eq!(collect_devices(outcomes), Ok(vec!["b", "a"]));
}

#[test]
fn a_broken_task_fails_the_loading() {
    let outcomes: Vec<Result<(&str, Result<(), &str>), u8>> =
        vec![Ok(("a", Ok(()))), Err(1), Ok(("b", Ok(()))), Err(2)];
    assert_eq!(collect_devices(outcomes), Err(1));
}
