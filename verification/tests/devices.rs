use std::sync::Arc;

use tapo_rest::config::{TapoConnectionInfos, TapoCredentials};
use tapo_rest::devices::{
    connect_at_message, unreachable_message, ClientMethod, ClientSlot, ConnectStep, Connecting,
    TapoDevice, TapoDeviceType,
};
use tapo_rest::discovery::{DeviceCache, DiscoveredDevice, Timestamp};
use tapo_rest::ip::IpAddr;

const A: IpAddr = IpAddr::V4(10, 0, 0, 1);
const B: IpAddr = IpAddr::V4(10, 0, 0, 2);
const C: IpAddr = IpAddr::V4(10, 0, 0, 3);

fn cache_with(ip: Option<&str>) -> DeviceCache {
    let devices = match ip {
        Some(ip) => vec![DiscoveredDevice {
            device_id: "1".to_string(),
            model: "L530".to_string(),
            nickname: "lamp".to_string(),
            ip: ip.to_string(),
            last_seen: Timestamp { secs: 0, nanos: 0 },
        }],
        None => vec![],
    };
    DeviceCache { devices }
}

/// Runs an attempt: the devices' answers come from `reaches`, and the sweep leaves `found` in the
/// cache. Gives the addresses tried, the end, and the address in use afterwards.
fn run(
    last_known: Option<IpAddr>,
    current: Option<IpAddr>,
    found: Option<&str>,
    reaches: fn(usize) -> bool,
) -> (Vec<IpAddr>, bool, Option<IpAddr>) {
    let mut slot: ClientSlot<()> = ClientSlot { client: None, current_ip: current };
    let cache = cache_with(found);
    let infos = TapoConnectionInfos { ip_addr: last_known, ..lamp() };
    let mut attempt = Connecting::begin(&infos, &slot);
    let mut tried = vec![];
    loop {
        match attempt.step {
            ConnectStep::First(ip) | ConnectStep::Retry(ip) | ConnectStep::Fallback(ip) => {
                tried.push(ip);
                attempt.on_answer(reaches(tried.len()));
            }
            ConnectStep::Rediscover => attempt.on_sweep("lamp", &cache, &mut slot),
            ConnectStep::Connected => return (tried, true, slot.current_ip),
            ConnectStep::Failed => return (tried, false, slot.current_ip),
        }
    }
}

#[test]
fn the_address_in_use_is_tried_first() {
    assert_eq!(run(Some(A), Some(A), Some("10.0.0.2"), |_| true), (vec![A], true, Some(A)));
    assert_eq!(run(Some(A), Some(B), Some("10.0.0.3"), |_| true), (vec![B], true, Some(B)));
}

#[test]
fn a_sweep_gives_the_next_address() {
    assert_eq!(run(Some(A), Some(A), Some("10.0.0.2"), |n| n == 2), (vec![A, B], true, Some(B)));
    assert_eq!(run(None, None, Some("10.0.0.2"), |n| n == 1), (vec![B], true, Some(B)));
    assert_eq!(run(Some(A), Some(A), Some("10.0.0.1"), |n| n == 2), (vec![A, A], true, Some(A)));
}

#[test]
fn the_last_known_address_is_the_last_resort() {
    assert_eq!(
        run(Some(A), Some(B), Some("10.0.0.3"), |n| n == 3),
        (vec![B, C, A], true, Some(C))
    );
    assert_eq!(run(Some(A), Some(B), None, |n| n == 2), (vec![B, A], true, Some(B)));
    assert_eq!(run(Some(A), Some(B), Some("nonsense"), |n| n == 2), (vec![B, A], true, Some(B)));
    assert_eq!(run(Some(A), None, None, |n| n == 1), (vec![A], true, None));
}

#[test]
fn an_address_already_tried_is_no_last_resort() {
    assert_eq!(run(Some(A), Some(A), None, |_| false), (vec![A], false, Some(A)));
    assert_eq!(run(Some(A), Some(A), Some("nonsense"), |_| false), (vec![A], false, Some(A)));
    assert_eq!(run(Some(A), Some(A), Some("10.0.0.2"), |_| false), (vec![A, B], false, Some(B)));
    assert_eq!(run(Some(A), Some(B), Some("10.0.0.1"), |_| false), (vec![B, A], false, Some(A)));
}

#[test]
fn an_attempt_fails_when_no_address_answers() {
    assert_eq!(
        run(Some(A), Some(B), Some("10.0.0.3"), |_| false),
        (vec![B, C, A], false, Some(C))
    );
    assert_eq!(run(None, None, Some("10.0.0.2"), |_| false), (vec![B], false, Some(B)));
    assert_eq!(run(None, None, None, |_| true), (vec![], false, None));
}

#[test]
fn events_out_of_turn_change_nothing() {
    let mut slot: ClientSlot<()> = ClientSlot { client: None, current_ip: Some(A) };
    let mut attempt = Connecting::begin(&lamp(), &slot);
    attempt.on_sweep("lamp", &cache_with(Some("10.0.0.2")), &mut slot);
    assert_eq!(attempt.step, ConnectStep::First(A));
    assert_eq!(slot.current_ip, Some(A));
    attempt.on_answer(true);
    attempt.on_answer(false);
    assert_eq!(attempt.step, ConnectStep::Connected);
}

fn lamp() -> TapoConnectionInfos {
    TapoConnectionInfos {
        name: "lamp".to_string(),
        device_type: TapoDeviceType::L530,
        ip_addr: Some(A),
    }
}

fn account() -> Arc<TapoCredentials> {
    Arc::new(TapoCredentials { email: "me".to_string(), password: "secret".to_string() })
}

#[test]
fn a_new_device_is_unconnected_at_its_address() {
    let device: TapoDevice<ClientSlot<u8>> =
        TapoDevice::new(lamp(), account(), "10.0.0.255".to_string(), 10);
    assert_eq!(device.slot, ClientSlot { client: None, current_ip: Some(A) });
    assert_eq!(device.conn_infos(), &lamp());
    assert_eq!(device.credentials, account());
    assert_eq!(device.discovery_broadcast, "10.0.0.255");
    assert_eq!(device.discovery_timeout_secs, 10);
    let guarded = device.guarded(|slot| (slot.current_ip, "guard"));
    assert_eq!(guarded.slot, (Some(A), "guard"));
    assert_eq!(guarded.conn_infos(), &lamp());
}

#[test]
fn a_connection_is_kept_and_a_failure_is_not() {
    let mut slot: ClientSlot<u8> = ClientSlot { client: None, current_ip: None };
    assert_eq!(slot.client(), None);
    assert_eq!(slot.establish(Err("refused")), Err("refused"));
    assert_eq!(slot.client(), None);
    assert_eq!(slot.establish::<&str>(Ok(7)), Ok(()));
    assert_eq!(slot.client(), Some(&7));
}

#[test]
fn kinds_have_names_and_methods() {
    let all = [
        (TapoDeviceType::L510, "L510", ClientMethod::L510),
        (TapoDeviceType::L520, "L520", ClientMethod::L520),
        (TapoDeviceType::L530, "L530", ClientMethod::L530),
        (TapoDeviceType::L535, "L535", ClientMethod::L535),
        (TapoDeviceType::L610, "L610", ClientMethod::L610),
        (TapoDeviceType::L630, "L630", ClientMethod::L630),
        (TapoDeviceType::L900, "L900", ClientMethod::L900),
        (TapoDeviceType::L920, "L920", ClientMethod::L920),
        (TapoDeviceType::L930, "L930", ClientMethod::L930),
        (TapoDeviceType::P100, "P100", ClientMethod::P100),
        (TapoDeviceType::P105, "P105", ClientMethod::P105),
        (TapoDeviceType::P110, "P110", ClientMethod::P110),
        (TapoDeviceType::P110M, "P110M", ClientMethod::P110),
        (TapoDeviceType::P115, "P115", ClientMethod::P115),
        (TapoDeviceType::P300, "P300", ClientMethod::P300),
        (TapoDeviceType::P304, "P304", ClientMethod::P304),
        (TapoDeviceType::P304M, "P304M", ClientMethod::P304),
        (TapoDeviceType::P316, "P316", ClientMethod::P316),
    ];
    for (kind, name, method) in all {
        assert_eq!(kind.kind_name(), name);
        assert_eq!(kind.client_method(), method);
    }
}

#[test]
fn messages_of_failed_connections() {
    assert_eq!(
        unreachable_message(TapoDeviceType::L530, "bulb", "lamp"),
        "Failed to connect to L530 bulb 'lamp': discovery yielded no entry for 'lamp' and no fallback available"
    );
    assert_eq!(
        connect_at_message(TapoDeviceType::P304M, "strip", "desk", "10.0.0.1", "timed out"),
        "Failed to connect to P304M strip 'desk' at 10.0.0.1: timed out"
    );
}
