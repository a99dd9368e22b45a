use tapo_rest::discovery::{
    discover, discover_and_cache, refresh_in_memory, temp_file_name, CacheFile, DeviceCache,
    DiscoveredDevice, DiscoveryReply, ParentDir, SaveStep, Timestamp, CACHE_FILE_NAME,
};
use tapo_rest::ip::IpAddr;

fn device(id: &str, nickname: &str, ip: &str) -> DiscoveredDevice {
    DiscoveredDevice {
        device_id: id.to_string(),
        model: "L530".to_string(),
        nickname: nickname.to_string(),
        ip: ip.to_string(),
        last_seen: Timestamp { secs: 1, nanos: 2 },
    }
}

fn cache() -> DeviceCache {
    DeviceCache {
        devices: vec![
            device("1", "desk", "10.0.0.1"),
            device("2", "door", "10.0.0.2"),
            device("3", "desk", "10.0.0.3"),
        ],
    }
}

#[test]
fn only_a_parsed_file_gives_entries() {
    assert_eq!(DeviceCache::load(CacheFile::Parsed(cache())), cache());
    for file in [CacheFile::Unparseable, CacheFile::Missing, CacheFile::Unreadable] {
        assert_eq!(DeviceCache::load(file), DeviceCache { devices: vec![] });
    }
    assert_eq!(DeviceCache::default(), DeviceCache { devices: vec![] });
}

#[test]
fn lookups_give_the_first_match() {
    let cache = cache();
    assert_eq!(cache.lookup_by_nickname("desk"), Some(&cache.devices[0]));
    assert_eq!(cache.lookup_by_nickname("door"), Some(&cache.devices[1]));
    assert_eq!(cache.lookup_by_nickname("Desk"), None);
    assert_eq!(cache.lookup_by_device_id("3"), Some(&cache.devices[2]));
    assert_eq!(cache.lookup_by_device_id("4"), None);
    assert_eq!(cache.address_of("door"), Some(IpAddr::V4(10, 0, 0, 2)));
    assert_eq!(cache.address_of("attic"), None);
}

#[test]
fn merge_replaces_and_appends_and_keeps() {
    let mut cache = cache();
    cache.merge_in(vec![
        device("2", "gate", "10.0.0.22"),
        device("4", "attic", "10.0.0.4"),
        device("4", "attic", "10.0.0.44"),
    ]);
    assert_eq!(cache.devices, vec![
        device("1", "desk", "10.0.0.1"),
        device("2", "gate", "10.0.0.22"),
        device("3", "desk", "10.0.0.3"),
        device("4", "attic", "10.0.0.44"),
    ]);
}

#[test]
fn merge_touches_the_first_row_of_an_id() {
    let mut cache = DeviceCache { devices: vec![device("1", "a", "x"), device("1", "b", "y")] };
    cache.merge_in(vec![device("1", "c", "z")]);
    assert_eq!(cache.devices, vec![device("1", "c", "z"), device("1", "b", "y")]);
}

#[test]
fn merging_twice_is_merging_once() {
    let fresh = vec![device("9", "n", "i"), device("1", "m", "j"), device("9", "o", "k")];
    let mut once = cache();
    once.merge_in(fresh.clone());
    let mut twice = once.clone();
    twice.merge_in(fresh);
    assert_eq!(once, twice);
}

#[test]
fn merge_keeps_one_row_per_id() {
    let mut cache = cache();
    cache.merge_in(vec![device("7", "n", "i"), device("7", "m", "j"), device("2", "o", "k")]);
    let ids: Vec<&str> = cache.devices.iter().map(|d| d.device_id.as_str()).collect();
    assert_eq!(ids, vec!["1", "2", "3", "7"]);
    assert_eq!(cache.lookup_by_device_id("7").unwrap().nickname, "m");
}

fn reply(id: &str) -> DiscoveryReply {
    DiscoveryReply {
        device_id: id.to_string(),
        model: "P110".to_string(),
        nickname: "plug".to_string(),
        ip: "10.0.0.9".to_string(),
    }
}

#[test]
fn a_sweep_skips_hosts_that_fail() {
    let at = |secs| Timestamp { secs, nanos: 0 };
    let found = discover(vec![
        (Ok(reply("a")), at(5)),
        (Err("unreachable"), at(6)),
        (Ok(reply("b")), at(7)),
    ]);
    let row = |id: &str, secs| DiscoveredDevice {
        device_id: id.to_string(),
        model: "P110".to_string(),
        nickname: "plug".to_string(),
        ip: "10.0.0.9".to_string(),
        last_seen: at(secs),
    };
    assert_eq!(found, vec![row("a", 5), row("b", 7)]);
    let without = discover::<&str>(vec![(Ok(reply("a")), at(5)), (Ok(reply("b")), at(7))]);
    assert_eq!(found, without);
}

#[test]
fn a_failed_sweep_changes_and_saves_nothing() {
    let (after, persist) = discover_and_cache(cache(), Err("no socket"));
    assert_eq!(after, cache());
    assert!(!persist);
    let mut memory = cache();
    refresh_in_memory(&mut memory, Err("no socket"));
    assert_eq!(memory, cache());
}

#[test]
fn a_sweep_is_merged_and_saved() {
    let fresh = vec![device("1", "new", "10.0.0.11")];
    let mut expected = cache();
    expected.merge_in(fresh.clone());
    let (after, persist) = discover_and_cache::<&str>(cache(), Ok(fresh.clone()));
    assert_eq!(after, expected);
    assert!(persist);
    let mut memory = cache();
    refresh_in_memory::<&str>(&mut memory, Ok(fresh));
    assert_eq!(memory, expected);
}

fn save(outcomes: &[bool], parent: Option<ParentDir>) -> SaveStep {
    let mut step = SaveStep::Serialize;
    for &ok in outcomes {
        step = DeviceCache::save(step, ok, parent);
    }
    step
}

#[test]
fn saving_renames_last() {
    let there = Some(ParentDir { empty: false, exists: true });
    let missing = Some(ParentDir { empty: false, exists: false });
    let current = Some(ParentDir { empty: true, exists: false });
    for parent in [there, current, None] {
        assert_eq!(save(&[true], parent), SaveStep::WriteTemp);
        assert_eq!(save(&[true, true], parent), SaveStep::Rename);
        assert_eq!(save(&[true, true, true], parent), SaveStep::Saved);
    }
    assert_eq!(save(&[true], missing), SaveStep::CreateParent);
    assert_eq!(save(&[true, true], missing), SaveStep::WriteTemp);
    assert_eq!(save(&[true, true, true], missing), SaveStep::Rename);
    assert_eq!(save(&[true, true, true, true, false], missing), SaveStep::Saved);
}

#[test]
fn saving_stops_at_the_step_that_fails() {
    let missing = Some(ParentDir { empty: false, exists: false });
    assert_eq!(save(&[false, true, true], missing), SaveStep::SerializeFailed);
    assert_eq!(save(&[true, false, true], missing), SaveStep::CreateParentFailed);
    assert_eq!(save(&[true, true, false, true], missing), SaveStep::WriteTempFailed);
    assert_eq!(save(&[true, true, true, false], missing), SaveStep::RenameFailed);
}

#[test]
fn the_cache_file_and_its_temporary_file() {
    assert_eq!(CACHE_FILE_NAME, "tapo_devices.json");
    assert_eq!(temp_file_name(CACHE_FILE_NAME), "tapo_devices.json.tmp");
    assert_eq!(temp_file_name("cache"), "cache.tmp");
}

#[test]
fn a_refreshed_cache_takes_the_place_of_the_old_one() {
    let mut shared = cache();
    shared.renew(DeviceCache { devices: vec![device("9", "new", "10.0.0.9")] });
    assert_eq!(shared.devices, vec![device("9", "new", "10.0.0.9")]);
}
