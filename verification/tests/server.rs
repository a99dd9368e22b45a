use tapo_rest::server::{action_list, listen_address, reload_config, Admission, Route, Verb};

#[test]
fn all_routes_but_two_are_protected() {
    let all = [
        (Route::ReloadConfig, "/reload-config", Some(Verb::Post), true),
        (Route::RefreshSession, "/refresh-session", Some(Verb::Get), true),
        (Route::Devices, "/devices", Some(Verb::Get), true),
        (Route::Actions, "/actions", None, true),
        (Route::Login, "/login", Some(Verb::Post), false),
        (Route::ActionList, "/actions", Some(Verb::Get), false),
    ];
    for (route, path, verb, protected) in all {
        assert_eq!(route.path(), path);
        assert_eq!(route.verb(), verb);
        assert_eq!(route.decide(true), Admission::Handle);
        let without = if protected { Admission::Refuse } else { Admission::Handle };
        assert_eq!(route.decide(false), without);
        assert_eq!(route.is_protected(), protected);
    }
}

#[test]
fn serves_on_every_interface() {
    assert_eq!(listen_address(4667), "0.0.0.0:4667");
    assert_eq!(listen_address(0), "0.0.0.0:0");
    assert_eq!(listen_address(65535), "0.0.0.0:65535");
}

#[test]
fn actions_are_listed_one_per_line() {
    assert_eq!(action_list(&vec![]), "");
    assert_eq!(action_list(&vec!["/l530/on".to_string(), "/l530/off".to_string()]), "/l530/on\n/l530/off");
}

#[test]
fn answers_to_a_reload() {
    assert_eq!(reload_config(&Ok(())), "OK");
    assert_eq!(reload_config(&Err("no file".to_string())), "Error: no file");
}
