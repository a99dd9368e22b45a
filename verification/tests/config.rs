use tapo_rest::config::{
    cors_origins, default_broadcast, TapoConnectionInfos, TapoCredentials, TAPO_CORS_ORIGINS_ENV,
};
use tapo_rest::devices::TapoDeviceType;
use tapo_rest::ip::IpAddr;

const DEFAULTS: [&str; 2] = ["http://127.0.0.1", "http://localhost"];

#[test]
fn broadcast_defaults_to_the_global_one() {
    assert_eq!(default_broadcast(), "255.255.255.255");
}

#[test]
fn origins_come_from_their_variable() {
    assert_eq!(TAPO_CORS_ORIGINS_ENV, "TAPO_CORS_ORIGINS");
    assert_eq!(
        cors_origins(Some("https://operator.example.com,http://127.0.0.1:8080")),
        vec!["https://operator.example.com", "http://127.0.0.1:8080"]
    );
}

#[test]
fn no_usable_origin_gives_the_loopback_ones() {
    for raw in [None, Some(""), Some(" "), Some(" , ,\t,"), Some("a\nb"), Some("\u{7f},\u{0}x")] {
        assert_eq!(cors_origins(raw), DEFAULTS, "{raw:?}");
    }
}

#[test]
fn origins_are_trimmed_and_kept_in_order() {
    assert_eq!(cors_origins(Some(" b ,,a, \u{a0}c\u{3000}")), vec!["b", "a", "c"]);
}

#[test]
fn origins_that_cannot_stand_in_a_header_are_left_out() {
    assert_eq!(cors_origins(Some("a\u{1}b,ok,x\u{7f}")), vec!["ok"]);
    assert_eq!(cors_origins(Some("tab\tinside, https://b\u{fc}ro.example")), vec![
        "tab\tinside",
        "https://b\u{fc}ro.example"
    ]);
}

#[test]
fn every_listed_origin_is_a_header_value() {
    for raw in ["a,b c,d\te", "\u{fc},\u{1f600}", "\r,\n", ""] {
        for origin in cors_origins(Some(raw)) {
            let value = http::HeaderValue::from_str(&origin).unwrap();
            assert_eq!(value.as_bytes(), origin.as_bytes());
        }
    }
}

#[test]
fn clones_are_the_same() {
    let infos = TapoConnectionInfos {
        name: "lamp".to_string(),
        device_type: TapoDeviceType::L530,
        ip_addr: Some(IpAddr::V4(10, 0, 0, 1)),
    };
    assert_eq!(infos.clone(), infos);
    let account =
        TapoCredentials { email: "me@example.com".to_string(), password: "p".to_string() };
    assert_eq!(account.clone(), account);
}
