use tapo_rest::cmd::LevelFilter;
use tapo_rest::telemetry::{
    choose_filter, default_directive, endpoint, env_filter, env_service_name, is_sliceable,
    TelemetryStep,
};

fn some(s: &str) -> Option<String> {
    Some(s.to_string())
}

#[test]
fn the_directive_holds_the_level_in_small_letters() {
    let all = [
        (LevelFilter::Off, "off"),
        (LevelFilter::Error, "error"),
        (LevelFilter::Warn, "warn"),
        (LevelFilter::Info, "info"),
        (LevelFilter::Debug, "debug"),
        (LevelFilter::Trace, "trace"),
    ];
    for (level, name) in all {
        assert_eq!(
            default_directive(level),
            format!("{name},tapo_rest={name},h2=warn,hyper=warn,tonic=warn,tower=warn")
        );
    }
}

#[test]
fn a_blank_endpoint_is_none() {
    assert_eq!(endpoint(None), None);
    assert_eq!(endpoint(some("")), None);
    assert_eq!(endpoint(some(" \t\n")), None);
    assert_eq!(endpoint(some(" http://c:4317 ")), some(" http://c:4317 "));
}

#[test]
fn the_service_has_a_default_name() {
    assert_eq!(env_service_name(None), "ouroboros-tapo");
    assert_eq!(env_service_name(some("  ")), "ouroboros-tapo");
    assert_eq!(env_service_name(some("gateway")), "gateway");
}

#[test]
fn the_environment_filters_first() {
    let directive = || "warn".to_string();
    assert_eq!(choose_filter(some("debug"), true, directive(), true), "debug");
    assert_eq!(choose_filter(some("debug"), false, directive(), true), "warn");
    assert_eq!(choose_filter(None, true, directive(), true), "warn");
    assert_eq!(choose_filter(some("debug"), false, directive(), false), "info");
}

#[test]
fn only_valid_directives_filter() {
    let bad = "a=b=c".to_string();
    assert_eq!(env_filter(some("tapo_rest=debug"), "warn".to_string()), "tapo_rest=debug");
    assert_eq!(env_filter(Some(bad.clone()), "warn".to_string()), "warn");
    assert_eq!(env_filter(None, default_directive(LevelFilter::Trace)), default_directive(LevelFilter::Trace));
    assert_eq!(env_filter(None, bad), "info");
}

#[test]
fn directives_that_cannot_be_cut_do_not_filter() {
    for bad in ["\u{a0}a=info", " \u{e9}=info", "info,\u{2003}a=b", "\u{a0}[s]"] {
        assert!(!is_sliceable(bad));
        assert_eq!(env_filter(some(bad), "warn".to_string()), "warn");
        assert_eq!(env_filter(None, bad.to_string()), "info");
    }
    for good in ["", "info", " info", "info, a=b", "\u{e9}=info", "\u{a0}info", "a=\u{e9}"] {
        assert!(is_sliceable(good));
    }
    for used in [" \u{e9}a[span]", "info, [r\u{e9}q]", " a[\u{e9}b]", " [s\u{e9}a]"] {
        assert!(is_sliceable(used));
        assert_eq!(env_filter(some(used), "warn".to_string()), used);
        assert_eq!(env_filter(None, used.to_string()), used);
    }
    assert_eq!(env_filter(some("\u{e9}=info"), "warn".to_string()), "\u{e9}=info");
    assert_eq!(env_filter(some("\u{a0}info"), "warn".to_string()), "\u{a0}info");
    assert_eq!(env_filter(some("a=\u{e9}"), "warn".to_string()), "warn");
}

fn run(endpoint: Option<String>, outcomes: &[bool]) -> TelemetryStep {
    let mut step = TelemetryStep::init_telemetry(&endpoint);
    for &ok in outcomes {
        step = step.after(ok);
    }
    step
}

#[test]
fn traces_are_exported_if_all_goes_well() {
    assert_eq!(run(some("http://c"), &[true, true, false, false]), TelemetryStep::Exporting);
}

#[test]
fn every_failure_ends_in_plain_logging() {
    for n in 0..16u8 {
        let outcomes = [n & 1 != 0, n & 2 != 0, n & 4 != 0, n & 8 != 0];
        assert_eq!(run(None, &outcomes), TelemetryStep::Plain);
        if !(outcomes[0] && outcomes[1]) {
            assert_eq!(run(some("http://c"), &outcomes), TelemetryStep::Plain);
        }
    }
}

#[test]
fn an_exporter_that_cannot_be_used_is_shut_down() {
    assert_eq!(run(some("http://c"), &[true, false]), TelemetryStep::ShutDownProvider);
    assert_eq!(run(some("http://c"), &[true, false, false]), TelemetryStep::InstallPlain);
    assert_eq!(run(some("http://c"), &[false]), TelemetryStep::InstallPlain);
}
