use moonshine_tray::unit::{
    active_state, after_active_state, after_lookup, apply, current_user, is_running, lookup,
    unit_name, BusCall, Inquiry, Verb,
};

#[test]
fn unit_name_is_an_instance_of_the_moonshine_template() {
    assert_eq!(unit_name("kez"), "moonshine@kez.service");
}

#[test]
fn running_states_include_transitional_ones() {
    assert!(is_running("active"));
    assert!(is_running("activating"));
    assert!(is_running("reloading"));
}

#[test]
fn stopped_states_are_not_running() {
    assert!(!is_running("inactive"));
    assert!(!is_running("failed"));
    assert!(!is_running("deactivating"));
    assert!(!is_running(""));
}

#[test]
fn every_verb_maps_to_a_manager_method() {
    assert_eq!(Verb::Start.method(), "StartUnit");
    assert_eq!(Verb::Stop.method(), "StopUnit");
    assert_eq!(Verb::Restart.method(), "RestartUnit");
}

#[test]
fn the_current_user_falls_back_to_a_placeholder() {
    assert_eq!(current_user(Some("kez"), Some("ben")), "kez");
    assert_eq!(current_user(None, Some("ben")), "ben");
    assert_eq!(current_user(None, None), "%i");
    assert_eq!(current_user(Some(""), Some("ben")), "");
}

#[test]
fn looking_a_unit_up_calls_the_manager() {
    assert_eq!(
        lookup("moonshine@kez.service"),
        BusCall {
            destination: "org.freedesktop.systemd1",
            path: "/org/freedesktop/systemd1".to_string(),
            interface: "org.freedesktop.systemd1.Manager",
            method: "GetUnit",
            arguments: vec!["moonshine@kez.service".to_string()],
            interactive: false,
        }
    );
}

#[test]
fn a_unit_that_is_found_is_asked_for_its_active_state() {
    let path = "/org/freedesktop/systemd1/unit/moonshine_40kez_2eservice";
    let call = BusCall {
        destination: "org.freedesktop.systemd1",
        path: path.to_string(),
        interface: "org.freedesktop.DBus.Properties",
        method: "Get",
        arguments: vec![
            "org.freedesktop.systemd1.Unit".to_string(),
            "ActiveState".to_string(),
        ],
        interactive: false,
    };
    assert_eq!(active_state(path), call);
    assert_eq!(after_lookup(Some(path)), Inquiry::Ask(call));
}

#[test]
fn a_unit_that_cannot_be_looked_at_is_not_active() {
    assert_eq!(after_lookup(None), Inquiry::Answer(false));
    assert!(!after_active_state(None));
    assert!(!after_active_state(Some("failed")));
    assert!(after_active_state(Some("activating")));
}

#[test]
fn applying_a_verb_replaces_other_jobs_and_may_prompt() {
    let call = apply(Verb::Restart, "moonshine@kez.service");
    assert_eq!(
        call,
        BusCall {
            destination: "org.freedesktop.systemd1",
            path: "/org/freedesktop/systemd1".to_string(),
            interface: "org.freedesktop.systemd1.Manager",
            method: "RestartUnit",
            arguments: vec!["moonshine@kez.service".to_string(), "replace".to_string()],
            interactive: true,
        }
    );
}

#[test]
fn different_users_have_different_units() {
    assert_ne!(unit_name("kez"), unit_name("ben"));
}
