use moonshine_tray::icon::crescent;
use moonshine_tray::probe::State;
use moonshine_tray::tray::{Action, MenuEntry, MoonshineTray};
use moonshine_tray::unit::Verb;

/// A tray in the given state.
fn tray(state: State) -> MoonshineTray {
    MoonshineTray {
        state,
        detail: "some detail".to_string(),
    }
}

/// Label and enabled flag of every non-separator entry, in menu order.
fn entries(tray: &MoonshineTray) -> Vec<(String, bool)> {
    tray.menu()
        .into_iter()
        .filter_map(|item| match item {
            MenuEntry::Item { label, enabled, .. } => Some((label, enabled)),
            MenuEntry::Separator => None,
        })
        .collect()
}

/// What the entry with the given label posts.
fn activate(state: State, label: &str) -> Option<Action> {
    tray(state)
        .menu()
        .into_iter()
        .find_map(|item| match item {
            MenuEntry::Item { label: found, action, .. } if found == label => Some(action),
            _ => None,
        })
        .unwrap_or_else(|| panic!("no menu entry labelled {label:?}"))
}

#[test]
fn the_menu_lists_every_action_in_order() {
    let tray = tray(State::Idle);
    let labels: Vec<String> = entries(&tray).into_iter().map(|(label, _)| label).collect();
    assert_eq!(
        labels,
        vec![
            "Idle — waiting for a client",
            "Stop moonshine",
            "Restart moonshine",
            "Pair a client…",
            "View log…",
            "Quit tray",
        ]
    );
}

#[test]
fn the_status_entry_is_never_clickable() {
    for state in [State::Stopped, State::Starting, State::Idle, State::Streaming] {
        let tray = tray(state);
        let (label, enabled) = entries(&tray)[0].clone();
        assert_eq!(label, state.label());
        assert!(!enabled, "status entry clickable in {state:?}");
    }
}

#[test]
fn the_toggle_follows_whether_the_unit_is_running() {
    let stopped = tray(State::Stopped);
    let idle = tray(State::Idle);
    assert!(entries(&stopped).iter().any(|(label, _)| label == "Start moonshine"));
    assert!(entries(&idle).iter().any(|(label, _)| label == "Stop moonshine"));
}

#[test]
fn the_toggle_posts_the_verb_matching_its_label() {
    assert_eq!(
        activate(State::Stopped, "Start moonshine"),
        Some(Action::Unit(Verb::Start))
    );
    assert_eq!(activate(State::Idle, "Stop moonshine"), Some(Action::Unit(Verb::Stop)));
}

#[test]
fn the_other_entries_post_their_own_actions() {
    assert_eq!(
        activate(State::Idle, "Restart moonshine"),
        Some(Action::Unit(Verb::Restart))
    );
    assert_eq!(activate(State::Idle, "Pair a client…"), Some(Action::OpenPairingPage));
    assert_eq!(activate(State::Idle, "View log…"), Some(Action::ViewLog));
    assert_eq!(activate(State::Idle, "Quit tray"), Some(Action::Quit));
}

#[test]
fn pairing_is_offered_only_while_the_daemon_answers() {
    let offered = |state| {
        let tray = tray(state);
        entries(&tray)
            .into_iter()
            .find(|(label, _)| label == "Pair a client…")
            .expect("pairing entry missing")
            .1
    };

    assert!(offered(State::Idle));
    assert!(offered(State::Streaming));
    assert!(!offered(State::Stopped));
    assert!(!offered(State::Starting));
}

#[test]
fn the_icon_and_tooltip_follow_the_state() {
    let tray = tray(State::Streaming);
    assert_eq!(tray.id(), "moonshine-tray");
    assert_eq!(tray.title(), "Moonshine");

    let tool_tip = tray.tool_tip();
    assert!(tool_tip.title.contains("Streaming"));
    assert_eq!(tool_tip.description, "some detail");

    let rendered = tray.icon_pixmap();
    let expected = crescent(State::Streaming.colour());
    assert_eq!(rendered.len(), expected.len());
    for (rendered, expected) in rendered.iter().zip(expected.iter()) {
        assert_eq!(
            (rendered.width, rendered.height, &rendered.data),
            (expected.width, expected.height, &expected.data)
        );
    }
}

#[test]
fn a_click_posts_what_the_label_said_when_the_menu_was_built() {
    let mut tray = tray(State::Stopped);
    let menu = tray.menu();
    tray.update(State::Streaming, "by now".to_string());
    let posted: Vec<Option<Action>> = menu.iter().map(|entry| tray.click(entry)).collect();
    assert_eq!(
        posted,
        vec![
            None,
            None,
            Some(Action::Unit(Verb::Start)),
            Some(Action::Unit(Verb::Restart)),
            None,
            Some(Action::OpenPairingPage),
            Some(Action::ViewLog),
            None,
            Some(Action::Quit),
        ]
    );
    assert_eq!(tray.state, State::Streaming);
    assert_eq!(tray.detail, "by now");
}

#[test]
fn the_menu_is_in_four_groups() {
    let groups: Vec<usize> = tray(State::Starting)
        .menu()
        .split(|entry| matches!(entry, MenuEntry::Separator))
        .map(|group| group.len())
        .collect();
    assert_eq!(groups, vec![1, 2, 2, 1]);
}

#[test]
fn the_status_entry_posts_nothing() {
    assert_eq!(activate(State::Stopped, "Stopped"), None);
}

#[test]
fn everything_but_the_status_and_pairing_is_always_clickable() {
    for state in [State::Stopped, State::Starting, State::Idle, State::Streaming] {
        let flags: Vec<bool> = entries(&tray(state)).into_iter().map(|(_, enabled)| enabled).collect();
        let answering = state == State::Idle || state == State::Streaming;
        assert_eq!(flags, vec![false, true, true, answering, true, true]);
    }
}

#[test]
fn a_new_tray_shows_that_it_is_checking() {
    let mut tray = MoonshineTray::new();
    assert_eq!(tray.state, State::Stopped);
    assert_eq!(tray.tool_tip().title, "Moonshine: Stopped");
    assert_eq!(tray.tool_tip().description, "Checking…");
    tray.update(State::Idle, "ready".to_string());
    assert_eq!(tray.tool_tip().title, "Moonshine: Idle — waiting for a client");
    assert_eq!(tray.tool_tip().description, "ready");
}

#[test]
fn icons_tell_the_states_apart() {
    let stopped = tray(State::Stopped).icon_pixmap();
    let idle = tray(State::Idle).icon_pixmap();
    for (a, b) in stopped.iter().zip(idle.iter()) {
        assert_ne!(a, b);
    }
}
