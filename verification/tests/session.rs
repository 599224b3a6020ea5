use moonshine_tray::probe::{ServerInfo, State};
use moonshine_tray::session::{
    port_to_probe, unit_to_watch, Command, Event, Phase, Session, POLL_INTERVAL_SECONDS,
    SETTLE_DELAY_SECONDS,
};
use moonshine_tray::tray::Action;
use moonshine_tray::unit::Verb;

/// A session that has displayed an idle daemon and is waiting.
fn waiting() -> Session {
    let (mut session, _) = Session::start(47989, "moonshine@kez.service".to_string());
    session.step(Event::Probed(Some(idle())));
    session
}

fn idle() -> ServerInfo {
    ServerInfo {
        hostname: "Moonshine".to_string(),
        streaming: false,
        current_game: 0,
    }
}

#[test]
fn a_session_begins_with_a_probe() {
    let (session, command) = Session::start(47989, "moonshine@kez.service".to_string());
    assert_eq!(command, Command::Probe);
    assert_eq!(session.phase, Phase::Probing);
    assert_eq!(session.tray.state, State::Stopped);
    assert_eq!(session.tray.detail, "Checking…");
}

#[test]
fn an_answer_is_displayed_without_asking_systemd() {
    let (mut session, _) = Session::start(47989, "moonshine@kez.service".to_string());
    assert_eq!(session.step(Event::Probed(Some(idle()))), Command::Repaint);
    assert_eq!(session.phase, Phase::Waiting);
    assert_eq!(session.tray.state, State::Idle);
    assert_eq!(session.tray.detail, "Moonshine — ready on port 47989");
}

#[test]
fn without_an_answer_systemd_is_asked() {
    for (active, state) in [(true, State::Starting), (false, State::Stopped)] {
        let mut session = waiting();
        assert_eq!(session.step(Event::Tick), Command::Probe);
        assert_eq!(session.step(Event::Probed(None)), Command::AskSystemd);
        assert_eq!(session.tray.state, State::Idle);
        assert_eq!(session.step(Event::UnitActive(active)), Command::Repaint);
        assert_eq!(session.tray.state, state);
        assert_eq!(session.phase, Phase::Waiting);
    }
}

#[test]
fn a_verb_is_followed_by_a_refresh_whether_or_not_it_is_accepted() {
    for accepted in [true, false] {
        let mut session = waiting();
        assert_eq!(
            session.step(Event::Posted(Action::Unit(Verb::Restart))),
            Command::Apply(Verb::Restart)
        );
        assert_eq!(session.step(Event::Applied { accepted }), Command::ScheduleRefresh);
        assert_eq!(session.step(Event::Posted(Action::Refresh)), Command::Probe);
    }
}

#[test]
fn pages_and_logs_are_opened_while_waiting() {
    let mut session = waiting();
    assert_eq!(session.step(Event::Posted(Action::OpenPairingPage)), Command::OpenPairingPage);
    assert_eq!(session.step(Event::Posted(Action::ViewLog)), Command::ViewLog);
    assert_eq!(session.phase, Phase::Waiting);
    assert_eq!(session.tray.state, State::Idle);
}

#[test]
fn a_session_ends_when_told_to() {
    for event in [Event::Posted(Action::Quit), Event::Interrupted, Event::Closed] {
        let mut session = waiting();
        assert_eq!(session.step(event), Command::Shutdown);
        assert_eq!(session.phase, Phase::Finished);
        assert!(!session.accepts(&Event::Tick));
    }
}

#[test]
fn only_what_is_waited_for_is_accepted() {
    let (probing, _) = Session::start(47989, "moonshine@kez.service".to_string());
    assert!(probing.accepts(&Event::Probed(None)));
    assert!(!probing.accepts(&Event::Tick));
    let mut session = waiting();
    assert!(session.accepts(&Event::Tick));
    assert!(session.accepts(&Event::Closed));
    assert!(!session.accepts(&Event::UnitActive(true)));
    session.step(Event::Posted(Action::Unit(Verb::Stop)));
    assert!(session.accepts(&Event::Applied { accepted: true }));
    assert!(!session.accepts(&Event::Posted(Action::Quit)));
}

#[test]
fn a_session_goes_on_watching_the_same_thing() {
    let mut session = waiting();
    session.step(Event::Tick);
    session.step(Event::Probed(None));
    session.step(Event::UnitActive(true));
    assert_eq!(session.port, 47989);
    assert_eq!(session.unit, "moonshine@kez.service");
    assert_eq!(session.tray.detail, "Unit is active, but not answering on port 47989");
}

#[test]
fn a_requested_port_overrides_the_configured_one() {
    let contents = Some("[webserver]\nport = 48000\n");
    assert_eq!(port_to_probe(Some(1234), contents), 1234);
    assert_eq!(port_to_probe(None, contents), 48000);
    assert_eq!(port_to_probe(None, None), 47989);
}

#[test]
fn the_unit_follows_from_what_was_asked_for() {
    let (user, logname) = (Some("kez"), Some("ben"));
    assert_eq!(unit_to_watch(Some("other.service"), None, user, logname), "other.service");
    assert_eq!(unit_to_watch(None, Some("ann"), user, logname), "moonshine@ann.service");
    assert_eq!(unit_to_watch(None, None, user, logname), "moonshine@kez.service");
    assert_eq!(unit_to_watch(None, None, None, logname), "moonshine@ben.service");
    assert_eq!(unit_to_watch(None, None, None, None), "moonshine@%i.service");
}

#[test]
fn the_intervals_are_short() {
    assert_eq!(POLL_INTERVAL_SECONDS, 3);
    assert_eq!(SETTLE_DELAY_SECONDS, 2);
}
