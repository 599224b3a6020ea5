//! The life of the tray: what it watches, and what it does about everything that happens.
//!
//! The program around a session performs one command at a time and reports what came of it,
//! or, while the session is waiting, whatever happens next. Polling a daemon, asking systemd
//! and repainting the item are up to the program; what to do when is decided here.

use vstd::prelude::*;

use crate::config;
use crate::probe;
use crate::probe::{ServerInfo, State};
use crate::text;
use crate::tray::{Action, MoonshineTray};
use crate::unit;
use crate::unit::Verb;
use crate::xml;

verus! {

/// How often the daemon is polled, in seconds.
pub const POLL_INTERVAL_SECONDS: u64 = 3;

/// How many seconds to give systemd to act before repainting after a menu action.
///
/// Without this the tray would keep showing the old state until the next tick, which reads as
/// the menu item having done nothing.
pub const SETTLE_DELAY_SECONDS: u64 = 2;

// ---------------------------------------------------------------------------
// What to watch
// ---------------------------------------------------------------------------

/// The port to probe: the one asked for, or else the one that the config file calls for.
///
/// `contents` are those of the config file, or `None` if it could not be read; they are of no
/// account if a port was asked for.
pub fn port_to_probe(requested: Option<u16>, contents: Option<&str>) -> (port: u16)
    ensures
        port == match requested {
            Some(port) => port,
            None => config::port_or_default(text::optional(contents)),
        },
{
    match requested {
        Some(port) => port,
        None => config::webserver_port(contents),
    }
}

/// The unit to watch, given the unit and the user asked for, and what `USER` and `LOGNAME`
/// hold.
pub open spec fn watched_unit(
    unit: Option<Seq<char>>,
    user: Option<Seq<char>>,
    env_user: Option<Seq<char>>,
    env_logname: Option<Seq<char>>,
) -> Seq<char> {
    match unit {
        Some(unit) => unit,
        None => match user {
            Some(user) => unit::instance_of(user),
            None => unit::instance_of(unit::tracked_user(env_user, env_logname)),
        },
    }
}

/// The unit to watch: the one asked for, or else the moonshine instance of the user asked for,
/// or else that of the current user.
pub fn unit_to_watch(
    unit: Option<&str>,
    user: Option<&str>,
    env_user: Option<&str>,
    env_logname: Option<&str>,
) -> (name: String)
    ensures
        name@ == watched_unit(
            text::optional(unit),
            text::optional(user),
            text::optional(env_user),
            text::optional(env_logname),
        ),
{
    match unit {
        Some(unit) => unit.to_string(),
        None => match user {
            Some(user) => unit::unit_name(user),
            None => unit::unit_name(unit::current_user(env_user, env_logname).as_str()),
        },
    }
}

// ---------------------------------------------------------------------------
// Events and commands
// ---------------------------------------------------------------------------

/// Something that happened.
#[derive(Debug, PartialEq, Eq)]
pub enum Event {
    /// The daemon answered a probe, or (`None`) it did not, or not in time, or not as
    /// moonshine does.
    Probed(Option<ServerInfo>),
    /// Systemd said whether the unit is active.
    UnitActive(bool),
    /// Systemd enqueued the job that a verb stands for, or refused to.
    Applied { accepted: bool },
    /// The polling interval has elapsed.
    Tick,
    /// The program was interrupted from the keyboard.
    Interrupted,
    /// An action was posted.
    Posted(Action),
    /// No more actions can come.
    Closed,
}

/// What an `Event` says.
pub enum EventView {
    Probed(Option<probe::ServerInfoView>),
    UnitActive(bool),
    Applied { accepted: bool },
    Tick,
    Interrupted,
    Posted(Action),
    Closed,
}

impl View for Event {
    type V = EventView;

    open spec fn view(&self) -> EventView {
        match self {
            Event::Probed(Some(info)) => EventView::Probed(Some(info@)),
            Event::Probed(None) => EventView::Probed(None),
            Event::UnitActive(active) => EventView::UnitActive(*active),
            Event::Applied { accepted } => EventView::Applied { accepted: *accepted },
            Event::Tick => EventView::Tick,
            Event::Interrupted => EventView::Interrupted,
            Event::Posted(action) => EventView::Posted(*action),
            Event::Closed => EventView::Closed,
        }
    }
}

/// Something for the program to do.
#[derive(Clone, Copy, Debug, PartialEq, Eq, Structural)]
pub enum Command {
    /// Probe the daemon, and report what it answered.
    Probe,
    /// Ask systemd whether the unit is active, and report what it said.
    AskSystemd,
    /// Ask systemd to apply a verb to the unit, and report whether it will.
    Apply(Verb),
    /// Show the session's tray item as it now is, then wait.
    Repaint,
    /// Post [`Action::Refresh`] once systemd has had a moment to act; wait in the meantime.
    ScheduleRefresh,
    /// Open the pairing page in a browser, then wait.
    OpenPairingPage,
    /// Open the unit's journal in a terminal, then wait.
    ViewLog,
    /// Take the tray item down; nothing follows.
    Shutdown,
}

/// What a session is waiting for.
#[derive(Clone, Copy, Debug, PartialEq, Eq, Structural)]
pub enum Phase {
    /// The outcome of a probe.
    Probing,
    /// Systemd's word on whether the unit is active.
    Asking,
    /// Systemd's word on whether it will apply a verb.
    Applying,
    /// Whatever happens next.
    Waiting,
    /// Nothing: it is over.
    Finished,
}

/// A running tray.
#[derive(Debug)]
pub struct Session {
    /// The port on which the daemon is probed.
    pub port: u16,
    /// The unit that is watched.
    pub unit: String,
    /// The tray item, as it is to be displayed.
    pub tray: MoonshineTray,
    /// What the session is waiting for.
    pub phase: Phase,
}

/// What a `Session` says.
#[verifier::ext_equal]
pub struct SessionView {
    pub port: u16,
    pub unit: Seq<char>,
    pub state: State,
    pub detail: Seq<char>,
    pub phase: Phase,
}

impl View for Session {
    type V = SessionView;

    open spec fn view(&self) -> SessionView {
        SessionView {
            port: self.port,
            unit: self.unit@,
            state: self.tray.state,
            detail: self.tray.detail@,
            phase: self.phase,
        }
    }
}

/// Whether an event is one that can happen in the given phase.
pub open spec fn can_happen(phase: Phase, event: EventView) -> bool {
    match phase {
        Phase::Probing => event is Probed,
        Phase::Asking => event is UnitActive,
        Phase::Applying => event is Applied,
        Phase::Waiting => event is Tick || event is Interrupted || event is Posted || event
            is Closed,
        Phase::Finished => false,
    }
}

/// A session as it begins: nothing is known yet, and the daemon is being probed.
pub open spec fn beginning(port: u16, unit: Seq<char>) -> SessionView {
    SessionView {
        port,
        unit,
        state: State::Stopped,
        detail: "Checking…"@,
        phase: Phase::Probing,
    }
}

impl SessionView {
    /// The session in another phase.
    pub open spec fn in_phase(self, phase: Phase) -> SessionView {
        SessionView { phase, ..self }
    }

    /// The session displaying what a probe found, with the unit active or not, and waiting.
    pub open spec fn displaying(
        self,
        info: Option<probe::ServerInfoView>,
        unit_active: bool,
    ) -> SessionView {
        SessionView {
            state: probe::state_of(info, unit_active),
            detail: probe::detail_of(info, unit_active, self.port),
            phase: Phase::Waiting,
            ..self
        }
    }

    /// What a session makes of an event: the session that it becomes, and what is to be done.
    pub open spec fn after(self, event: EventView) -> (SessionView, Command) {
        match event {
            EventView::Probed(Some(info)) => (self.displaying(Some(info), true), Command::Repaint),
            EventView::Probed(None) => (self.in_phase(Phase::Asking), Command::AskSystemd),
            EventView::UnitActive(active) => (self.displaying(None, active), Command::Repaint),
            EventView::Applied { .. } => (self.in_phase(Phase::Waiting), Command::ScheduleRefresh),
            EventView::Tick => (self.in_phase(Phase::Probing), Command::Probe),
            EventView::Posted(Action::Unit(verb)) => (
                self.in_phase(Phase::Applying),
                Command::Apply(verb),
            ),
            EventView::Posted(Action::OpenPairingPage) => (self, Command::OpenPairingPage),
            EventView::Posted(Action::ViewLog) => (self, Command::ViewLog),
            EventView::Posted(Action::Refresh) => (
                self.in_phase(Phase::Probing),
                Command::Probe,
            ),
            EventView::Posted(Action::Quit) | EventView::Interrupted | EventView::Closed => (
                self.in_phase(Phase::Finished),
                Command::Shutdown,
            ),
        }
    }
}

impl Session {
    /// Begin to watch a unit and the port on which its daemon should answer.
    ///
    /// The daemon is probed at once, to paint the real state rather than showing "Checking…"
    /// for a full interval.
    pub fn start(port: u16, unit: String) -> (begun: (Session, Command))
        ensures
            begun.0@ == beginning(port, unit@),
            begun.1 == Command::Probe,
    {
        (Session { port, unit, tray: MoonshineTray::new(), phase: Phase::Probing }, Command::Probe)
    }

    /// Whether an event is one that can happen now.
    pub fn accepts(&self, event: &Event) -> (accepted: bool)
        ensures
            accepted == can_happen(self@.phase, event@),
    {
        match self.phase {
            Phase::Probing => match event {
                Event::Probed(_) => true,
                _ => false,
            },
            Phase::Asking => match event {
                Event::UnitActive(_) => true,
                _ => false,
            },
            Phase::Applying => match event {
                Event::Applied { .. } => true,
                _ => false,
            },
            Phase::Waiting => match event {
                Event::Tick | Event::Interrupted | Event::Posted(_) | Event::Closed => true,
                _ => false,
            },
            Phase::Finished => false,
        }
    }

    /// Take an event into account, and say what to do next.
    pub fn step(&mut self, event: Event) -> (command: Command)
        requires
            can_happen(old(self)@.phase, event@),
        ensures
            (final(self)@, command) == old(self)@.after(event@),
    {
        match event {
            Event::Probed(Some(info)) => {
                self.display(Some(&info), true);
                Command::Repaint
            },
            // Systemd is only asked when the daemon did not answer, since that is the only case
            // where the answer changes anything - and it keeps the common path off the system
            // bus.
            Event::Probed(None) => {
                self.phase = Phase::Asking;
                Command::AskSystemd
            },
            Event::UnitActive(active) => {
                self.display(None, active);
                Command::Repaint
            },
            // The next poll shows the truth either way, so a refusal at the polkit prompt needs
            // nothing here.
            Event::Applied { .. } => {
                self.phase = Phase::Waiting;
                Command::ScheduleRefresh
            },
            Event::Tick | Event::Posted(Action::Refresh) => {
                self.phase = Phase::Probing;
                Command::Probe
            },
            Event::Posted(Action::Unit(verb)) => {
                self.phase = Phase::Applying;
                Command::Apply(verb)
            },
            Event::Posted(Action::OpenPairingPage) => Command::OpenPairingPage,
            Event::Posted(Action::ViewLog) => Command::ViewLog,
            Event::Posted(Action::Quit) | Event::Interrupted | Event::Closed => {
                self.phase = Phase::Finished;
                Command::Shutdown
            },
        }
    }

    fn display(&mut self, info: Option<&ServerInfo>, unit_active: bool)
        ensures
            final(self)@ == old(self)@.displaying(probe::answer(info), unit_active),
    {
        let (state, detail) = probe::classify(info, unit_active, self.port);
        self.tray.update(state, detail);
        self.phase = Phase::Waiting;
    }
}

// ---------------------------------------------------------------------------
// Laws
// ---------------------------------------------------------------------------

/// What a session says is what its fields hold.
pub proof fn law_a_session_says_what_its_fields_hold(session: Session)
    ensures
        session@.port == session.port,
        session@.unit == session.unit@,
        session@.state == session.tray.state,
        session@.detail == session.tray.detail@,
        session@.phase == session.phase,
{
}

/// An event is taken for what it is, and an answer of the daemon for what it says.
pub proof fn law_an_event_is_taken_for_what_it_is(event: Event)
    ensures
        match event {
            Event::Probed(Some(info)) => event@ matches EventView::Probed(Some(seen))
                && seen.hostname == info.hostname@ && seen.streaming == info.streaming
                && seen.current_game == info.current_game,
            Event::Probed(None) => event@ == EventView::Probed(None),
            Event::UnitActive(active) => event@ == EventView::UnitActive(active),
            Event::Applied { accepted } => event@ == (EventView::Applied { accepted }),
            Event::Tick => event@ == EventView::Tick,
            Event::Interrupted => event@ == EventView::Interrupted,
            Event::Posted(action) => event@ == EventView::Posted(action),
            Event::Closed => event@ == EventView::Closed,
        },
{
}

/// A session begins by watching what it was told to, with the daemon yet to be probed and
/// nothing known of it.
pub proof fn law_a_session_begins_knowing_nothing(port: u16, unit: Seq<char>)
    ensures
        beginning(port, unit).port == port,
        beginning(port, unit).unit == unit,
        beginning(port, unit).state == State::Stopped,
        beginning(port, unit).detail == "Checking…"@,
        beginning(port, unit).phase == Phase::Probing,
{
}

/// Each outcome can be reported exactly while it is waited for, and whatever the user or the
/// clock does is heard exactly while nothing else is.
pub proof fn law_events_come_in_their_own_phase(phase: Phase, event: EventView)
    ensures
        can_happen(phase, event) <==> phase == match event {
            EventView::Probed(_) => Phase::Probing,
            EventView::UnitActive(_) => Phase::Asking,
            EventView::Applied { .. } => Phase::Applying,
            EventView::Tick | EventView::Interrupted | EventView::Posted(_) | EventView::Closed =>
                Phase::Waiting,
        },
{
}

/// Whatever is displayed, each event has one consequence: the daemon is polled on every tick and
/// on every refresh; what the menu posts is carried out, and nothing else in its place.
pub proof fn law_every_event_has_its_consequence(session: SessionView, event: EventView)
    ensures
        session.after(event).1 == match event {
            EventView::Tick | EventView::Posted(Action::Refresh) => Command::Probe,
            EventView::Probed(Some(_)) | EventView::UnitActive(_) => Command::Repaint,
            EventView::Probed(None) => Command::AskSystemd,
            EventView::Posted(Action::Unit(verb)) => Command::Apply(verb),
            EventView::Applied { .. } => Command::ScheduleRefresh,
            EventView::Posted(Action::OpenPairingPage) => Command::OpenPairingPage,
            EventView::Posted(Action::ViewLog) => Command::ViewLog,
            EventView::Posted(Action::Quit) | EventView::Interrupted | EventView::Closed =>
                Command::Shutdown,
        },
{
}

/// A session waits for the outcome of what it asked for, and for nothing in particular if there
/// is none to report.
pub proof fn law_a_session_waits_for_what_it_asked_for(session: SessionView, event: EventView)
    requires
        can_happen(session.phase, event),
    ensures
        session.after(event).0.phase == match session.after(event).1 {
            Command::Probe => Phase::Probing,
            Command::AskSystemd => Phase::Asking,
            Command::Apply(_) => Phase::Applying,
            Command::Repaint | Command::ScheduleRefresh | Command::OpenPairingPage
            | Command::ViewLog => Phase::Waiting,
            Command::Shutdown => Phase::Finished,
        },
{
}

/// Once the daemon has answered, the session displays what it answered: streaming if it said so
/// and idle otherwise, and beneath that which daemon it is and what it streams, or the port of
/// the session on which it is ready. If it has not, the session displays whether the unit is
/// starting or stopped, as systemd said. What was displayed before is of no account.
pub proof fn law_a_session_displays_what_was_found(
    session: SessionView,
    info: probe::ServerInfoView,
    active: bool,
)
    ensures
        ({
            let shown = session.after(EventView::Probed(Some(info))).0;
            &&& info.streaming ==> shown.state == State::Streaming
            &&& !info.streaming ==> shown.state == State::Idle
            &&& info.streaming && info.current_game != 0 ==> shown.detail == info.hostname
                + " — streaming app "@ + text::signed_decimal(info.current_game as int)
            &&& info.streaming && info.current_game == 0 ==> shown.detail == info.hostname
                + " — streaming an application"@
            &&& !info.streaming ==> shown.detail == info.hostname + " — ready on port "@
                + text::decimal(session.port as nat)
        }),
        ({
            let asked = session.after(EventView::Probed(None)).0;
            let shown = asked.after(EventView::UnitActive(active)).0;
            &&& active ==> shown.state == State::Starting
            &&& !active ==> shown.state == State::Stopped
            &&& active ==> shown.detail == "Unit is active, but not answering on port "@
                + text::decimal(session.port as nat)
            &&& !active ==> shown.detail == "Unit is not running"@
        }),
{
    probe::law_a_display_says_what_was_found(info, true, session.port);
    probe::law_a_display_says_what_was_found(info, active, session.port);
}

/// Systemd is asked about the unit exactly when the daemon was probed and did not answer.
pub proof fn law_systemd_is_asked_only_without_an_answer(session: SessionView, event: EventView)
    ensures
        session.after(event).1 == Command::AskSystemd <==> event == EventView::Probed(None),
{
}

/// A refresh ends up displaying what the probe found, and, if it found nothing, what systemd
/// said: whatever was displayed before, and without a question to systemd if there was an
/// answer.
pub proof fn law_a_refresh_displays_what_was_found(
    session: SessionView,
    info: Option<probe::ServerInfoView>,
    unit_active: bool,
)
    ensures
        ({
            let (probed, command) = session.after(EventView::Probed(info));
            match info {
                Some(_) => command == Command::Repaint && probed == session.displaying(
                    info,
                    unit_active,
                ),
                None => command == Command::AskSystemd && probed.after(
                    EventView::UnitActive(unit_active),
                ) == (session.displaying(info, unit_active), Command::Repaint),
            }
        }),
{
}

/// What is displayed changes only together with a command to repaint it.
pub proof fn law_nothing_changes_unpainted(session: SessionView, event: EventView)
    ensures
        session.after(event).1 != Command::Repaint ==> session.after(event).0.state == session.state
            && session.after(event).0.detail == session.detail,
{
}

/// What a session watches never changes.
pub proof fn law_the_watch_never_changes(session: SessionView, event: EventView)
    ensures
        session.after(event).0.port == session.port,
        session.after(event).0.unit == session.unit,
{
}

/// Every verb is put to systemd, and whether it is accepted or refused, a refresh is scheduled
/// next, with the session waiting for it.
pub proof fn law_every_verb_is_followed_by_a_refresh(
    session: SessionView,
    verb: Verb,
    accepted: bool,
)
    ensures
        ({
            let (applying, command) = session.after(EventView::Posted(Action::Unit(verb)));
            let (waiting, next) = applying.after(EventView::Applied { accepted });
            &&& command == Command::Apply(verb)
            &&& next == Command::ScheduleRefresh
            &&& waiting == session.in_phase(Phase::Waiting)
            &&& can_happen(waiting.phase, EventView::Posted(Action::Refresh))
            &&& waiting.after(EventView::Posted(Action::Refresh)).1 == Command::Probe
        }),
{
}

/// A session ends exactly when the user quits, the program is interrupted, or no more actions
/// can come; and then nothing more can happen.
pub proof fn law_a_session_ends_only_when_told_to(session: SessionView, event: EventView)
    requires
        can_happen(session.phase, event),
    ensures
        session.after(event).1 == Command::Shutdown <==> session.after(event).0.phase
            == Phase::Finished,
        session.after(event).1 == Command::Shutdown <==> event == EventView::Posted(Action::Quit)
            || event == EventView::Interrupted || event == EventView::Closed,
        session.after(event).0.phase == Phase::Finished ==> forall|next: EventView|
            !#[trigger] can_happen(session.after(event).0.phase, next),
{
}

/// The session after a series of events.
pub open spec fn after_all(session: SessionView, events: Seq<EventView>) -> SessionView
    decreases events.len(),
{
    if events.len() == 0 {
        session
    } else {
        after_all(session, events.drop_last()).after(events.last()).0
    }
}

/// Whether each of a series of events can happen when its turn comes.
pub open spec fn all_can_happen(session: SessionView, events: Seq<EventView>) -> bool
    decreases events.len(),
{
    events.len() == 0 || {
        &&& all_can_happen(session, events.drop_last())
        &&& can_happen(after_all(session, events.drop_last()).phase, events.last())
    }
}

/// A series of events is taken into account one by one, from the first to the last.
pub proof fn law_events_are_taken_one_by_one(
    session: SessionView,
    events: Seq<EventView>,
    event: EventView,
)
    ensures
        after_all(session, Seq::empty()) == session,
        after_all(session, events.push(event)) == after_all(session, events).after(event).0,
        all_can_happen(session, Seq::empty()),
        all_can_happen(session, events.push(event)) <==> all_can_happen(session, events)
            && can_happen(after_all(session, events).phase, event),
{
    assert(events.push(event).drop_last() == events);
}

/// Whether an event settles what is displayed: the daemon answered, or else systemd did.
pub open spec fn settles(event: EventView) -> bool {
    match event {
        EventView::Probed(info) => info is Some,
        EventView::UnitActive(_) => true,
        _ => false,
    }
}

/// Whether a session displays what an event that settles it found.
pub open spec fn shows(session: SessionView, event: EventView) -> bool {
    match event {
        EventView::Probed(Some(info)) => {
            &&& session.state == if info.streaming {
                State::Streaming
            } else {
                State::Idle
            }
            &&& session.detail == if info.streaming {
                info.hostname + " — streaming "@ + probe::application(info.current_game)
            } else {
                info.hostname + " — ready on port "@ + text::decimal(session.port as nat)
            }
        },
        EventView::UnitActive(active) => {
            &&& session.state == if active {
                State::Starting
            } else {
                State::Stopped
            }
            &&& session.detail == if active {
                "Unit is active, but not answering on port "@ + text::decimal(session.port as nat)
            } else {
                "Unit is not running"@
            }
        },
        _ => false,
    }
}

/// Whether what a session displays after a series of events is what the last of them that
/// settled it found, or what the session began with if there was none.
pub open spec fn is_truthful(session: SessionView, events: Seq<EventView>) -> bool {
    &&& (forall|k: int| 0 <= k < events.len() ==> !settles(#[trigger] events[k])) ==> session.state
        == State::Stopped && session.detail == "Checking…"@
    &&& forall|k: int|
        0 <= k < events.len() && settles(#[trigger] events[k]) && (forall|j: int|
            k < j < events.len() ==> !settles(#[trigger] events[j])) ==> shows(session, events[k])
}

/// Through whatever happens in the life of a session, it displays what the last answer of the
/// daemon, or else of systemd, gave for the port that it watches, or "Checking…" before the
/// first; and it goes on watching the same unit and port.
pub proof fn law_a_session_stays_truthful(port: u16, unit: Seq<char>, events: Seq<EventView>)
    requires
        all_can_happen(beginning(port, unit), events),
    ensures
        is_truthful(after_all(beginning(port, unit), events), events),
        after_all(beginning(port, unit), events).port == port,
        after_all(beginning(port, unit), events).unit == unit,
    decreases events.len(),
{
    if events.len() > 0 {
        let earlier = events.drop_last();
        law_a_session_stays_truthful(port, unit, earlier);
        let before = after_all(beginning(port, unit), earlier);
        let after = before.after(events.last()).0;
        assert(events.last() == events[events.len() - 1]);
        assert forall|k: int|
            0 <= k < events.len() && settles(#[trigger] events[k]) && (forall|j: int|
                k < j < events.len() ==> !settles(#[trigger] events[j])) implies shows(
            after,
            events[k],
        ) by {
            if k < earlier.len() {
                assert(!settles(events[events.len() - 1]));
                assert(earlier[k] == events[k]);
                assert forall|j: int| k < j < earlier.len() implies !settles(
                    #[trigger] earlier[j],
                ) by {
                    assert(earlier[j] == events[j]);
                }
                assert(shows(before, events[k]));
            }
        }
        if forall|k: int| 0 <= k < events.len() ==> !settles(#[trigger] events[k]) {
            assert forall|k: int| 0 <= k < earlier.len() implies !settles(
                #[trigger] earlier[k],
            ) by {
                assert(earlier[k] == events[k]);
            }
        }
    }
}

/// A daemon that answers is shown as streaming exactly if its response carries the word for that
/// as its state, and as idle otherwise, whatever else the response carries.
pub proof fn law_streaming_shows_exactly_when_it_is_reported(
    session: SessionView,
    elements: Seq<xml::Element>,
    state: Seq<char>,
)
    requires
        probe::well_named(elements),
        xml::first_text(elements, "state"@) == Some(state),
    ensures
        ({
            let found = probe::server_info(xml::document(elements));
            let shown = session.after(EventView::Probed(found)).0;
            &&& shown.state == State::Streaming <==> state == "MOONSHINE_SERVER_BUSY"@
            &&& shown.state == State::Idle <==> state != "MOONSHINE_SERVER_BUSY"@
        }),
{
    probe::law_responses_read_back(elements);
}

/// If the daemon's answer is the last thing to settle what is displayed, it is displayed however
/// much happens after it: streaming exactly if that answer said so.
pub proof fn law_the_last_answer_stays_displayed(
    port: u16,
    unit: Seq<char>,
    events: Seq<EventView>,
    k: int,
    info: probe::ServerInfoView,
)
    requires
        all_can_happen(beginning(port, unit), events),
        0 <= k < events.len(),
        events[k] == EventView::Probed(Some(info)),
        forall|j: int|
            k < j < events.len() ==> #[trigger] events[j] !is UnitActive && (events[j] is Probed
                ==> events[j] == EventView::Probed(None)),
    ensures
        ({
            let session = after_all(beginning(port, unit), events);
            &&& session.state == State::Streaming <==> info.streaming
            &&& session.state == State::Idle <==> !info.streaming
            &&& session.detail.take(info.hostname.len() as int) == info.hostname
        }),
{
    law_a_session_stays_truthful(port, unit, events);
    assert(settles(events[k]));
    assert forall|j: int| k < j < events.len() implies !settles(#[trigger] events[j]) by {}
    let session = after_all(beginning(port, unit), events);
    assert(shows(session, events[k]));
    assert(session.detail.take(info.hostname.len() as int) =~= info.hostname);
}

/// The unit to watch is the one asked for, even if a user was asked for too; or else that of
/// the user asked for, and only for want of both that of the current user.
pub proof fn law_what_was_asked_for_is_watched(
    unit: Seq<char>,
    user: Seq<char>,
    other: Option<Seq<char>>,
    env_user: Option<Seq<char>>,
    env_logname: Option<Seq<char>>,
)
    ensures
        watched_unit(Some(unit), other, env_user, env_logname) == unit,
        watched_unit(None, Some(user), env_user, env_logname) == "moonshine@"@ + user
            + ".service"@,
        env_user is Some ==> watched_unit(None, None, env_user, env_logname) == "moonshine@"@
            + env_user->0 + ".service"@,
        env_user is None && env_logname is Some ==> watched_unit(None, None, env_user, env_logname)
            == "moonshine@"@ + env_logname->0 + ".service"@,
        env_user is None && env_logname is None ==> watched_unit(None, None, env_user, env_logname)
            == "moonshine@%i.service"@,
{
    reveal_strlit("moonshine@");
    reveal_strlit("%i");
    reveal_strlit(".service");
    reveal_strlit("moonshine@%i.service");
    assert("moonshine@"@ + "%i"@ + ".service"@ =~= "moonshine@%i.service"@);
}

} // verus!
