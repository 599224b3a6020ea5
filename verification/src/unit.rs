//! Inspecting and controlling `moonshine@<user>.service` over D-Bus.
//!
//! Moonshine installs a *system* unit that runs as the target user, so the tray - running
//! unprivileged in a desktop session - cannot manage it directly. Rather than shelling out to
//! `pkexec systemctl`, the manager methods are called with the D-Bus
//! `ALLOW_INTERACTIVE_AUTHORIZATION` flag set, which lets systemd defer to polkit and the
//! desktop raise its own authentication prompt. No polkit rule is installed and no standing
//! privilege is granted.
//!
//! What is decided here is which calls to make and what to make of the replies. Sending them
//! is up to the program.

use vstd::prelude::*;

use crate::text;

verus! {

pub const SYSTEMD_BUS: &'static str = "org.freedesktop.systemd1";

pub const SYSTEMD_PATH: &'static str = "/org/freedesktop/systemd1";

pub const SYSTEMD_MANAGER: &'static str = "org.freedesktop.systemd1.Manager";

pub const PROPERTIES_INTERFACE: &'static str = "org.freedesktop.DBus.Properties";

pub const UNIT_INTERFACE: &'static str = "org.freedesktop.systemd1.Unit";

pub const ACTIVE_STATE_PROPERTY: &'static str = "ActiveState";

/// Error systemd returns for a unit it has never loaded.
pub const NO_SUCH_UNIT: &'static str = "org.freedesktop.systemd1.NoSuchUnit";

/// A verb the tray can ask systemd to apply to the moonshine unit.
#[derive(Clone, Copy, Debug, PartialEq, Eq, Structural)]
pub enum Verb {
    /// Start the unit.
    Start,
    /// Stop the unit.
    Stop,
    /// Restart the unit.
    Restart,
}

impl Verb {
    /// Name of the manager method of each verb.
    pub open spec fn method_of(self) -> Seq<char> {
        match self {
            Verb::Start => "StartUnit"@,
            Verb::Stop => "StopUnit"@,
            Verb::Restart => "RestartUnit"@,
        }
    }

    /// Name of the `org.freedesktop.systemd1.Manager` method implementing this verb.
    pub fn method(self) -> (name: &'static str)
        ensures
            name@ == self.method_of(),
    {
        match self {
            Verb::Start => "StartUnit",
            Verb::Stop => "StopUnit",
            Verb::Restart => "RestartUnit",
        }
    }
}

// ---------------------------------------------------------------------------
// Which unit
// ---------------------------------------------------------------------------

/// Name of the moonshine unit instance belonging to `user`.
pub open spec fn instance_of(user: Seq<char>) -> Seq<char> {
    "moonshine@"@ + user + ".service"@
}

/// The user to track, given what `USER` and `LOGNAME` hold.
pub open spec fn tracked_user(
    user: Option<Seq<char>>,
    logname: Option<Seq<char>>,
) -> Seq<char> {
    match user {
        Some(user) => user,
        None => match logname {
            Some(logname) => logname,
            None => "%i"@,
        },
    }
}

/// Name of the moonshine unit instance belonging to `user`.
pub fn unit_name(user: &str) -> (name: String)
    ensures
        name@ == instance_of(user@),
{
    let mut name = "moonshine@".to_string();
    name.append(user);
    name.append(".service");
    name
}

/// The user whose moonshine instance this tray should track, given what `USER` and `LOGNAME`
/// hold.
///
/// Falls back from the one to the other and finally to the literal `%i` placeholder, which
/// will simply fail to resolve and show as stopped rather than silently tracking the wrong
/// instance.
pub fn current_user(user: Option<&str>, logname: Option<&str>) -> (name: String)
    ensures
        name@ == tracked_user(text::optional(user), text::optional(logname)),
{
    match user {
        Some(user) => user.to_string(),
        None => match logname {
            Some(logname) => logname.to_string(),
            None => "%i".to_string(),
        },
    }
}

// ---------------------------------------------------------------------------
// Calls
// ---------------------------------------------------------------------------

/// A method call on the system bus.
#[derive(Debug, PartialEq, Eq)]
pub struct BusCall {
    /// Bus name of the service called.
    pub destination: &'static str,
    /// Object called.
    pub path: String,
    /// Interface that the method belongs to.
    pub interface: &'static str,
    /// Method called.
    pub method: &'static str,
    /// Its arguments, all of them strings.
    pub arguments: Vec<String>,
    /// Whether the service may raise an authentication prompt before it acts.
    pub interactive: bool,
}

/// What a `BusCall` says.
#[verifier::ext_equal]
pub struct BusCallView {
    pub destination: Seq<char>,
    pub path: Seq<char>,
    pub interface: Seq<char>,
    pub method: Seq<char>,
    pub arguments: Seq<Seq<char>>,
    pub interactive: bool,
}

impl View for BusCall {
    type V = BusCallView;

    open spec fn view(&self) -> BusCallView {
        BusCallView {
            destination: self.destination@,
            path: self.path@,
            interface: self.interface@,
            method: self.method@,
            arguments: text::views(self.arguments@),
            interactive: self.interactive,
        }
    }
}

/// The call that asks systemd where the unit's object is.
pub open spec fn lookup_of(unit: Seq<char>) -> BusCallView {
    BusCallView {
        destination: SYSTEMD_BUS@,
        path: SYSTEMD_PATH@,
        interface: SYSTEMD_MANAGER@,
        method: "GetUnit"@,
        arguments: seq![unit],
        interactive: false,
    }
}

/// The call that reads the active state of the unit whose object is at `path`.
pub open spec fn active_state_of(path: Seq<char>) -> BusCallView {
    BusCallView {
        destination: SYSTEMD_BUS@,
        path,
        interface: PROPERTIES_INTERFACE@,
        method: "Get"@,
        arguments: seq![UNIT_INTERFACE@, ACTIVE_STATE_PROPERTY@],
        interactive: false,
    }
}

/// The call that applies `verb` to `unit`.
pub open spec fn application_of(verb: Verb, unit: Seq<char>) -> BusCallView {
    BusCallView {
        destination: SYSTEMD_BUS@,
        path: SYSTEMD_PATH@,
        interface: SYSTEMD_MANAGER@,
        method: verb.method_of(),
        arguments: seq![unit, "replace"@],
        interactive: true,
    }
}

/// The call that asks systemd where the unit's object is.
pub fn lookup(unit: &str) -> (call: BusCall)
    ensures
        call@ == lookup_of(unit@),
{
    let mut arguments: Vec<String> = Vec::new();
    arguments.push(unit.to_string());
    assert(text::views(arguments@) =~= seq![unit@]);
    BusCall {
        destination: SYSTEMD_BUS,
        path: SYSTEMD_PATH.to_string(),
        interface: SYSTEMD_MANAGER,
        method: "GetUnit",
        arguments,
        interactive: false,
    }
}

/// The call that reads the active state of the unit whose object is at `path`.
pub fn active_state(path: &str) -> (call: BusCall)
    ensures
        call@ == active_state_of(path@),
{
    let mut arguments: Vec<String> = Vec::new();
    arguments.push(UNIT_INTERFACE.to_string());
    arguments.push(ACTIVE_STATE_PROPERTY.to_string());
    assert(text::views(arguments@) =~= seq![UNIT_INTERFACE@, ACTIVE_STATE_PROPERTY@]);
    BusCall {
        destination: SYSTEMD_BUS,
        path: path.to_string(),
        interface: PROPERTIES_INTERFACE,
        method: "Get",
        arguments,
        interactive: false,
    }
}

/// The call that applies `verb` to `unit`, letting polkit prompt the user if authorisation is
/// needed.
///
/// It returns once systemd has *enqueued* the job, not once it has finished; the poller picks
/// up the result on its next pass.
pub fn apply(verb: Verb, unit: &str) -> (call: BusCall)
    ensures
        call@ == application_of(verb, unit@),
{
    let mut arguments: Vec<String> = Vec::new();
    arguments.push(unit.to_string());
    arguments.push("replace".to_string());
    assert(text::views(arguments@) =~= seq![unit@, "replace"@]);
    BusCall {
        destination: SYSTEMD_BUS,
        path: SYSTEMD_PATH.to_string(),
        interface: SYSTEMD_MANAGER,
        method: verb.method(),
        arguments,
        interactive: true,
    }
}

// ---------------------------------------------------------------------------
// Whether the unit is running
// ---------------------------------------------------------------------------

/// Whether a systemd `ActiveState` value means the unit is running or on its way up.
pub open spec fn means_running(active_state: Seq<char>) -> bool {
    active_state == "active"@ || active_state == "activating"@ || active_state == "reloading"@
}

/// Whether a systemd `ActiveState` value means the unit is running or on its way up.
///
/// `activating` and `reloading` count as running so that a unit which is still starting is
/// reported as such, instead of flickering through "stopped" on every restart.
pub fn is_running(active_state: &str) -> (running: bool)
    ensures
        running == means_running(active_state@),
{
    text::same(active_state, "active") || text::same(active_state, "activating") || text::same(
        active_state,
        "reloading",
    )
}

/// How far the question whether a unit is active has come.
#[derive(Debug, PartialEq, Eq)]
pub enum Inquiry {
    /// This call is to be made, and its reply taken into account.
    Ask(BusCall),
    /// The unit is active, or it is not.
    Answer(bool),
}

/// What to do once systemd has said where the unit's object is, or given an error (`None`).
///
/// A unit systemd has never heard of, and any error reaching systemd at all, both read as "not
/// running" - which is what the tray would show anyway, and is only ever used to add detail to
/// a probe that already failed.
pub fn after_lookup(path: Option<&str>) -> (next: Inquiry)
    ensures
        match path {
            Some(path) => next matches Inquiry::Ask(call) && call@ == active_state_of(path@),
            None => next == Inquiry::Answer(false),
        },
{
    match path {
        Some(path) => Inquiry::Ask(active_state(path)),
        None => Inquiry::Answer(false),
    }
}

/// Whether the unit is active, given its active state, or `None` if reading it failed or gave
/// something other than a string.
pub fn after_active_state(active_state: Option<&str>) -> (active: bool)
    ensures
        active == (active_state is Some && means_running(active_state->0@)),
{
    match active_state {
        Some(active_state) => is_running(active_state),
        None => false,
    }
}

// ---------------------------------------------------------------------------
// Laws
// ---------------------------------------------------------------------------

/// What a call says is what its fields hold.
pub proof fn law_a_call_says_what_its_fields_hold(call: BusCall)
    ensures
        call@.destination == call.destination@,
        call@.path == call.path@,
        call@.interface == call.interface@,
        call@.method == call.method@,
        call@.arguments.len() == call.arguments@.len(),
        forall|i: int|
            0 <= i < call.arguments@.len() ==> #[trigger] call@.arguments[i]
                == call.arguments@[i]@,
        call@.interactive == call.interactive,
{
}

/// To start a unit calls `StartUnit` of the systemd manager, to stop it calls `StopUnit` and to
/// restart it calls `RestartUnit`; each of them on that very unit, replacing whatever job it has
/// queued, and with leave to prompt.
pub proof fn law_a_verb_calls_the_method_of_its_name(verb: Verb, unit: Seq<char>)
    ensures
        application_of(verb, unit).method == "StartUnit"@ <==> verb == Verb::Start,
        application_of(verb, unit).method == "StopUnit"@ <==> verb == Verb::Stop,
        application_of(verb, unit).method == "RestartUnit"@ <==> verb == Verb::Restart,
        application_of(verb, unit).destination == "org.freedesktop.systemd1"@,
        application_of(verb, unit).path == "/org/freedesktop/systemd1"@,
        application_of(verb, unit).interface == "org.freedesktop.systemd1.Manager"@,
        application_of(verb, unit).arguments.len() == 2,
        application_of(verb, unit).arguments[0] == unit,
        application_of(verb, unit).arguments[1] == "replace"@,
        application_of(verb, unit).interactive,
{
    law_verbs_call_their_own_methods(verb, Verb::Start);
    law_verbs_call_their_own_methods(verb, Verb::Stop);
    law_verbs_call_their_own_methods(verb, Verb::Restart);
}

/// Whether a unit is active is asked in two calls, neither of which changes anything: the
/// manager is asked where the unit is, and the object at that very place is asked for the
/// `ActiveState` that it has as a unit.
pub proof fn law_a_unit_is_looked_at_where_it_is(unit: Seq<char>, path: Seq<char>)
    ensures
        lookup_of(unit).destination == "org.freedesktop.systemd1"@,
        lookup_of(unit).path == "/org/freedesktop/systemd1"@,
        lookup_of(unit).interface == "org.freedesktop.systemd1.Manager"@,
        lookup_of(unit).method == "GetUnit"@,
        lookup_of(unit).arguments.len() == 1,
        lookup_of(unit).arguments[0] == unit,
        active_state_of(path).destination == "org.freedesktop.systemd1"@,
        active_state_of(path).path == path,
        active_state_of(path).interface == "org.freedesktop.DBus.Properties"@,
        active_state_of(path).method == "Get"@,
        active_state_of(path).arguments.len() == 2,
        active_state_of(path).arguments[0] == "org.freedesktop.systemd1.Unit"@,
        active_state_of(path).arguments[1] == "ActiveState"@,
{
}

/// A unit runs if systemd calls it active, activating or reloading, and by no other word.
pub proof fn law_three_words_mean_running(active_state: Seq<char>)
    ensures
        means_running(active_state) <==> active_state == "active"@ || active_state
            == "activating"@ || active_state == "reloading"@,
{
}

/// The name of a unit is that of its user, whatever that is, between `moonshine@` and
/// `.service`.
pub proof fn law_a_unit_is_named_after_its_user(user: Seq<char>)
    ensures
        instance_of(user).len() == 10 + user.len() + 8,
        instance_of(user).take(10) == "moonshine@"@,
        instance_of(user).subrange(10, 10int + user.len()) == user,
        instance_of(user).skip(10int + user.len()) == ".service"@,
{
    reveal_strlit("moonshine@");
    reveal_strlit(".service");
    assert("moonshine@"@.len() == 10);
    assert(".service"@.len() == 8);
    assert(instance_of(user).take(10) =~= "moonshine@"@);
    assert(instance_of(user).subrange(10, 10int + user.len()) =~= user);
    assert(instance_of(user).skip(10int + user.len()) =~= ".service"@);
}

/// The user to track is what `USER` holds, even if that is empty; `LOGNAME` counts only if
/// `USER` is not set, and if neither is set there is a placeholder that is no user's name.
pub proof fn law_user_comes_before_logname(user: Seq<char>, logname: Option<Seq<char>>)
    ensures
        tracked_user(Some(user), logname) == user,
        logname is Some ==> tracked_user(None, logname) == logname->0,
        logname is None ==> tracked_user(None, logname) == "%i"@,
{
}

/// Different users have different units.
pub proof fn law_units_tell_users_apart(a: Seq<char>, b: Seq<char>)
    ensures
        instance_of(a) == instance_of(b) ==> a == b,
{
    let prefix = "moonshine@"@;
    let suffix = ".service"@;
    if instance_of(a) == instance_of(b) {
        let n = prefix.len() as int;
        assert(instance_of(a).len() == prefix.len() + a.len() + suffix.len());
        assert(instance_of(b).len() == prefix.len() + b.len() + suffix.len());
        assert(a =~= instance_of(a).subrange(n, n + a.len()));
        assert(b =~= instance_of(b).subrange(n, n + b.len()));
    }
}

/// Different verbs call different methods.
pub proof fn law_verbs_call_their_own_methods(a: Verb, b: Verb)
    ensures
        a.method_of() == b.method_of() ==> a == b,
{
    reveal_strlit("StartUnit");
    reveal_strlit("StopUnit");
    reveal_strlit("RestartUnit");
    assert("StartUnit"@.len() == 9);
    assert("StopUnit"@.len() == 8);
    assert("RestartUnit"@.len() == 11);
}

/// Only applying a verb may raise an authentication prompt; looking at a unit never does.
pub proof fn law_only_verbs_prompt(verb: Verb, unit: Seq<char>, path: Seq<char>)
    ensures
        application_of(verb, unit).interactive,
        !lookup_of(unit).interactive,
        !active_state_of(path).interactive,
{
}

} // verus!
