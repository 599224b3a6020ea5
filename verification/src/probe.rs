//! Working out what the daemon is doing from its own GameStream endpoint.
//!
//! The state is read from `/serverinfo` rather than from systemd alone. A daemon that
//! systemd reports as `active` may still be unresponsive - during startup, or because it has
//! hung - and reporting that as "running" would be misleading. Systemd is consulted only to
//! tell "stopped" apart from "not answering yet".

use vstd::prelude::*;

use crate::text;
use crate::xml;

verus! {

/// How many seconds to wait for the daemon to answer before treating it as unreachable.
pub const HTTP_TIMEOUT_SECONDS: u64 = 2;

/// Address at which the daemon's webserver is reached.
pub const SERVER_ADDRESS: &'static str = "127.0.0.1";

/// Host that requests to it name.
pub const SERVER_HOST: &'static str = "localhost";

/// What is requested of the daemon's webserver.
///
/// The uniqueid is a dummy: it only affects the pairing status, which is never read here.
pub const SERVER_INFO_URI: &'static str = "/serverinfo?uniqueid=0";

/// The `state` value that moonshine reports while a client is streaming.
///
/// It is reported whenever a session exists, and `MOONSHINE_SERVER_FREE` otherwise. Note that
/// this is moonshine's own vocabulary, not GFE's `SUNSHINE_SERVER_BUSY`.
pub const STATE_BUSY: &'static str = "MOONSHINE_SERVER_BUSY";

/// What the tray displays, in increasing order of "the daemon is doing something useful".
#[derive(Clone, Copy, Debug, PartialEq, Eq, Structural)]
pub enum State {
    /// The systemd unit is not running.
    Stopped,
    /// The unit is up, but the daemon is not answering on its webserver port yet.
    Starting,
    /// The daemon is answering and waiting for a Moonlight client.
    Idle,
    /// A client has launched an application.
    Streaming,
}

impl State {
    /// Icon colour for each state, as `0xRRGGBB`.
    pub open spec fn colour_of(self) -> u32 {
        match self {
            State::Stopped => 0x6e6e6e,
            State::Starting => 0xe0a030,
            State::Idle => 0x3fb950,
            State::Streaming => 0x3d8bfd,
        }
    }

    /// Label of each state.
    pub open spec fn label_of(self) -> Seq<char> {
        match self {
            State::Stopped => "Stopped"@,
            State::Starting => "Starting…"@,
            State::Idle => "Idle — waiting for a client"@,
            State::Streaming => "Streaming"@,
        }
    }

    /// Icon colour for this state, as `0xRRGGBB`.
    pub fn colour(self) -> (colour: u32)
        ensures
            colour == self.colour_of(),
    {
        match self {
            State::Stopped => 0x6e6e6e,
            State::Starting => 0xe0a030,
            State::Idle => 0x3fb950,
            State::Streaming => 0x3d8bfd,
        }
    }

    /// Short human-readable label, shown as the first (disabled) menu entry.
    pub fn label(self) -> (label: &'static str)
        ensures
            label@ == self.label_of(),
    {
        match self {
            State::Stopped => "Stopped",
            State::Starting => "Starting…",
            State::Idle => "Idle — waiting for a client",
            State::Streaming => "Streaming",
        }
    }
}

/// The subset of `/serverinfo` the tray cares about.
#[derive(Clone, Debug, PartialEq, Eq)]
pub struct ServerInfo {
    /// The name moonshine advertises to clients.
    pub hostname: String,
    /// Whether a session is currently active.
    pub streaming: bool,
    /// Id of the running application, or 0 when idle.
    pub current_game: i32,
}

/// What a `ServerInfo` says.
pub struct ServerInfoView {
    pub hostname: Seq<char>,
    pub streaming: bool,
    pub current_game: i32,
}

impl View for ServerInfo {
    type V = ServerInfoView;

    open spec fn view(&self) -> ServerInfoView {
        ServerInfoView {
            hostname: self.hostname@,
            streaming: self.streaming,
            current_game: self.current_game,
        }
    }
}

// ---------------------------------------------------------------------------
// Reading a response
// ---------------------------------------------------------------------------

/// What a `/serverinfo` response says, or `None` if it names no state.
pub open spec fn server_info(body: Seq<char>) -> Option<ServerInfoView> {
    match xml::tag_text(body, "state"@) {
        Some(state) => Some(
            ServerInfoView {
                hostname: match xml::tag_text(body, "hostname"@) {
                    Some(hostname) => hostname,
                    None => "Moonshine"@,
                },
                streaming: state == STATE_BUSY@,
                current_game: match xml::tag_text(body, "currentgame"@) {
                    Some(game) => match text::integer_i32(game) {
                        Some(id) => id,
                        None => 0,
                    },
                    None => 0,
                },
            },
        ),
        None => None,
    }
}

/// Whether a parse gave what `expected` says.
pub open spec fn says(parsed: Result<ServerInfo, ()>, expected: Option<ServerInfoView>) -> bool {
    match parsed {
        Ok(info) => expected == Some(info@),
        Err(()) => expected is None,
    }
}

/// Parse the fields the tray needs out of a `/serverinfo` response body.
///
/// Moonshine emits no prolog, attributes or namespaces on the elements read here, so matching
/// tags directly is sufficient. A missing `state` element means that it is not moonshine that
/// answered, and is treated as a failed probe.
pub fn parse_server_info(body: &str) -> (parsed: Result<ServerInfo, ()>)
    ensures
        says(parsed, server_info(body@)),
{
    let state = match xml::extract_tag(body, "state") {
        Some(state) => state,
        None => {
            return Err(());
        },
    };
    let hostname = match xml::extract_tag(body, "hostname") {
        Some(hostname) => hostname,
        None => "Moonshine".to_string(),
    };
    let current_game: i32 = match xml::extract_tag(body, "currentgame") {
        Some(game) => match text::parse_i32(game.as_str()) {
            Some(id) => id,
            None => 0,
        },
        None => 0,
    };
    Ok(ServerInfo { hostname, streaming: text::same(state.as_str(), STATE_BUSY), current_game })
}

/// What `String::from_utf8_lossy` makes of `bytes`.
pub uninterp spec fn lossy_text(bytes: Seq<u8>) -> Seq<char>;

/// `String::from_utf8_lossy` turns bytes into a string, which depends on the bytes alone. If
/// they are valid UTF-8 it is the text that they encode; which replacement characters stand
/// for invalid bytes is left unsaid.
#[verifier::external_body]
fn decode_lossy(bytes: &[u8]) -> (text: String)
    ensures
        text@ == lossy_text(bytes@),
        vstd::utf8::valid_utf8(bytes@) ==> text@ == vstd::utf8::decode_utf8(bytes@),
{
    String::from_utf8_lossy(bytes).into_owned()
}

/// Parse the body of a `/serverinfo` response as it came off the wire.
pub fn parse_response(body: &[u8]) -> (parsed: Result<ServerInfo, ()>)
    ensures
        says(parsed, server_info(lossy_text(body@))),
        vstd::utf8::valid_utf8(body@) ==> says(
            parsed,
            server_info(vstd::utf8::decode_utf8(body@)),
        ),
{
    let text = decode_lossy(body);
    parse_server_info(text.as_str())
}

// ---------------------------------------------------------------------------
// What to display
// ---------------------------------------------------------------------------

/// The state to display.
pub open spec fn state_of(info: Option<ServerInfoView>, unit_active: bool) -> State {
    match info {
        Some(info) => if info.streaming {
            State::Streaming
        } else {
            State::Idle
        },
        None => if unit_active {
            State::Starting
        } else {
            State::Stopped
        },
    }
}

/// What a tooltip calls the application with id `game`.
pub open spec fn application(game: i32) -> Seq<char> {
    if game != 0 {
        "app "@ + text::signed_decimal(game as int)
    } else {
        "an application"@
    }
}

/// The line of tooltip detail to display.
pub open spec fn detail_of(
    info: Option<ServerInfoView>,
    unit_active: bool,
    port: u16,
) -> Seq<char> {
    match info {
        Some(info) => if info.streaming {
            info.hostname + " — streaming "@ + application(info.current_game)
        } else {
            info.hostname + " — ready on port "@ + text::decimal(port as nat)
        },
        None => if unit_active {
            "Unit is active, but not answering on port "@ + text::decimal(port as nat)
        } else {
            "Unit is not running"@
        },
    }
}

/// What the daemon answered, if it did.
pub open spec fn answer(info: Option<&ServerInfo>) -> Option<ServerInfoView> {
    match info {
        Some(info) => Some(info@),
        None => None,
    }
}

/// Turn a probe result into the state to display and a line of tooltip detail.
///
/// `unit_active` is only consulted when the daemon did not answer, to distinguish a unit that
/// is starting up (or wedged) from one that was never started.
pub fn classify(info: Option<&ServerInfo>, unit_active: bool, port: u16) -> (display: (
    State,
    String,
))
    ensures
        display.0 == state_of(answer(info), unit_active),
        display.1@ == detail_of(answer(info), unit_active, port),
{
    match info {
        Some(info) => {
            let mut detail = info.hostname.clone();
            if info.streaming {
                detail.append(" — streaming ");
                if info.current_game != 0 {
                    detail.append("app ");
                    text::push_signed_decimal(&mut detail, info.current_game);
                } else {
                    detail.append("an application");
                }
                proof {
                    assert(detail@ =~= detail_of(Some(info@), unit_active, port));
                }
                (State::Streaming, detail)
            } else {
                detail.append(" — ready on port ");
                text::push_decimal(&mut detail, port as u32);
                (State::Idle, detail)
            }
        },
        None => if unit_active {
            let mut detail = "Unit is active, but not answering on port ".to_string();
            text::push_decimal(&mut detail, port as u32);
            (State::Starting, detail)
        } else {
            (State::Stopped, "Unit is not running".to_string())
        },
    }
}

// ---------------------------------------------------------------------------
// Laws
// ---------------------------------------------------------------------------

/// The daemon is asked on the loopback address, and not for longer than two seconds.
pub proof fn law_the_daemon_is_asked_locally()
    ensures
        SERVER_ADDRESS@ == "127.0.0.1"@,
        SERVER_HOST@ == "localhost"@,
        SERVER_INFO_URI@ == "/serverinfo?uniqueid=0"@,
        HTTP_TIMEOUT_SECONDS == 2,
{
}

/// What is said of a daemon is what was read of it: the same hostname, the same application,
/// and whether it is streaming; and something is said exactly if something was read.
pub proof fn law_what_was_read_is_what_is_said(
    parsed: Result<ServerInfo, ()>,
    info: &ServerInfo,
    expected: Option<ServerInfoView>,
)
    ensures
        info@.hostname == info.hostname@,
        info@.streaming == info.streaming,
        info@.current_game == info.current_game,
        answer(Some(info)) == Some(info@),
        answer(None) is None,
        says(parsed, expected) <==> match parsed {
            Ok(read) => {
                &&& expected is Some
                &&& expected->0.hostname == read.hostname@
                &&& expected->0.streaming == read.streaming
                &&& expected->0.current_game == read.current_game
            },
            Err(()) => expected is None,
        },
{
}

/// A response is an answer exactly if it has a `state`, whatever else it has or lacks. The daemon
/// is streaming exactly if that is the word for busy. Its name is its `hostname`, even an empty
/// one, and it has another only for want of that; its application is its `currentgame`, or 0
/// where there is none or it is not an `i32`.
pub proof fn law_every_field_is_read_from_its_element(body: Seq<char>)
    ensures
        server_info(body) is Some <==> xml::tag_text(body, "state"@) is Some,
        server_info(body) matches Some(info) ==> {
            &&& info.streaming <==> xml::tag_text(body, "state"@) == Some(
                "MOONSHINE_SERVER_BUSY"@,
            )
            &&& xml::tag_text(body, "hostname"@) is Some ==> info.hostname == xml::tag_text(
                body,
                "hostname"@,
            )->0
            &&& xml::tag_text(body, "hostname"@) is None ==> info.hostname == "Moonshine"@
            &&& xml::tag_text(body, "currentgame"@) matches Some(game) ==> match text::integer(
                game,
            ) {
                Some(id) if i32::MIN <= id <= i32::MAX => info.current_game == id,
                _ => info.current_game == 0,
            }
            &&& xml::tag_text(body, "currentgame"@) is None ==> info.current_game == 0
        },
{
}

/// Whether every element of a response has a name of ASCII letters and digits.
pub open spec fn well_named(elements: Seq<xml::Element>) -> bool {
    forall|i: int| 0 <= i < elements.len() ==> xml::is_name(#[trigger] elements[i].name)
}

/// A response is read for what its elements say, whatever text they carry and whatever other
/// elements stand among them. One that has no `state` is not taken for an answer; one that has
/// no `hostname` gets a default, and one that has no `currentgame`, or a `currentgame` that is
/// not an `i32`, is taken to run no application.
pub proof fn law_responses_read_back(elements: Seq<xml::Element>)
    requires
        well_named(elements),
    ensures
        server_info(xml::document(elements)) == match xml::first_text(elements, "state"@) {
            Some(state) => Some(
                ServerInfoView {
                    hostname: match xml::first_text(elements, "hostname"@) {
                        Some(hostname) => hostname,
                        None => "Moonshine"@,
                    },
                    streaming: state == STATE_BUSY@,
                    current_game: match xml::first_text(elements, "currentgame"@) {
                        Some(game) => match text::integer_i32(game) {
                            Some(id) => id,
                            None => 0,
                        },
                        None => 0,
                    },
                },
            ),
            None => None,
        },
{
    reveal_strlit("state");
    reveal_strlit("hostname");
    reveal_strlit("currentgame");
    xml::law_elements_read_back(elements, "state"@);
    xml::law_elements_read_back(elements, "hostname"@);
    xml::law_elements_read_back(elements, "currentgame"@);
}

/// A server that reports a hostname, an application id and a state is read as having that
/// hostname and that id, and as streaming exactly if the state says so; and its response
/// arrives as it was sent.
pub proof fn law_a_server_is_read_as_it_reports(
    elements: Seq<xml::Element>,
    hostname: Seq<char>,
    game: i32,
    state: Seq<char>,
)
    requires
        well_named(elements),
        xml::first_text(elements, "hostname"@) == Some(hostname),
        xml::first_text(elements, "currentgame"@) == Some(text::signed_decimal(game as int)),
        xml::first_text(elements, "state"@) == Some(state),
    ensures
        server_info(xml::document(elements)) == Some(
            ServerInfoView { hostname, streaming: state == STATE_BUSY@, current_game: game },
        ),
        ({
            let wire = vstd::utf8::encode_utf8(xml::document(elements));
            vstd::utf8::valid_utf8(wire) && vstd::utf8::decode_utf8(wire) == xml::document(elements)
        }),
{
    law_responses_read_back(elements);
    text::law_decimal_reads_back(game);
    vstd::utf8::encode_utf8_valid_utf8(xml::document(elements));
    vstd::utf8::encode_utf8_decode_utf8(xml::document(elements));
}

/// No two states share a colour.
pub proof fn law_colours_are_distinct(a: State, b: State)
    ensures
        a.colour_of() == b.colour_of() ==> a == b,
{
}

/// No two states share a label.
pub proof fn law_labels_are_distinct(a: State, b: State)
    ensures
        a.label_of() == b.label_of() ==> a == b,
{
    reveal_strlit("Stopped");
    reveal_strlit("Starting…");
    reveal_strlit("Idle — waiting for a client");
    reveal_strlit("Streaming");
    assert(a.label_of().len() == b.label_of().len() ==> a.label_of()[2] == b.label_of()[2] ==> a
        == b);
}

/// Once the daemon has answered, the state of the unit changes nothing.
pub proof fn law_an_answer_outranks_the_unit(info: ServerInfoView, a: bool, b: bool, port: u16)
    ensures
        state_of(Some(info), a) == state_of(Some(info), b),
        detail_of(Some(info), a, port) == detail_of(Some(info), b, port),
{
}

/// What is displayed of a daemon that answered is whether it is streaming, and the line beneath
/// says which daemon it is and, if it is streaming, what, or else on which port it is ready. A
/// daemon that did not answer is starting or stopped as the unit is active or not.
pub proof fn law_a_display_says_what_was_found(
    info: ServerInfoView,
    unit_active: bool,
    port: u16,
)
    ensures
        info.streaming ==> state_of(Some(info), unit_active) == State::Streaming,
        !info.streaming ==> state_of(Some(info), unit_active) == State::Idle,
        unit_active ==> state_of(None, unit_active) == State::Starting,
        !unit_active ==> state_of(None, unit_active) == State::Stopped,
        info.streaming && info.current_game != 0 ==> detail_of(Some(info), unit_active, port)
            == info.hostname + " — streaming app "@ + text::signed_decimal(
            info.current_game as int,
        ),
        info.streaming && info.current_game == 0 ==> detail_of(Some(info), unit_active, port)
            == info.hostname + " — streaming an application"@,
        !info.streaming ==> detail_of(Some(info), unit_active, port) == info.hostname
            + " — ready on port "@ + text::decimal(port as nat),
        unit_active ==> detail_of(None, unit_active, port)
            == "Unit is active, but not answering on port "@ + text::decimal(port as nat),
        !unit_active ==> detail_of(None, unit_active, port) == "Unit is not running"@,
{
    reveal_strlit(" — streaming ");
    reveal_strlit("app ");
    reveal_strlit("an application");
    reveal_strlit(" — streaming app ");
    reveal_strlit(" — streaming an application");
    assert(" — streaming "@ + "app "@ =~= " — streaming app "@);
    assert(" — streaming "@ + "an application"@ =~= " — streaming an application"@);
    let id = text::signed_decimal(info.current_game as int);
    assert(info.hostname + " — streaming "@ + ("app "@ + id) == info.hostname + (
    " — streaming "@ + "app "@) + id);
    assert(info.hostname + " — streaming "@ + "an application"@ == info.hostname + (
    " — streaming "@ + "an application"@));
}

/// The tray shows the daemon as answering exactly when it answered.
pub proof fn law_only_an_answer_shows_as_answering(
    info: Option<ServerInfoView>,
    unit_active: bool,
)
    ensures
        (state_of(info, unit_active) is Idle || state_of(info, unit_active) is Streaming) <==> info
            is Some,
        state_of(info, unit_active) is Streaming <==> info is Some && info->0.streaming,
        state_of(info, unit_active) is Stopped <==> info is None && !unit_active,
{
}

} // verus!
