//! What the tray item shows: its icon, tooltip and menu.

use vstd::prelude::*;

use crate::icon;
use crate::icon::Icon;
use crate::probe::State;
use crate::unit::Verb;

verus! {

/// Something the user asked for from the menu.
///
/// Menu callbacks must not block - the menu is frozen until they return - so they only post
/// one of these to the event loop.
#[derive(Clone, Copy, Debug, PartialEq, Eq, Structural)]
pub enum Action {
    /// Apply a systemd verb to the moonshine unit.
    Unit(Verb),
    /// Open the pairing page in a browser.
    OpenPairingPage,
    /// Open the unit's journal in a terminal.
    ViewLog,
    /// Re-poll now rather than waiting out the interval.
    Refresh,
    /// Shut the tray down.
    Quit,
}

/// An entry of the menu.
#[derive(Debug, PartialEq, Eq)]
pub enum MenuEntry {
    /// A line between groups of entries.
    Separator,
    /// An entry with a label.
    Item {
        label: String,
        /// Whether it can be clicked.
        enabled: bool,
        /// What a click posts, if anything.
        action: Option<Action>,
    },
}

/// What a `MenuEntry` says.
#[verifier::ext_equal]
pub enum MenuEntryView {
    Separator,
    Item { label: Seq<char>, enabled: bool, action: Option<Action> },
}

impl View for MenuEntry {
    type V = MenuEntryView;

    open spec fn view(&self) -> MenuEntryView {
        match self {
            MenuEntry::Separator => MenuEntryView::Separator,
            MenuEntry::Item { label, enabled, action } => MenuEntryView::Item {
                label: label@,
                enabled: *enabled,
                action: *action,
            },
        }
    }
}

impl MenuEntryView {
    /// What a click on the entry posts, if anything. It was settled when the menu was built.
    pub open spec fn posted(self) -> Option<Action> {
        match self {
            MenuEntryView::Separator => None,
            MenuEntryView::Item { action, .. } => action,
        }
    }
}

/// What the entries of a menu say, in order.
pub open spec fn entries(menu: Seq<MenuEntry>) -> Seq<MenuEntryView> {
    menu.map_values(|entry: MenuEntry| entry@)
}

/// Whether the pairing page can be opened: it is served by the daemon, so there is nothing to
/// open when it is not answering.
pub open spec fn can_pair(state: State) -> bool {
    state == State::Idle || state == State::Streaming
}

/// The entry that starts the unit if it is stopped, and stops it otherwise.
pub open spec fn toggle(state: State) -> MenuEntryView {
    if state == State::Stopped {
        MenuEntryView::Item {
            label: "Start moonshine"@,
            enabled: true,
            action: Some(Action::Unit(Verb::Start)),
        }
    } else {
        MenuEntryView::Item {
            label: "Stop moonshine"@,
            enabled: true,
            action: Some(Action::Unit(Verb::Stop)),
        }
    }
}

/// The menu in each state.
pub open spec fn menu_of(state: State) -> Seq<MenuEntryView> {
    seq![
        MenuEntryView::Item { label: state.label_of(), enabled: false, action: None },
        MenuEntryView::Separator,
        toggle(state),
        MenuEntryView::Item {
            label: "Restart moonshine"@,
            enabled: true,
            action: Some(Action::Unit(Verb::Restart)),
        },
        MenuEntryView::Separator,
        MenuEntryView::Item {
            label: "Pair a client…"@,
            enabled: can_pair(state),
            action: Some(Action::OpenPairingPage),
        },
        MenuEntryView::Item {
            label: "View log…"@,
            enabled: true,
            action: Some(Action::ViewLog),
        },
        MenuEntryView::Separator,
        MenuEntryView::Item { label: "Quit tray"@, enabled: true, action: Some(Action::Quit) },
    ]
}

/// A tooltip.
#[derive(Debug, PartialEq, Eq)]
pub struct ToolTip {
    pub title: String,
    pub description: String,
}

/// The tray item: what is currently displayed.
#[derive(Debug)]
pub struct MoonshineTray {
    pub state: State,
    pub detail: String,
}

/// An entry that posts `action` when it is clicked.
fn item(label: &str, enabled: bool, action: Action) -> (entry: MenuEntry)
    ensures
        entry@ == (MenuEntryView::Item { label: label@, enabled, action: Some(action) }),
{
    MenuEntry::Item { label: label.to_string(), enabled, action: Some(action) }
}

impl MoonshineTray {
    /// What is displayed until the daemon has been probed for the first time.
    pub fn new() -> (tray: MoonshineTray)
        ensures
            tray.state == State::Stopped,
            tray.detail@ == "Checking…"@,
    {
        MoonshineTray { state: State::Stopped, detail: "Checking…".to_string() }
    }

    /// Name by which the tray host knows the item.
    pub fn id(&self) -> (id: String)
        ensures
            id@ == "moonshine-tray"@,
    {
        "moonshine-tray".to_string()
    }

    /// Name by which the user knows the item.
    pub fn title(&self) -> (title: String)
        ensures
            title@ == "Moonshine"@,
    {
        "Moonshine".to_string()
    }

    /// The icon, in the colour of the state, at every size the host might want.
    pub fn icon_pixmap(&self) -> (icons: Vec<Icon>)
        ensures
            icon::is_crescent(icons@, self.state.colour_of()),
    {
        icon::crescent(self.state.colour())
    }

    /// The tooltip: the state, and the detail that goes with it.
    pub fn tool_tip(&self) -> (tool_tip: ToolTip)
        ensures
            tool_tip.title@ == "Moonshine: "@ + self.state.label_of(),
            tool_tip.description@ == self.detail@,
    {
        let mut title = "Moonshine: ".to_string();
        title.append(self.state.label());
        ToolTip { title, description: self.detail.clone() }
    }

    /// The menu, from top to bottom.
    pub fn menu(&self) -> (menu: Vec<MenuEntry>)
        ensures
            entries(menu@) == menu_of(self.state),
    {
        let state = self.state;
        let mut menu: Vec<MenuEntry> = Vec::new();
        menu.push(
            MenuEntry::Item { label: state.label().to_string(), enabled: false, action: None },
        );
        menu.push(MenuEntry::Separator);
        if state == State::Stopped {
            menu.push(item("Start moonshine", true, Action::Unit(Verb::Start)));
        } else {
            menu.push(item("Stop moonshine", true, Action::Unit(Verb::Stop)));
        }
        menu.push(item("Restart moonshine", true, Action::Unit(Verb::Restart)));
        menu.push(MenuEntry::Separator);
        // The page is served by the daemon, so there is nothing to open when it is not
        // answering.
        menu.push(
            item(
                "Pair a client…",
                state == State::Idle || state == State::Streaming,
                Action::OpenPairingPage,
            ),
        );
        menu.push(item("View log…", true, Action::ViewLog));
        menu.push(MenuEntry::Separator);
        menu.push(item("Quit tray", true, Action::Quit));
        assert(entries(menu@) =~= menu_of(state));
        menu
    }

    /// Take a click on an entry of this tray's menu, and say what to post to the event loop, if
    /// anything.
    ///
    /// The menu may have been built before the tray was last updated. What counts is what the
    /// entry said then, and a click changes nothing that is displayed.
    pub fn click(&mut self, entry: &MenuEntry) -> (posted: Option<Action>)
        ensures
            posted == entry@.posted(),
            *final(self) == *old(self),
    {
        match entry {
            MenuEntry::Separator => None,
            MenuEntry::Item { action, .. } => *action,
        }
    }

    /// Display another state and another detail.
    pub fn update(&mut self, state: State, detail: String)
        ensures
            final(self).state == state,
            final(self).detail == detail,
    {
        self.state = state;
        self.detail = detail;
    }
}

// ---------------------------------------------------------------------------
// Laws
// ---------------------------------------------------------------------------

/// The first entry names the state, and is never clickable.
pub proof fn law_the_status_entry_is_never_clickable(state: State)
    ensures
        menu_of(state)[0] == (MenuEntryView::Item {
            label: state.label_of(),
            enabled: false,
            action: None,
        }),
{
}

/// The menu offers to start the unit exactly when it is stopped, and to stop it exactly when
/// it is not.
pub proof fn law_the_toggle_follows_the_state(state: State, i: int)
    requires
        0 <= i < menu_of(state).len(),
    ensures
        menu_of(state)[i] matches MenuEntryView::Item { action, .. } ==> action == Some(
            Action::Unit(Verb::Start),
        ) ==> state == State::Stopped,
        menu_of(state)[i] matches MenuEntryView::Item { action, .. } ==> action == Some(
            Action::Unit(Verb::Stop),
        ) ==> state != State::Stopped,
        menu_of(state).contains(toggle(state)),
{
    assert(menu_of(state)[2] == toggle(state));
}

/// Every menu has exactly one entry that starts or stops the unit. It is the third, it can always
/// be clicked, and it says and does the same thing: it stops the unit if that is starting, idle
/// or streaming, and starts it if it is stopped.
pub proof fn law_one_entry_starts_or_stops_the_unit(menu: Seq<MenuEntry>, state: State, i: int)
    requires
        entries(menu) == menu_of(state),
        0 <= i < menu.len(),
    ensures
        (menu[i] matches MenuEntry::Item { action: Some(action), .. } && (action == Action::Unit(
            Verb::Start,
        ) || action == Action::Unit(Verb::Stop))) <==> i == 2,
        menu.len() > 2,
        state == State::Starting || state == State::Idle || state == State::Streaming ==> (menu[2]
            matches MenuEntry::Item { label, enabled, action } && label@ == "Stop moonshine"@
            && enabled && action == Some(Action::Unit(Verb::Stop))),
        state == State::Stopped ==> (menu[2] matches MenuEntry::Item { label, enabled, action }
            && label@ == "Start moonshine"@ && enabled && action == Some(
            Action::Unit(Verb::Start),
        )),
{
    assert(entries(menu).len() == menu.len());
    assert(menu_of(state).len() == 9);
    assert(forall|k: int| 0 <= k < 9 ==> #[trigger] entries(menu)[k] == menu[k]@);
    assert(menu[2]@ == menu_of(state)[2]);
    assert(menu[i]@ == menu_of(state)[i]);
}

/// Besides the entry that starts or stops the unit, a menu names the state, which cannot be
/// clicked and posts nothing, and offers to restart the unit, to pair, to view the log and to
/// quit, in that order and in groups. Only pairing is ever disabled, and that exactly while the
/// daemon does not answer.
pub proof fn law_a_menu_offers_everything_in_order(menu: Seq<MenuEntry>, state: State)
    requires
        entries(menu) == menu_of(state),
    ensures
        menu.len() == 9,
        menu[0] matches MenuEntry::Item { label, enabled, action } && label@ == state.label_of()
            && !enabled && action is None,
        menu[1] is Separator,
        menu[3] matches MenuEntry::Item { label, enabled, action } && label@
            == "Restart moonshine"@ && enabled && action == Some(Action::Unit(Verb::Restart)),
        menu[4] is Separator,
        menu[5] matches MenuEntry::Item { label, enabled, action } && label@ == "Pair a client…"@
            && enabled == (state == State::Idle || state == State::Streaming) && action == Some(
            Action::OpenPairingPage,
        ),
        menu[6] matches MenuEntry::Item { label, enabled, action } && label@ == "View log…"@
            && enabled && action == Some(Action::ViewLog),
        menu[7] is Separator,
        menu[8] matches MenuEntry::Item { label, enabled, action } && label@ == "Quit tray"@
            && enabled && action == Some(Action::Quit),
{
    assert(entries(menu).len() == menu.len());
    assert(menu_of(state).len() == 9);
    assert(forall|k: int| 0 <= k < 9 ==> #[trigger] entries(menu)[k] == menu[k]@);
    assert(menu[0]@ == menu_of(state)[0]);
    assert(menu[1]@ == menu_of(state)[1]);
    assert(menu[3]@ == menu_of(state)[3]);
    assert(menu[4]@ == menu_of(state)[4]);
    assert(menu[5]@ == menu_of(state)[5]);
    assert(menu[6]@ == menu_of(state)[6]);
    assert(menu[7]@ == menu_of(state)[7]);
    assert(menu[8]@ == menu_of(state)[8]);
}

/// A click on an entry posts the action that the entry holds, and a click on a separator posts
/// nothing.
pub proof fn law_a_click_posts_what_the_entry_holds(entry: MenuEntry)
    ensures
        match entry {
            MenuEntry::Separator => entry@.posted() is None,
            MenuEntry::Item { action, .. } => entry@.posted() == action,
        },
{
}

/// Every entry of a menu but the separators and the status posts one action when it is
/// clicked, and that action is the one its label names: for the toggle, the verb that the label
/// had when the menu was built in state `built`, whatever state the tray is in by the time of
/// the click.
pub proof fn law_a_click_posts_what_its_label_says(built: State, i: int)
    requires
        0 <= i < menu_of(built).len(),
    ensures
        menu_of(built)[i].posted() is Some <==> menu_of(built)[i] is Item && i != 0,
        menu_of(built)[i] matches MenuEntryView::Item { label, action: Some(action), .. } ==> {
            &&& menu_of(built)[i].posted() == Some(action)
            &&& action == Action::Unit(Verb::Start) <==> label == "Start moonshine"@
            &&& action == Action::Unit(Verb::Stop) <==> label == "Stop moonshine"@
            &&& action == Action::Unit(Verb::Restart) <==> label == "Restart moonshine"@
            &&& action == Action::OpenPairingPage <==> label == "Pair a client…"@
            &&& action == Action::ViewLog <==> label == "View log…"@
            &&& action == Action::Quit <==> label == "Quit tray"@
        },
{
    reveal_strlit("Start moonshine");
    reveal_strlit("Stop moonshine");
    reveal_strlit("Restart moonshine");
    reveal_strlit("Pair a client…");
    reveal_strlit("View log…");
    reveal_strlit("Quit tray");
    assert("Start moonshine"@.len() == 15);
    assert("Stop moonshine"@.len() == 14 && "Stop moonshine"@[0] == 'S');
    assert("Restart moonshine"@.len() == 17);
    assert("Pair a client…"@.len() == 14 && "Pair a client…"@[0] == 'P');
    assert("View log…"@.len() == 9 && "View log…"@[0] == 'V');
    assert("Quit tray"@.len() == 9 && "Quit tray"@[0] == 'Q');
}

/// Pairing is offered only while the daemon answers; every other action is always offered.
pub proof fn law_only_pairing_waits_for_the_daemon(state: State, i: int)
    requires
        0 <= i < menu_of(state).len(),
    ensures
        menu_of(state)[i] matches MenuEntryView::Item {
            enabled,
            action: Some(action),
            ..
        } ==> enabled == (action != Action::OpenPairingPage || can_pair(state)),
{
}

/// Whatever the state, the same things can be asked for in the same places: only the toggle
/// and the label of the state differ, and whether pairing is enabled.
pub proof fn law_the_menu_keeps_its_shape(a: State, b: State, i: int)
    requires
        0 <= i < menu_of(a).len(),
        i != 0,
        i != 2,
    ensures
        menu_of(a).len() == menu_of(b).len(),
        match (menu_of(a)[i], menu_of(b)[i]) {
            (MenuEntryView::Separator, MenuEntryView::Separator) => true,
            (
                MenuEntryView::Item { label, action, .. },
                MenuEntryView::Item { label: other_label, action: other_action, .. },
            ) => label == other_label && action == other_action,
            _ => false,
        },
{
}

/// The icon tells the states apart: at every size, the icons of two states differ.
pub proof fn law_icons_tell_states_apart(a: State, b: State, size: int)
    requires
        size > 0,
    ensures
        icon::bitmap(size, a.colour_of()) == icon::bitmap(size, b.colour_of()) ==> a == b,
{
    icon::law_bitmaps_tell_colours_apart(size, a.colour_of(), b.colour_of());
}

} // verus!
