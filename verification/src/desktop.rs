//! What the menu opens on the desktop: the pairing page, and the unit's journal.

use vstd::prelude::*;

use crate::text;

verus! {

// ---------------------------------------------------------------------------
// The pairing page
// ---------------------------------------------------------------------------

/// URL of the daemon's PIN entry page.
pub open spec fn pairing_page(port: u16) -> Seq<char> {
    "http://localhost:"@ + text::decimal(port as nat) + "/pin"@
}

/// URL of the daemon's PIN entry page.
///
/// No `uniqueid` is passed, so the page falls back to the same placeholder id that the
/// command-line pairing instructions use. The notification moonshine raises on an incoming
/// pairing request links to the id-specific page; this is the way to reach the page without
/// one, having missed or dismissed it.
pub fn pairing_url(port: u16) -> (url: String)
    ensures
        url@ == pairing_page(port),
{
    let mut url = "http://localhost:".to_string();
    text::push_decimal(&mut url, port as u32);
    url.append("/pin");
    url
}

// ---------------------------------------------------------------------------
// The journal
// ---------------------------------------------------------------------------

/// How many log lines to show when opening the journal.
pub const LOG_LINES: &'static str = "200";

/// Terminals tried in order when `$TERMINAL` is unset or fails to start.
pub open spec fn fallback_terminals() -> Seq<Seq<char>> {
    seq![
        "xdg-terminal-exec"@,
        "konsole"@,
        "ptyxis"@,
        "gnome-terminal"@,
        "foot"@,
        "alacritty"@,
        "kitty"@,
        "xterm"@,
    ]
}

/// The terminals to try, in order, given what `TERMINAL` holds.
pub open spec fn terminals_to_try(terminal: Option<Seq<char>>) -> Seq<Seq<char>> {
    match terminal {
        Some(terminal) => seq![terminal] + fallback_terminals(),
        None => fallback_terminals(),
    }
}

/// The last component of a path: what follows the last `/`, or all of it if there is none.
pub open spec fn basename(path: Seq<char>) -> Seq<char>
    decreases path.len(),
{
    if path.len() == 0 || path.last() == '/' {
        Seq::empty()
    } else {
        basename(path.drop_last()).push(path.last())
    }
}

/// The flag a terminal needs before a command to execute, if any.
pub open spec fn flags_of(terminal: Seq<char>) -> Seq<Seq<char>> {
    let name = basename(terminal);
    if name == "gnome-terminal"@ || name == "ptyxis"@ {
        seq!["--"@]
    } else if name == "konsole"@ || name == "xterm"@ || name == "alacritty"@ || name == "kitty"@ {
        seq!["-e"@]
    } else {
        Seq::empty()
    }
}

/// The arguments with which a terminal follows the journal of `unit`.
pub open spec fn journal_arguments(terminal: Seq<char>, unit: Seq<char>) -> Seq<Seq<char>> {
    flags_of(terminal) + seq!["journalctl"@, "-u"@, unit, "-f"@, "-n"@, LOG_LINES@]
}

/// The last component of a path.
fn file_name(path: &str) -> (name: String)
    ensures
        name@ == basename(path@),
{
    let chars = text::chars_of(path);
    let mut start: usize = chars.len();
    assert(path@.take(path@.len() as int) == path@);
    assert(path@.skip(path@.len() as int) == Seq::<char>::empty());
    while start > 0 && chars[start - 1] != '/'
        invariant
            chars@ == path@,
            start <= path@.len(),
            basename(path@) == basename(path@.take(start as int)) + path@.skip(start as int),
        decreases start,
    {
        assert(path@.take(start as int).drop_last() == path@.take(start - 1));
        assert(basename(path@.take(start as int)) + path@.skip(start as int) == basename(
            path@.take(start - 1),
        ) + path@.skip(start - 1));
        start = start - 1;
    }
    assert(basename(path@.take(start as int)) == Seq::<char>::empty());
    assert(basename(path@) == path@.skip(start as int));
    assert(path@.skip(start as int) == path@.subrange(start as int, path@.len() as int));
    path.substring_char(start, chars.len()).to_string()
}

/// The texts that string slices hold, in order.
pub open spec fn slices(strings: Seq<&str>) -> Seq<Seq<char>> {
    strings.map_values(|string: &str| string@)
}

/// The flag a terminal needs before a command to execute, if any.
///
/// Matched on the basename so that an absolute path in `$TERMINAL` still resolves.
pub fn execute_flag(terminal: &str) -> (flags: Vec<&'static str>)
    ensures
        slices(flags@) == flags_of(terminal@),
{
    let name = file_name(terminal);
    let name = name.as_str();
    let mut flags: Vec<&'static str> = Vec::new();
    if text::same(name, "gnome-terminal") || text::same(name, "ptyxis") {
        flags.push("--");
        assert(slices(flags@) =~= seq!["--"@]);
    } else if text::same(name, "konsole") || text::same(name, "xterm") || text::same(
        name,
        "alacritty",
    ) || text::same(name, "kitty") {
        flags.push("-e");
        assert(slices(flags@) =~= seq!["-e"@]);
    } else {
        // xdg-terminal-exec and foot take the command as trailing arguments.
        assert(slices(flags@) =~= Seq::<Seq<char>>::empty());
    }
    flags
}

/// A program to start, and the arguments to start it with.
#[derive(Debug, PartialEq, Eq)]
pub struct Launch {
    pub program: String,
    pub arguments: Vec<String>,
}

impl Launch {
    /// Whether this is the terminal `terminal`, following the journal of `unit`.
    pub open spec fn follows(self, terminal: Seq<char>, unit: Seq<char>) -> bool {
        &&& self.program@ == terminal
        &&& text::views(self.arguments@) == journal_arguments(terminal, unit)
    }
}

/// How to follow the journal of `unit` in a terminal.
pub fn journal_in(terminal: &str, unit: &str) -> (launch: Launch)
    ensures
        launch.follows(terminal@, unit@),
{
    let flags = execute_flag(terminal);
    let mut arguments: Vec<String> = Vec::new();
    for i in 0..flags.len()
        invariant
            text::views(arguments@) == slices(flags@).take(i as int),
    {
        let ghost before = arguments@;
        arguments.push(flags[i].to_string());
        assert(text::views(arguments@) =~= text::views(before).push(slices(flags@)[i as int]));
        assert(slices(flags@).take(i as int).push(slices(flags@)[i as int]) =~= slices(
            flags@,
        ).take(i + 1));
    }
    assert(slices(flags@).take(flags@.len() as int) =~= slices(flags@));
    let ghost front = arguments@;
    arguments.push("journalctl".to_string());
    arguments.push("-u".to_string());
    arguments.push(unit.to_string());
    arguments.push("-f".to_string());
    arguments.push("-n".to_string());
    arguments.push(LOG_LINES.to_string());
    assert(text::views(arguments@) =~= text::views(front) + seq![
        "journalctl"@,
        "-u"@,
        unit@,
        "-f"@,
        "-n"@,
        LOG_LINES@,
    ]);
    Launch { program: terminal.to_string(), arguments }
}

/// What to do next about showing the journal.
#[derive(Debug, PartialEq, Eq)]
pub enum Attempt {
    /// Try to start this terminal.
    Start(Launch),
    /// A terminal has started.
    Shown,
    /// No terminal could be started.
    NoTerminal,
}

/// The search for a terminal that starts.
pub struct JournalViewer {
    unit: String,
    terminals: Vec<String>,
    tried: usize,
}

impl JournalViewer {
    /// The unit whose journal is to be shown.
    pub closed spec fn unit(&self) -> Seq<char> {
        self.unit@
    }

    /// The terminals that have not been tried yet, in the order in which they will be.
    pub closed spec fn remaining(&self) -> Seq<Seq<char>> {
        text::views(self.terminals@).skip(self.tried as int)
    }

    #[verifier::type_invariant]
    spec fn inv(&self) -> bool {
        self.tried <= self.terminals@.len()
    }

    /// A search that has tried nothing yet, given what `TERMINAL` holds.
    ///
    /// `xdg-terminal-exec` is the freedesktop-blessed way to ask for "the user's terminal" and
    /// comes first of the others; the rest are a pragmatic fallback for desktops that do not
    /// ship it.
    pub fn new(terminal: Option<&str>, unit: &str) -> (viewer: JournalViewer)
        ensures
            viewer.unit() == unit@,
            viewer.remaining() == terminals_to_try(text::optional(terminal)),
    {
        let mut terminals: Vec<String> = Vec::new();
        if let Some(terminal) = terminal {
            terminals.push(terminal.to_string());
        }
        let ghost front = text::views(terminals@);
        terminals.push("xdg-terminal-exec".to_string());
        terminals.push("konsole".to_string());
        terminals.push("ptyxis".to_string());
        terminals.push("gnome-terminal".to_string());
        terminals.push("foot".to_string());
        terminals.push("alacritty".to_string());
        terminals.push("kitty".to_string());
        terminals.push("xterm".to_string());
        proof {
            assert(text::views(terminals@) =~= front + fallback_terminals());
            if terminal is Some {
                assert(front =~= seq![terminal->0@]);
            } else {
                assert(front + fallback_terminals() =~= fallback_terminals());
            }
            assert(text::views(terminals@).skip(0) =~= text::views(terminals@));
        }
        JournalViewer { unit: unit.to_string(), terminals, tried: 0 }
    }

    /// Whether `attempt` is to start the first of the terminals that `before` has yet to try,
    /// leaving `after` with the rest of them; or, if there is none, to give up.
    pub open spec fn advances(before: Self, after: Self, attempt: Attempt) -> bool {
        &&& after.unit() == before.unit()
        &&& if before.remaining().len() > 0 {
            &&& attempt matches Attempt::Start(launch)
            &&& launch.follows(before.remaining()[0], before.unit())
            &&& after.remaining() == before.remaining().skip(1)
        } else {
            &&& attempt == Attempt::NoTerminal
            &&& after.remaining() == before.remaining()
        }
    }

    /// The next terminal to try.
    pub fn next(&mut self) -> (attempt: Attempt)
        ensures
            Self::advances(*old(self), *final(self), attempt),
    {
        proof {
            use_type_invariant(&*self);
        }
        if self.tried < self.terminals.len() {
            let launch = journal_in(self.terminals[self.tried].as_str(), self.unit.as_str());
            self.tried = self.tried + 1;
            assert(old(self).remaining().skip(1) =~= self.remaining());
            Attempt::Start(launch)
        } else {
            Attempt::NoTerminal
        }
    }

    /// What to do once the terminal tried last has started, or has failed to.
    pub fn after(&mut self, started: bool) -> (attempt: Attempt)
        ensures
            started ==> attempt == Attempt::Shown && *final(self) == *old(self),
            !started ==> Self::advances(*old(self), *final(self), attempt),
    {
        if started {
            Attempt::Shown
        } else {
            self.next()
        }
    }
}

// ---------------------------------------------------------------------------
// Laws
// ---------------------------------------------------------------------------

proof fn lemma_basename_after(front: Seq<char>, name: Seq<char>)
    requires
        !name.contains('/'),
    ensures
        basename(front + seq!['/'] + name) == name,
        basename(name) == name,
    decreases name.len(),
{
    let path = front + seq!['/'] + name;
    if name.len() == 0 {
        assert(path.last() == '/');
        assert(name =~= Seq::<char>::empty());
    } else {
        assert(name.contains(name.last()));
        assert(name.drop_last().push(name.last()) == name);
        assert(path.drop_last() == front + seq!['/'] + name.drop_last());
        assert(!name.drop_last().contains('/')) by {
            if name.drop_last().contains('/') {
                let i = choose|i: int|
                    0 <= i < name.drop_last().len() && name.drop_last()[i] == '/';
                assert(name[i] == '/');
            }
        }
        lemma_basename_after(front, name.drop_last());
    }
}

/// Whatever terminal follows the journal of a unit, it is that terminal which is started, and its
/// arguments end in the six words of one command: to follow the journal of that very unit, from
/// 200 lines back. In front of these stand the flags of the terminal, whichever those are, and
/// nothing else.
pub proof fn law_every_terminal_runs_the_same_command(
    launch: Launch,
    terminal: Seq<char>,
    unit: Seq<char>,
)
    requires
        launch.follows(terminal, unit),
    ensures
        launch.program@ == terminal,
        launch.arguments@.len() == flags_of(terminal).len() + 6,
        forall|i: int|
            0 <= i < flags_of(terminal).len() ==> (#[trigger] launch.arguments@[i])@ == flags_of(
                terminal,
            )[i],
        ({
            let n = launch.arguments@.len() as int;
            &&& launch.arguments@[n - 6]@ == "journalctl"@
            &&& launch.arguments@[n - 5]@ == "-u"@
            &&& launch.arguments@[n - 4]@ == unit
            &&& launch.arguments@[n - 3]@ == "-f"@
            &&& launch.arguments@[n - 2]@ == "-n"@
            &&& launch.arguments@[n - 1]@ == "200"@
        }),
{
    let words = text::views(launch.arguments@);
    let flags = flags_of(terminal);
    let n = launch.arguments@.len() as int;
    assert(words.len() == n);
    assert(forall|i: int| 0 <= i < n ==> #[trigger] words[i] == launch.arguments@[i]@);
    assert(words == journal_arguments(terminal, unit));
    assert(words.len() == flags.len() + 6);
    assert forall|i: int| 0 <= i < flags.len() implies (#[trigger] launch.arguments@[i])@
        == flags[i] by {
        assert(words[i] == flags[i]);
    }
    assert(words[n - 6] == "journalctl"@);
    assert(words[n - 5] == "-u"@);
    assert(words[n - 4] == unit);
    assert(words[n - 3] == "-f"@);
    assert(words[n - 2] == "-n"@);
    assert(words[n - 1] == "200"@);
}

/// A terminal that goes by its bare name has at most one flag: `--` for the two that take a
/// command behind that, `-e` for the four that take it behind this, and none for any other.
pub proof fn law_six_terminals_have_a_flag(name: Seq<char>)
    requires
        !name.contains('/'),
    ensures
        flags_of(name).len() <= 1,
        flags_of(name) == seq!["--"@] <==> name == "gnome-terminal"@ || name == "ptyxis"@,
        flags_of(name) == seq!["-e"@] <==> name == "konsole"@ || name == "xterm"@ || name
            == "alacritty"@ || name == "kitty"@,
        flags_of(name).len() == 0 || flags_of(name) == seq!["--"@] || flags_of(name)
            == seq!["-e"@],
{
    lemma_basename_after(Seq::empty(), name);
    reveal_strlit("--");
    reveal_strlit("-e");
    reveal_strlit("gnome-terminal");
    reveal_strlit("ptyxis");
    reveal_strlit("konsole");
    reveal_strlit("xterm");
    reveal_strlit("alacritty");
    reveal_strlit("kitty");
    assert("--"@[1] != "-e"@[1]);
    assert(seq!["--"@][0] == "--"@);
    assert(seq!["-e"@][0] == "-e"@);
    assert("gnome-terminal"@[0] == 'g' && "ptyxis"@[0] == 'p');
    assert("konsole"@[0] == 'k' && "xterm"@[0] == 'x');
    assert("alacritty"@[0] == 'a' && "kitty"@[0] == 'k');
}

/// A terminal gets the same flag by its path, in whatever directory, as by its name.
pub proof fn law_a_path_gets_the_flags_of_its_name(directory: Seq<char>, name: Seq<char>)
    requires
        !name.contains('/'),
    ensures
        flags_of(directory + seq!['/'] + name) == flags_of(name),
{
    lemma_basename_after(directory, name);
}

/// A terminal that the user chose is tried before any other, and the others still follow.
pub proof fn law_the_chosen_terminal_comes_first(terminal: Seq<char>)
    ensures
        terminals_to_try(Some(terminal))[0] == terminal,
        terminals_to_try(Some(terminal)).skip(1) == terminals_to_try(None),
{
    assert(terminals_to_try(Some(terminal)).skip(1) =~= fallback_terminals());
}

/// As long as terminals fail to start they are tried one after the other, each of them once
/// and in order, until there are none left.
pub proof fn law_terminals_are_tried_in_order(
    viewers: Seq<JournalViewer>,
    attempts: Seq<Attempt>,
    k: int,
)
    requires
        viewers.len() == attempts.len() + 1,
        forall|i: int|
            0 <= i < attempts.len() ==> JournalViewer::advances(
                viewers[i],
                viewers[i + 1],
                #[trigger] attempts[i],
            ),
        0 <= k < attempts.len(),
    ensures
        ({
            let terminals = viewers[0].remaining();
            if k < terminals.len() {
                attempts[k] matches Attempt::Start(launch) && launch.follows(
                    terminals[k],
                    viewers[0].unit(),
                )
            } else {
                attempts[k] == Attempt::NoTerminal
            }
        }),
{
    lemma_remaining(viewers, attempts, k);
}

proof fn lemma_remaining(viewers: Seq<JournalViewer>, attempts: Seq<Attempt>, k: int)
    requires
        viewers.len() == attempts.len() + 1,
        forall|i: int|
            0 <= i < attempts.len() ==> JournalViewer::advances(
                viewers[i],
                viewers[i + 1],
                #[trigger] attempts[i],
            ),
        0 <= k < attempts.len(),
    ensures
        viewers[k].unit() == viewers[0].unit(),
        viewers[k].remaining() == if k < viewers[0].remaining().len() {
            viewers[0].remaining().skip(k)
        } else {
            Seq::empty()
        },
    decreases k,
{
    if k == 0 {
        assert(viewers[0].remaining().skip(0) == viewers[0].remaining());
        if viewers[0].remaining().len() == 0 {
            assert(viewers[0].remaining() == Seq::<Seq<char>>::empty());
        }
    } else {
        lemma_remaining(viewers, attempts, k - 1);
        assert(JournalViewer::advances(viewers[k - 1], viewers[k], attempts[k - 1]));
        let terminals = viewers[0].remaining();
        if k < terminals.len() {
            assert(terminals.skip(k - 1).skip(1) == terminals.skip(k));
        } else if k == terminals.len() {
            assert(terminals.skip(k - 1).skip(1) == Seq::<Seq<char>>::empty());
        }
    }
}

/// The pairing page is that of the very port, on the same host.
pub proof fn law_the_pairing_page_is_that_of_the_port(port: u16)
    ensures
        ({
            let digits = text::decimal(port as nat);
            let page = pairing_page(port);
            &&& page.len() == 17 + digits.len() + 4
            &&& page.take(17) == "http://localhost:"@
            &&& page.subrange(17, 17int + digits.len()) == digits
            &&& page.skip(17int + digits.len()) == "/pin"@
        }),
{
    let digits = text::decimal(port as nat);
    reveal_strlit("http://localhost:");
    reveal_strlit("/pin");
    assert("http://localhost:"@.len() == 17);
    assert("/pin"@.len() == 4);
    assert(pairing_page(port).take(17) =~= "http://localhost:"@);
    assert(pairing_page(port).subrange(17, 17int + digits.len()) =~= digits);
    assert(pairing_page(port).skip(17int + digits.len()) =~= "/pin"@);
}

/// What slices hold is what each of them holds in turn.
pub proof fn law_slices_hold_their_own_text(strings: Seq<&str>)
    ensures
        slices(strings).len() == strings.len(),
        forall|i: int| 0 <= i < strings.len() ==> #[trigger] slices(strings)[i] == strings[i]@,
{
}

/// Different ports have different pairing pages.
pub proof fn law_pairing_pages_tell_ports_apart(a: u16, b: u16)
    ensures
        pairing_page(a) == pairing_page(b) ==> a == b,
{
    let prefix = "http://localhost:"@;
    let suffix = "/pin"@;
    if pairing_page(a) == pairing_page(b) {
        let n = prefix.len() as int;
        let (x, y) = (text::decimal(a as nat), text::decimal(b as nat));
        assert(pairing_page(a).len() == prefix.len() + x.len() + suffix.len());
        assert(pairing_page(b).len() == prefix.len() + y.len() + suffix.len());
        assert(x =~= pairing_page(a).subrange(n, n + x.len()));
        assert(y =~= pairing_page(b).subrange(n, n + y.len()));
        text::law_decimal_reads_back(a as i32);
        text::law_decimal_reads_back(b as i32);
    }
}

} // verus!
