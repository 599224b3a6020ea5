use moonshine_tray::desktop::{execute_flag, journal_in, pairing_url, Attempt, JournalViewer};

#[test]
fn terminals_that_need_a_separator_get_the_right_one() {
    assert_eq!(execute_flag("gnome-terminal"), &["--"]);
    assert_eq!(execute_flag("konsole"), &["-e"]);
}

#[test]
fn terminals_taking_a_trailing_command_get_no_separator() {
    assert!(execute_flag("foot").is_empty());
    assert!(execute_flag("xdg-terminal-exec").is_empty());
}

#[test]
fn the_pairing_url_points_at_the_configured_port() {
    assert_eq!(pairing_url(47989), "http://localhost:47989/pin");
    assert_eq!(pairing_url(48000), "http://localhost:48000/pin");
}

#[test]
fn an_absolute_terminal_path_is_matched_on_its_basename() {
    assert_eq!(execute_flag("/usr/bin/konsole"), &["-e"]);
}

#[test]
fn every_known_terminal_gets_its_flag() {
    assert_eq!(execute_flag("ptyxis"), &["--"]);
    assert_eq!(execute_flag("xterm"), &["-e"]);
    assert_eq!(execute_flag("alacritty"), &["-e"]);
    assert_eq!(execute_flag("/opt/x/kitty"), &["-e"]);
    assert!(execute_flag("konsole/").is_empty());
    assert!(execute_flag("").is_empty());
    assert!(execute_flag("Konsole").is_empty());
}

#[test]
fn pairing_urls_of_the_ends_of_the_range() {
    assert_eq!(pairing_url(0), "http://localhost:0/pin");
    assert_eq!(pairing_url(65535), "http://localhost:65535/pin");
}

#[test]
fn the_journal_of_the_unit_is_followed() {
    let launch = journal_in("gnome-terminal", "moonshine@kez.service");
    assert_eq!(launch.program, "gnome-terminal");
    assert_eq!(
        launch.arguments,
        vec!["--", "journalctl", "-u", "moonshine@kez.service", "-f", "-n", "200"]
    );
    let launch = journal_in("foot", "moonshine@kez.service");
    assert_eq!(
        launch.arguments,
        vec!["journalctl", "-u", "moonshine@kez.service", "-f", "-n", "200"]
    );
}

/// The programs that are tried if none of them starts.
fn programs(terminal: Option<&str>) -> Vec<String> {
    let mut viewer = JournalViewer::new(terminal, "moonshine@kez.service");
    let mut programs = Vec::new();
    let mut attempt = viewer.next();
    while let Attempt::Start(launch) = attempt {
        programs.push(launch.program);
        attempt = viewer.after(false);
    }
    assert_eq!(attempt, Attempt::NoTerminal);
    programs
}

#[test]
fn terminals_are_tried_in_order_until_none_is_left() {
    let fallback = vec![
        "xdg-terminal-exec",
        "konsole",
        "ptyxis",
        "gnome-terminal",
        "foot",
        "alacritty",
        "kitty",
        "xterm",
    ];
    assert_eq!(programs(None), fallback);
    let chosen = programs(Some("/usr/bin/st"));
    assert_eq!(chosen[0], "/usr/bin/st");
    assert_eq!(chosen[1..], fallback[..]);
}

#[test]
fn the_first_terminal_that_starts_ends_the_search() {
    let mut viewer = JournalViewer::new(Some("missing"), "moonshine@kez.service");
    assert_eq!(viewer.next(), Attempt::Start(journal_in("missing", "moonshine@kez.service")));
    assert_eq!(
        viewer.after(false),
        Attempt::Start(journal_in("xdg-terminal-exec", "moonshine@kez.service"))
    );
    assert_eq!(viewer.after(true), Attempt::Shown);
}
