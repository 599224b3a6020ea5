use moonshine_tray::probe::{classify, parse_response, parse_server_info, ServerInfo, State};
use moonshine_tray::xml::{extract_tag, unescape_xml};

/// A response shaped exactly like the one moonshine's webserver emits.
fn serverinfo(state: &str, current_game: &str, hostname: &str) -> String {
    format!(
        "<root status_code=\"200\"><hostname>{hostname}</hostname><appversion>7.1.431.-1</appversion>\
         <HttpsPort>47984</HttpsPort><PairStatus>0</PairStatus>\
         <currentgame>{current_game}</currentgame><state>{state}</state></root>"
    )
}

#[test]
fn free_server_parses_as_not_streaming() {
    let info = parse_server_info(&serverinfo("MOONSHINE_SERVER_FREE", "0", "Moonshine")).unwrap();
    assert!(!info.streaming);
    assert_eq!(info.current_game, 0);
    assert_eq!(info.hostname, "Moonshine");
}

#[test]
fn busy_server_parses_as_streaming_with_application_id() {
    let info = parse_server_info(&serverinfo("MOONSHINE_SERVER_BUSY", "881448767", "Desktop")).unwrap();
    assert!(info.streaming);
    assert_eq!(info.current_game, 881448767);
}

#[test]
fn escaped_hostname_is_unescaped() {
    let info = parse_server_info(&serverinfo("MOONSHINE_SERVER_FREE", "0", "Ben &amp; Jerry&apos;s")).unwrap();
    assert_eq!(info.hostname, "Ben & Jerry's");
}

#[test]
fn double_escaped_entity_is_unescaped_only_once() {
    let info = parse_server_info(&serverinfo("MOONSHINE_SERVER_FREE", "0", "&amp;lt;tag&amp;gt;")).unwrap();
    assert_eq!(info.hostname, "&lt;tag&gt;");
}

#[test]
fn missing_hostname_falls_back_to_a_default() {
    let info = parse_server_info("<root><state>MOONSHINE_SERVER_FREE</state></root>").unwrap();
    assert_eq!(info.hostname, "Moonshine");
    assert_eq!(info.current_game, 0);
}

#[test]
fn response_without_state_is_rejected() {
    assert!(parse_server_info("<root><hostname>Moonshine</hostname></root>").is_err());
    assert!(parse_server_info("not xml at all").is_err());
}

#[test]
fn unterminated_tag_is_rejected() {
    assert!(parse_server_info("<root><state>MOONSHINE_SERVER_FREE</root>").is_err());
}

#[test]
fn unreachable_daemon_with_active_unit_is_starting() {
    let (state, detail) = classify(None, true, 47989);
    assert_eq!(state, State::Starting);
    assert!(detail.contains("47989"));
}

#[test]
fn unreachable_daemon_with_inactive_unit_is_stopped() {
    assert_eq!(classify(None, false, 47989).0, State::Stopped);
}

#[test]
fn answering_daemon_is_idle_regardless_of_unit_state() {
    let info = ServerInfo {
        hostname: "Moonshine".to_string(),
        streaming: false,
        current_game: 0,
    };
    assert_eq!(classify(Some(&info), false, 47989).0, State::Idle);
}

#[test]
fn streaming_without_an_application_id_still_reads_as_streaming() {
    let info = ServerInfo {
        hostname: "Moonshine".to_string(),
        streaming: true,
        current_game: 0,
    };
    let (state, detail) = classify(Some(&info), true, 47989);
    assert_eq!(state, State::Streaming);
    assert!(detail.contains("an application"));
}

#[test]
fn every_state_has_a_distinct_colour() {
    let colours = [State::Stopped, State::Starting, State::Idle, State::Streaming].map(State::colour);
    for (index, colour) in colours.iter().enumerate() {
        assert!(!colours[index + 1..].contains(colour), "duplicate colour {colour:#08x}");
    }
}

#[test]
fn every_state_has_its_colour_and_label() {
    assert_eq!(State::Stopped.colour(), 0x6e6e6e);
    assert_eq!(State::Starting.colour(), 0xe0a030);
    assert_eq!(State::Idle.colour(), 0x3fb950);
    assert_eq!(State::Streaming.colour(), 0x3d8bfd);
    assert_eq!(State::Stopped.label(), "Stopped");
    assert_eq!(State::Starting.label(), "Starting…");
    assert_eq!(State::Idle.label(), "Idle — waiting for a client");
    assert_eq!(State::Streaming.label(), "Streaming");
}

#[test]
fn details_say_what_was_found() {
    let mut info = ServerInfo {
        hostname: "Front Room".to_string(),
        streaming: true,
        current_game: 7,
    };
    assert_eq!(classify(Some(&info), true, 47989).1, "Front Room — streaming app 7");
    info.current_game = -2147483648;
    assert_eq!(classify(Some(&info), true, 47989).1, "Front Room — streaming app -2147483648");
    info.current_game = 0;
    assert_eq!(classify(Some(&info), true, 47989).1, "Front Room — streaming an application");
    info.streaming = false;
    assert_eq!(classify(Some(&info), true, 47989).1, "Front Room — ready on port 47989");
    assert_eq!(classify(None, true, 0).1, "Unit is active, but not answering on port 0");
    assert_eq!(classify(None, false, 47989).1, "Unit is not running");
}

#[test]
fn an_answer_outranks_the_unit() {
    let info = parse_server_info(&serverinfo("MOONSHINE_SERVER_BUSY", "7", "Desktop")).unwrap();
    assert_eq!(classify(Some(&info), true, 1), classify(Some(&info), false, 1));
}

#[test]
fn a_response_is_parsed_off_the_wire() {
    let body = "<root status_code=\"200\"><hostname>Front Room</hostname>\
                <currentgame>7</currentgame><state>MOONSHINE_SERVER_BUSY</state></root>";
    let info = parse_response(body.as_bytes()).unwrap();
    assert_eq!(info.hostname, "Front Room");
    assert!(info.streaming);
    assert_eq!(info.current_game, 7);
    let other = b"<root status_code=\"200\"><hostname>Front Room</hostname></root>";
    assert!(parse_response(other).is_err());
}

#[test]
fn invalid_bytes_are_replaced_rather_than_refused() {
    let mut body = b"<hostname>Caf".to_vec();
    body.push(0xe9);
    body.extend_from_slice(b"</hostname><state>MOONSHINE_SERVER_FREE</state>");
    assert_eq!(parse_response(&body).unwrap().hostname, "Caf\u{fffd}");
    let valid = "<hostname>Café</hostname><state>MOONSHINE_SERVER_FREE</state>";
    assert_eq!(parse_response(valid.as_bytes()).unwrap().hostname, "Café");
}

#[test]
fn an_application_id_that_is_no_number_reads_as_none() {
    for game in ["", "seven", "7 ", " 7", "2147483648", "-2147483649", "+", "-", "--7", "0x7"] {
        let info = parse_server_info(&serverinfo("MOONSHINE_SERVER_BUSY", game, "Desktop")).unwrap();
        assert_eq!(info.current_game, 0, "{game:?}");
    }
}

#[test]
fn application_ids_are_read_as_the_standard_library_reads_them() {
    for game in ["7", "+7", "-7", "007", "-0", "2147483647", "-2147483648", "٧", "99999999999999999999"] {
        let info = parse_server_info(&serverinfo("MOONSHINE_SERVER_BUSY", game, "Desktop")).unwrap();
        assert_eq!(info.current_game, game.parse().unwrap_or(0), "{game:?}");
    }
}

#[test]
fn the_first_element_of_a_name_is_the_one_that_counts() {
    let body = "<a>1</a><ab>2</ab><b>3</b><a>4</a>";
    assert_eq!(extract_tag(body, "a"), Some("1".to_string()));
    assert_eq!(extract_tag(body, "ab"), Some("2".to_string()));
    assert_eq!(extract_tag(body, "b"), Some("3".to_string()));
    assert_eq!(extract_tag(body, "c"), None);
    assert_eq!(extract_tag("</a><a></a>", "a"), Some(String::new()));
    assert_eq!(extract_tag("…<a>…</a>", "a"), Some("…".to_string()));
    assert_eq!(extract_tag("<<a>1</a></a>", "a"), Some("1".to_string()));
    assert_eq!(extract_tag("<a>1<a>2</a>", "a"), Some("1<a>2".to_string()));
    assert_eq!(extract_tag("<a", "a"), None);
}

/// Text as moonshine embeds it.
fn escape(text: &str) -> String {
    text.replace('&', "&amp;")
        .replace('<', "&lt;")
        .replace('>', "&gt;")
        .replace('"', "&quot;")
        .replace('\'', "&apos;")
}

#[test]
fn whatever_is_embedded_is_read_back() {
    for text in ["", "plain", "<&>\"'", "&lt;", "&amp;lt;", "&&&", "a</state>b", "&#38;", "…—…"] {
        assert_eq!(unescape_xml(&escape(text)), text);
        let body = serverinfo("MOONSHINE_SERVER_FREE", "0", &escape(text));
        assert_eq!(parse_server_info(&body).unwrap().hostname, text);
    }
}

#[test]
fn text_without_entities_is_kept() {
    assert_eq!(unescape_xml("Moonshine; lt; gt;"), "Moonshine; lt; gt;");
    assert_eq!(unescape_xml("&nbsp;"), "&nbsp;");
    assert_eq!(unescape_xml("&lt"), "&lt");
    assert_eq!(unescape_xml("&l&lt;t;"), "&l<t;");
    assert_eq!(unescape_xml("&&lt;&gt;&quot;&apos;&amp;"), "&<>\"'&");
}
