//! Reading the handful of settings the tray shares with the daemon.
//!
//! The tray only needs to know which port to probe, so it reads that one value out of
//! moonshine's config file directly.

use vstd::prelude::*;

use crate::text;

verus! {

/// Port moonshine's HTTP webserver listens on unless configured otherwise.
pub const DEFAULT_PORT: u16 = 47989;

// ---------------------------------------------------------------------------
// Where the configuration is
// ---------------------------------------------------------------------------

/// The path that `relative` names when it starts from `base`: the two with a `/` between them,
/// unless `base` is empty or ends in one.
pub open spec fn joined(base: Seq<char>, relative: Seq<char>) -> Seq<char> {
    if base.len() == 0 || base.last() == '/' {
        base + relative
    } else {
        base + seq!['/'] + relative
    }
}

/// The configuration file to read, given what `XDG_CONFIG_HOME` and `HOME` hold.
pub open spec fn config_path(
    xdg_config_home: Option<Seq<char>>,
    home: Option<Seq<char>>,
) -> Seq<char> {
    let user_home = match home {
        Some(home) => home,
        None => "/root"@,
    };
    match xdg_config_home {
        Some(dir) => if dir.len() > 0 {
            joined(dir, "moonshine/config.toml"@)
        } else {
            joined(user_home, ".config/moonshine/config.toml"@)
        },
        None => joined(user_home, ".config/moonshine/config.toml"@),
    }
}

/// Joins a relative path to a base, as `std::path::Path::join` does on Unix.
fn join(base: &str, relative: &str) -> (path: String)
    ensures
        path@ == joined(base@, relative@),
{
    let chars = text::chars_of(base);
    let mut path = text::string_of(&chars);
    if chars.len() > 0 && chars[chars.len() - 1] != '/' {
        path.push('/');
        assert(path@ == base@ + seq!['/']);
    }
    path.append(relative);
    path
}

/// Path moonshine reads its configuration from when not told otherwise.
///
/// It is the file that the daemon reads, so that running the tray with no arguments inspects
/// the same one. An `XDG_CONFIG_HOME` that is empty counts as one that is not set.
pub fn default_config_path(xdg_config_home: Option<&str>, home: Option<&str>) -> (path: String)
    ensures
        path@ == config_path(text::optional(xdg_config_home), text::optional(home)),
{
    if let Some(dir) = xdg_config_home {
        if !dir.is_empty() {
            return join(dir, "moonshine/config.toml");
        }
    }
    match home {
        Some(home) => join(home, ".config/moonshine/config.toml"),
        None => join("/root", ".config/moonshine/config.toml"),
    }
}

// ---------------------------------------------------------------------------
// TOML documents
// ---------------------------------------------------------------------------

/// A TOML value, as far as looking up a setting goes: strings, floats, booleans, dates and
/// arrays are `Other`.
pub enum Toml {
    Integer(i64),
    Table(Map<Seq<char>, Toml>),
    Other,
}

/// The error that `toml` reports for text that is not TOML.
#[verifier::external_type_specification]
#[verifier::external_body]
pub struct ExTomlError(toml::de::Error);

/// A TOML table; `toml::Table` is this map from `String` to `toml::Value`.
#[verifier::external_type_specification]
#[verifier::external_body]
#[verifier::reject_recursive_types(K)]
#[verifier::reject_recursive_types(V)]
pub struct ExTomlMap<K, V>(toml::map::Map<K, V>);

/// A TOML value.
#[verifier::external_type_specification]
#[verifier::external_body]
pub struct ExTomlValue(toml::Value);

/// The table that `toml` makes of a text, or `None` if it reports an error.
pub uninterp spec fn toml_document(contents: Seq<char>) -> Option<Map<Seq<char>, Toml>>;

/// What a table holds, by key.
pub uninterp spec fn table_entries(table: toml::Table) -> Map<Seq<char>, Toml>;

/// What a value holds.
pub uninterp spec fn value_contents(value: toml::Value) -> Toml;

/// `str::parse::<toml::Table>` parses a TOML document. Whether it succeeds, and the table that
/// it gives, depend on the text alone.
#[verifier::external_body]
fn parse_document(contents: &str) -> (parsed: Result<toml::Table, toml::de::Error>)
    ensures
        toml_document(contents@) == match parsed {
            Ok(table) => Some(table_entries(table)),
            Err(_) => None,
        },
{
    contents.parse::<toml::Table>()
}

/// `toml::Table::get` returns the value that the table holds under the key, if there is one.
#[verifier::external_body]
fn table_get<'a>(table: &'a toml::Table, key: &str) -> (found: Option<&'a toml::Value>)
    ensures
        match found {
            Some(value) => table_entries(*table).contains_key(key@) && table_entries(*table)[key@]
                == value_contents(*value),
            None => !table_entries(*table).contains_key(key@),
        },
{
    table.get(key)
}

/// `toml::Value::get`, given a key, returns what the value holds under that key if it is a
/// table that has it, and `None` for anything else.
#[verifier::external_body]
fn value_get<'a>(value: &'a toml::Value, key: &str) -> (found: Option<&'a toml::Value>)
    ensures
        match found {
            Some(inner) => value_contents(*value) matches Toml::Table(entries)
                && entries.contains_key(key@) && entries[key@] == value_contents(*inner),
            None => value_contents(*value) matches Toml::Table(entries) ==> !entries.contains_key(
                key@,
            ),
        },
{
    value.get(key)
}

/// `toml::Value::as_integer` returns the integer that the value is, and `None` for a value of
/// any other kind.
#[verifier::external_body]
fn value_as_integer(value: &toml::Value) -> (number: Option<i64>)
    ensures
        number == match value_contents(*value) {
            Toml::Integer(number) => Some(number),
            _ => None,
        },
{
    value.as_integer()
}

// ---------------------------------------------------------------------------
// The port
// ---------------------------------------------------------------------------

/// What stands under `key` in a value, if it is a table that has the key.
pub open spec fn entry(value: Toml, key: Seq<char>) -> Option<Toml> {
    match value {
        Toml::Table(entries) => if entries.contains_key(key) {
            Some(entries[key])
        } else {
            None
        },
        _ => None,
    }
}

/// `webserver.port` in a document, if it is there and is an integer that a port can be.
pub open spec fn port_in(document: Map<Seq<char>, Toml>) -> Option<u16> {
    match entry(Toml::Table(document), "webserver"@) {
        Some(webserver) => match entry(webserver, "port"@) {
            Some(Toml::Integer(number)) => if 0 <= number <= u16::MAX {
                Some(number as u16)
            } else {
                None
            },
            _ => None,
        },
        None => None,
    }
}

/// `webserver.port` in the contents of a config file.
pub open spec fn configured_port(contents: Seq<char>) -> Option<u16> {
    match toml_document(contents) {
        Some(document) => port_in(document),
        None => None,
    }
}

/// Look `webserver.port` up in a table.
pub fn port_from_table(table: &toml::Table) -> (port: Option<u16>)
    ensures
        port == port_in(table_entries(*table)),
{
    let webserver = match table_get(table, "webserver") {
        Some(webserver) => webserver,
        None => {
            return None;
        },
    };
    let value = match value_get(webserver, "port") {
        Some(value) => value,
        None => {
            return None;
        },
    };
    match value_as_integer(value) {
        Some(number) => if 0 <= number && number <= u16::MAX as i64 {
            Some(number as u16)
        } else {
            None
        },
        None => None,
    }
}

/// Extract `webserver.port` from the contents of a config file.
pub fn parse_webserver_port(contents: &str) -> (port: Option<u16>)
    ensures
        port == configured_port(contents@),
{
    match parse_document(contents) {
        Ok(table) => port_from_table(&table),
        Err(_) => None,
    }
}

/// The port that a config file calls for, given its contents or `None` if it could not be
/// read.
pub open spec fn port_or_default(contents: Option<Seq<char>>) -> u16 {
    match contents {
        Some(contents) => match configured_port(contents) {
            Some(port) => port,
            None => DEFAULT_PORT,
        },
        None => DEFAULT_PORT,
    }
}

/// Read `webserver.port` from the contents of the config file, falling back to
/// [`DEFAULT_PORT`].
///
/// Every failure here is soft. A missing file (`None`) is the normal case on a host where the
/// daemon has not run yet, and an unreadable or malformed one is the daemon's problem to
/// report - the tray should still come up and show that moonshine is not answering.
pub fn webserver_port(contents: Option<&str>) -> (port: u16)
    ensures
        port == port_or_default(text::optional(contents)),
{
    match contents {
        Some(contents) => match parse_webserver_port(contents) {
            Some(port) => port,
            None => DEFAULT_PORT,
        },
        None => DEFAULT_PORT,
    }
}

// ---------------------------------------------------------------------------
// Laws
// ---------------------------------------------------------------------------

/// Every failure is soft: a file that cannot be read, that is not TOML, or whose
/// `webserver.port` is missing, is no integer or is out of range, gives the default port.
pub proof fn law_every_failure_is_soft(contents: Seq<char>)
    ensures
        port_or_default(None) == DEFAULT_PORT,
        toml_document(contents) is None ==> port_or_default(Some(contents)) == DEFAULT_PORT,
        toml_document(contents) is None ==> configured_port(contents) is None,
        toml_document(contents) matches Some(document) ==> port_in(document) is None
            ==> port_or_default(Some(contents)) == DEFAULT_PORT && configured_port(
            contents,
        ) is None,
{
}

/// Whatever port a config file sets is the one that is probed: if its contents are a document
/// whose `webserver` is a table, and the `port` of that table is an integer from 0 to 65535,
/// then it is that integer, however it compares with the default. Any other `port` gives the
/// default.
pub proof fn law_the_port_that_is_set_is_used(
    contents: Seq<char>,
    document: Map<Seq<char>, Toml>,
    webserver: Map<Seq<char>, Toml>,
    number: i64,
)
    requires
        toml_document(contents) == Some(document),
        document.contains_key("webserver"@),
        document["webserver"@] == Toml::Table(webserver),
        webserver.contains_key("port"@),
        webserver["port"@] == Toml::Integer(number),
    ensures
        0 <= number <= 65535 ==> {
            &&& configured_port(contents) is Some
            &&& configured_port(contents)->0 == number
            &&& port_or_default(Some(contents)) == number
        },
        !(0 <= number <= 65535) ==> {
            &&& configured_port(contents) is None
            &&& port_or_default(Some(contents)) == 47989
        },
{
}

/// Two config files that set different ports make for different ports to probe.
pub proof fn law_different_ports_are_told_apart(a: Seq<char>, b: Seq<char>)
    requires
        configured_port(a) is Some,
        configured_port(b) is Some,
    ensures
        port_or_default(Some(a)) == port_or_default(Some(b)) <==> configured_port(a)
            == configured_port(b),
{
}

/// A port is read from a document exactly when its `webserver` is a table whose `port` is an
/// integer that a port can be, and it is that integer.
pub proof fn law_configured_port_is_read(document: Map<Seq<char>, Toml>, port: u16)
    ensures
        port_in(document) == Some(port) <==> {
            &&& document.contains_key("webserver"@)
            &&& document["webserver"@] matches Toml::Table(webserver)
            &&& webserver.contains_key("port"@)
            &&& webserver["port"@] == Toml::Integer(port as i64)
        },
{
}

/// The configuration lies below the directory that it belongs to: its path begins with that
/// directory and ends with a fixed name, with a single `/` between the two unless the directory
/// brings its own. The directory is `XDG_CONFIG_HOME` if that is set to anything at all, or else
/// the home directory, or else that of root.
pub proof fn law_the_configuration_lies_below_its_directory(
    xdg_config_home: Option<Seq<char>>,
    home: Option<Seq<char>>,
    directory: Seq<char>,
)
    requires
        directory.len() > 0,
    ensures
        xdg_config_home == Some(directory) ==> config_path(xdg_config_home, home) == if directory.last()
            == '/' {
            directory + "moonshine/config.toml"@
        } else {
            directory.push('/') + "moonshine/config.toml"@
        },
        (xdg_config_home is None || xdg_config_home->0.len() == 0) && home == Some(directory)
            ==> config_path(xdg_config_home, home) == if directory.last() == '/' {
            directory + ".config/moonshine/config.toml"@
        } else {
            directory.push('/') + ".config/moonshine/config.toml"@
        },
        (xdg_config_home is None || xdg_config_home->0.len() == 0) && home is None ==> config_path(
            xdg_config_home,
            home,
        ) == "/root/.config/moonshine/config.toml"@,
        (xdg_config_home is None || xdg_config_home->0.len() == 0) && home is Some
            && home->0.len() == 0 ==> config_path(xdg_config_home, home)
            == ".config/moonshine/config.toml"@,
{
    reveal_strlit("/root");
    reveal_strlit(".config/moonshine/config.toml");
    reveal_strlit("/root/.config/moonshine/config.toml");
    assert(directory.push('/') == directory + seq!['/']);
    assert("/root"@ + seq!['/'] + ".config/moonshine/config.toml"@
        =~= "/root/.config/moonshine/config.toml"@);
    if home is Some && home->0.len() == 0 {
        assert(home->0 + ".config/moonshine/config.toml"@ =~= ".config/moonshine/config.toml"@);
    }
}

/// With `XDG_CONFIG_HOME` unset or empty the configuration is looked for under the home
/// directory, and otherwise the home directory is of no account.
pub proof fn law_config_home_comes_first(
    xdg_config_home: Seq<char>,
    home: Option<Seq<char>>,
    other_home: Option<Seq<char>>,
)
    ensures
        xdg_config_home.len() > 0 ==> config_path(Some(xdg_config_home), home) == config_path(
            Some(xdg_config_home),
            other_home,
        ),
        xdg_config_home.len() == 0 ==> config_path(Some(xdg_config_home), home) == config_path(
            None,
            home,
        ),
{
}

} // verus!
