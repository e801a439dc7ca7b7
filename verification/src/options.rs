//! What the program is run with, from the command line and a file.
use vstd::prelude::*;
use vstd::string::StringExecFns;

verus! {

/// The version of the data directory. It is raised where older data cannot be used any more.
pub const BREAKING_CHANGE_VERSION: &'static str = "1";

/// Where the value of an option comes from.
#[derive(Debug, Clone, Copy, PartialEq, Eq, Structural)]
pub enum ValueSource {
    DefaultValue,
    EnvVariable,
    CommandLine,
}

#[derive(Debug, Clone, Copy, PartialEq, Eq, Structural)]
pub enum IpVersion {
    Ipv4,
    Ipv6,
    Dualstack,
}

#[derive(Debug)]
pub struct RunOptions {
    pub port: u16,
    pub no_tui: bool,
    pub bridge: Vec<String>,
    pub room: Option<String>,
    pub ip_version: IpVersion,
}

/// Options that a file may set.
#[derive(Debug)]
pub struct OptionalRunOptions {
    pub port: Option<u16>,
    pub no_tui: Option<bool>,
    pub bridge: Option<Vec<String>>,
    pub room: Option<Option<String>>,
    pub ip_version: Option<IpVersion>,
}

impl Default for OptionalRunOptions {
    fn default() -> (options: Self)
        ensures
            options.port is None,
            options.no_tui is None,
            options.bridge is None,
            options.room is None,
            options.ip_version is None,
    {
        OptionalRunOptions { port: None, no_tui: None, bridge: None, room: None, ip_version: None }
    }
}

/// Where the values of the options on the command line come from.
#[derive(Debug, Clone, Copy, PartialEq, Eq)]
pub struct Sources {
    pub port: Option<ValueSource>,
    pub no_tui: Option<ValueSource>,
    pub bridge: Option<ValueSource>,
    pub room: Option<ValueSource>,
    pub ip_version: Option<ValueSource>,
}

/// What counts of two values: what was given explicitly in the first place, then the second, then
/// the default, which stands in the first.
pub open spec fn merged<T>(primary: T, secondary: Option<T>, source: Option<ValueSource>) -> T {
    match secondary {
        Some(value) if source is None || source == Some(ValueSource::DefaultValue) => value,
        _ => primary,
    }
}

pub fn merge_values<T>(primary: T, secondary: Option<T>, value_source: Option<ValueSource>) -> (
    value: T)
    ensures
        value == merged(primary, secondary, value_source),
{
    match secondary {
        None => primary,
        Some(value) => match value_source {
            None | Some(ValueSource::DefaultValue) => value,
            Some(_) => primary,
        },
    }
}

pub fn merge_configs(primary: RunOptions, secondary: OptionalRunOptions, sources: Sources) -> (
    options: RunOptions)
    ensures
        options == (RunOptions {
            port: merged(primary.port, secondary.port, sources.port),
            no_tui: merged(primary.no_tui, secondary.no_tui, sources.no_tui),
            bridge: merged(primary.bridge, secondary.bridge, sources.bridge),
            room: merged(primary.room, secondary.room, sources.room),
            ip_version: merged(primary.ip_version, secondary.ip_version, sources.ip_version),
        }),
{
    RunOptions {
        port: merge_values(primary.port, secondary.port, sources.port),
        no_tui: merge_values(primary.no_tui, secondary.no_tui, sources.no_tui),
        bridge: merge_values(primary.bridge, secondary.bridge, sources.bridge),
        room: merge_values(primary.room, secondary.room, sources.room),
        ip_version: merge_values(primary.ip_version, secondary.ip_version, sources.ip_version),
    }
}

/// What was given explicitly is never overruled; without a second value the first one stands.
pub proof fn explicit_options_win<T>(primary: T, secondary: Option<T>, source: Option<ValueSource>)
    ensures
        source == Some(ValueSource::CommandLine) || source == Some(ValueSource::EnvVariable)
            ==> merged(primary, secondary, source) == primary,
        secondary is None ==> merged(primary, secondary, source) == primary,
        source == Some(ValueSource::DefaultValue) && secondary is Some ==> merged(
            primary,
            secondary,
            source,
        ) == secondary->0,
{
}

/// Whether the data directory has to be emptied: its version file is missing or says something
/// else.
pub fn needs_renewal(version: Option<String>) -> (renew: bool)
    ensures
        renew == match version {
            Some(version) => version@ != BREAKING_CHANGE_VERSION@,
            None => true,
        },
{
    proof {
        reveal_strlit("0");
        reveal_strlit("1");
        assert("0"@[0] != "1"@[0]);
    }
    let found: String = match version {
        Some(version) => version,
        None => "0".to_owned(),
    };
    found != BREAKING_CHANGE_VERSION.to_owned()
}

/// How a user is shown to others: a name, and the machine in brackets.
pub fn display_name(realname: String, hostname: Option<String>) -> (name: String)
    ensures
        name@ == realname@ + " ["@ + (match hostname {
            Some(hostname) => hostname@,
            None => "unknown"@,
        }) + "]"@,
{
    let mut name: String = realname;
    name.append(" [");
    match hostname {
        Some(hostname) => {
            name.append(hostname.as_str());
        },
        None => {
            name.append("unknown");
        },
    }
    name.append("]");
    name
}

} // verus!
