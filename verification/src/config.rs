//! Configuration model: forwarding rules and the errors of loading them.
//!
//! Reading and parsing the configuration file is an external concern; the
//! runtime hands this module plain values.  What is verified here is the
//! shape of the configuration, the rule a default path is chosen by, and
//! the exact wording of each error.

use vstd::prelude::*;
use vstd::string::StringExecFns;

verus! {

/// One forwarding rule: listen on `listen`, connect each accepted
/// connection to `connect`.  Both are `host:port` address specifications.
/// Immutable once loaded.
pub struct Proxy {
    listen: String,
    connect: String,
}

/// Mathematical image of a [`Proxy`]: the two address strings as
/// character sequences.
pub struct ProxyView {
    pub listen: Seq<char>,
    pub connect: Seq<char>,
}

impl View for Proxy {
    type V = ProxyView;

    closed spec fn view(&self) -> ProxyView {
        ProxyView { listen: self.listen@, connect: self.connect@ }
    }
}

impl Proxy {
    pub fn new(listen: String, connect: String) -> (r: Proxy)
        ensures
            r@.listen == listen@,
            r@.connect == connect@,
    {
        Proxy { listen, connect }
    }

    pub fn listen(&self) -> (r: &String)
        ensures
            r@ == self@.listen,
    {
        &self.listen
    }

    pub fn connect(&self) -> (r: &String)
        ensures
            r@ == self@.connect,
    {
        &self.connect
    }
}

/// The loaded configuration: the list of forwarding rules, or nothing
/// when the file defines none.
pub struct Config {
    proxy: Option<Vec<Proxy>>,
}

/// Mathematical image of a [`Config`].
pub struct ConfigView {
    pub proxy: Option<Seq<ProxyView>>,
}

impl ConfigView {
    /// How many rules the configuration defines; an absent list counts
    /// as zero.
    pub open spec fn rule_count(self) -> nat {
        match self.proxy {
            Option::Some(l) => l.len(),
            Option::None => 0,
        }
    }
}

impl View for Config {
    type V = ConfigView;

    closed spec fn view(&self) -> ConfigView {
        ConfigView {
            proxy: match self.proxy {
                Option::Some(l) => Option::Some(l@.map_values(|p: Proxy| p@)),
                Option::None => Option::None,
            },
        }
    }
}

impl Config {
    pub fn new(proxy: Option<Vec<Proxy>>) -> (r: Config)
        ensures
            (match proxy {
                Option::Some(l) => r@.proxy == Option::Some(l@.map_values(|p: Proxy| p@)),
                Option::None => r@.proxy is None,
            }),
    {
        Config { proxy }
    }

    pub fn proxy(&self) -> (r: &Option<Vec<Proxy>>)
        ensures
            (match r {
                Option::Some(l) => self@.proxy == Option::Some(l@.map_values(|p: Proxy| p@)),
                Option::None => self@.proxy is None,
            }),
    {
        &self.proxy
    }
}

/// Everything that can go wrong while locating or loading the
/// configuration, and the one startup-fatal condition of the engine:
/// a configuration with no rules at all.
#[derive(Debug)]
pub enum Error {
    /// Neither an explicit path, nor the environment, nor a home
    /// directory yielded a configuration path.
    ConfigPathNotFound,
    /// The file at `path` could not be opened or read.
    Io { path: String },
    /// The file at `path` was read but could not be parsed.
    Parse { path: String },
    /// The configuration defines zero rules, so there is nothing to run.
    NoProxies,
}

impl Error {
    /// The message the runtime prints for this error.
    pub open spec fn spec_message(&self) -> Seq<char> {
        match self {
            Error::ConfigPathNotFound => "Failed to get config path"@,
            Error::Io { path } => "Can not open file \""@ + path@ + "\""@,
            Error::Parse { path } => "Parsing config file \""@ + path@ + "\" failed"@,
            Error::NoProxies => "No proxies defined in config"@,
        }
    }

    pub fn message(&self) -> (r: String)
        ensures
            r@ == self.spec_message(),
    {
        match self {
            Error::ConfigPathNotFound => String::from_str("Failed to get config path"),
            Error::Io { path } => {
                let mut s = String::from_str("Can not open file \"");
                s.append(path.as_str());
                s.append("\"");
                s
            },
            Error::Parse { path } => {
                let mut s = String::from_str("Parsing config file \"");
                s.append(path.as_str());
                s.append("\" failed");
                s
            },
            Error::NoProxies => String::from_str("No proxies defined in config"),
        }
    }
}

/// The file read under the home directory when nothing names a
/// configuration path explicitly.
pub open spec fn default_config_suffix() -> Seq<char> {
    "/.config/portproxy.toml"@
}

/// Chooses the configuration path.  The runtime passes the value of the
/// `PORTPROXY_CONFIG` environment variable and the user's home directory;
/// the environment wins, the home directory supplies the default path,
/// and with neither there is no path.
pub fn get_config_path(env_value: Option<String>, home: Option<String>) -> (r: Option<String>)
    ensures
        (match env_value {
            Option::Some(p) => r matches Some(q) && q@ == p@,
            Option::None => match home {
                Option::Some(h) => r matches Some(q) && q@ == h@ + default_config_suffix(),
                Option::None => r is None,
            },
        }),
        r is Some <==> (env_value is Some || home is Some),
{
    match env_value {
        Option::Some(p) => Option::Some(p),
        Option::None => match home {
            Option::Some(h) => {
                let mut s = h;
                s.append("/.config/portproxy.toml");
                Option::Some(s)
            },
            Option::None => Option::None,
        },
    }
}

} // verus!
