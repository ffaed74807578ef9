//! Resolution of the runtime settings from the command line and the
//! configuration document.

use vstd::prelude::*;
use crate::address::{parse_all_spec, parse_one_spec, AddressRecord, Convert, IPAddr, IPType};
use crate::error::{modelled, ParseError};

verus! {

/// What a [`Config`] holds, as plain mathematical values.
pub struct ConfigView {
    pub host_ip: Seq<char>,
    pub allow_ip: Option<Seq<Seq<char>>>,
    pub premiscuous: bool,
    pub secure: bool,
}

/// The persisted configuration document, already deserialized.
#[derive(Debug)]
pub struct Config {
    /// Address of the host.
    pub host_ip: String,
    /// Addresses that may connect.
    pub allow_ip: Option<Vec<String>>,
    /// Whether the allow-list is ignored.
    pub premiscuous: bool,
    /// Whether secure transport is requested.
    pub secure: bool,
}

impl View for Config {
    type V = ConfigView;

    open spec fn view(&self) -> ConfigView {
        ConfigView {
            host_ip: self.host_ip@,
            allow_ip: self.allow_ip.deep_view(),
            premiscuous: self.premiscuous,
            secure: self.secure,
        }
    }
}

/// What an [`Arguments`] holds, as plain mathematical values.
pub struct ArgumentsView {
    pub inputfile: Option<Seq<char>>,
    pub host_ip: Option<Seq<char>>,
    pub allow_ip: Option<Seq<Seq<char>>>,
    pub premiscuous: bool,
    pub secure_connection: bool,
}

/// The command-line arguments, already parsed.
#[derive(Debug)]
pub struct Arguments {
    /// Path of the resource to expose.
    pub inputfile: Option<String>,
    /// Address of the host.
    pub host_ip: Option<String>,
    /// Addresses that may connect.
    pub allow_ip: Option<Vec<String>>,
    /// Whether the allow-list is ignored.
    pub premiscuous: bool,
    /// Whether secure transport is requested.
    pub secure_connection: bool,
}

impl View for Arguments {
    type V = ArgumentsView;

    open spec fn view(&self) -> ArgumentsView {
        ArgumentsView {
            inputfile: self.inputfile.deep_view(),
            host_ip: self.host_ip.deep_view(),
            allow_ip: self.allow_ip.deep_view(),
            premiscuous: self.premiscuous,
            secure_connection: self.secure_connection,
        }
    }
}

/// What a [`Settings`] holds, as plain mathematical values.
pub struct SettingsView {
    pub host_ip: AddressRecord,
    pub allow_ip: Option<Seq<AddressRecord>>,
    pub inputpath: Option<Seq<char>>,
    pub permiscuous: bool,
    pub secure: bool,
}

/// The settings the server runs with.
#[derive(Debug)]
pub struct Settings {
    /// The address to bind to.
    pub host_ip: IPAddr,
    /// Addresses that may connect; `None` means that nothing is filtered.
    pub allow_ip: Option<Vec<IPAddr>>,
    /// Path of the resource to expose, if any.
    pub inputpath: Option<String>,
    /// Whether the allow-list is ignored.
    pub permiscuous: bool,
    /// Whether secure transport is requested.
    pub secure: bool,
}

impl View for Settings {
    type V = SettingsView;

    open spec fn view(&self) -> SettingsView {
        SettingsView {
            host_ip: self.host_ip@,
            allow_ip: self.allow_ip.deep_view(),
            inputpath: self.inputpath.deep_view(),
            permiscuous: self.permiscuous,
            secure: self.secure,
        }
    }
}

impl Default for Settings {
    /// The empty address as host, no allow-list, no input, both flags off.
    fn default() -> (r: Self)
        ensures
            r@ == (SettingsView {
                host_ip: AddressRecord { host: Seq::empty(), port: None, family: IPType::IPV4 },
                allow_ip: None,
                inputpath: None,
                permiscuous: false,
                secure: false,
            }),
    {
        Settings {
            host_ip: IPAddr::default(),
            allow_ip: None,
            inputpath: None,
            permiscuous: false,
            secure: false,
        }
    }
}

impl DeepView for Settings {
    type V = SettingsView;

    open spec fn deep_view(&self) -> SettingsView {
        self@
    }
}

/// The host string that is parsed: the command line's if it gives one, else
/// the configuration's.
pub open spec fn host_source(args: ArgumentsView, conf: ConfigView) -> Seq<char> {
    match args.host_ip {
        Some(host) => host,
        None => conf.host_ip,
    }
}

/// The allow-list that is parsed: the command line's if it gives one, even an
/// empty one; else the configuration's; else none. The two are never merged.
pub open spec fn allow_source(args: ArgumentsView, conf: ConfigView) -> Option<Seq<Seq<char>>> {
    match args.allow_ip {
        Some(allow) => Some(allow),
        None => conf.allow_ip,
    }
}

/// The settings that the two sources resolve to, field by field:
///
/// | field         | source                                              |
/// |---------------|-----------------------------------------------------|
/// | `host_ip`     | command line, else configuration                    |
/// | `allow_ip`    | command line, else configuration, else none         |
/// | `inputpath`   | command line only                                   |
/// | `permiscuous` | set if either source sets it                        |
/// | `secure`      | set if either source sets it                        |
///
/// The host is parsed first, then the allow-list; the first failure is the
/// result.
pub open spec fn combine_spec(args: ArgumentsView, conf: ConfigView) -> Result<
    SettingsView,
    ParseError,
> {
    match parse_one_spec(host_source(args, conf)) {
        Err(e) => Err(e),
        Ok(host) => {
            let allow = match allow_source(args, conf) {
                Some(strings) => match parse_all_spec(strings) {
                    Err(e) => Err(e),
                    Ok(records) => Ok(Some(records)),
                },
                None => Ok(None),
            };
            match allow {
                Err(e) => Err(e),
                Ok(allow_ip) => Ok(
                    SettingsView {
                        host_ip: host,
                        allow_ip,
                        inputpath: args.inputfile,
                        permiscuous: args.premiscuous || conf.premiscuous,
                        secure: args.secure_connection || conf.secure,
                    },
                ),
            }
        },
    }
}

/// What the command line gives shadows the configuration as a whole: with a
/// host and an allow-list on the command line, the configuration's host and
/// allow-list have no part in the result.
pub proof fn lemma_command_line_shadows(args: ArgumentsView, a: ConfigView, b: ConfigView)
    requires
        args.host_ip is Some,
        args.allow_ip is Some,
        a.premiscuous == b.premiscuous,
        a.secure == b.secure,
    ensures
        combine_spec(args, a) == combine_spec(args, b),
{
}

impl Settings {
    /// Merges the command line and the configuration document into the
    /// settings to run with. Any address that does not parse fails the whole
    /// call; there is no partial result.
    pub fn combine(args: Arguments, conf: Config) -> (r: Result<Settings, ParseError>)
        ensures
            modelled(r) == combine_spec(args@, conf@),
    {
        let Arguments { inputfile, host_ip, allow_ip, premiscuous, secure_connection } = args;
        let Config {
            host_ip: conf_host,
            allow_ip: conf_allow,
            premiscuous: conf_premiscuous,
            secure: conf_secure,
        } = conf;

        let host_text: String = match host_ip {
            Some(host) => host,
            None => conf_host,
        };
        let host_list: Vec<String> = vec![host_text];
        proof {
            let strings = host_list.deep_view();
            assert(strings.len() == 1);
            assert(strings.drop_last() =~= Seq::<Seq<char>>::empty());
            assert(strings.last() == host_source(args@, conf@));
            assert(parse_all_spec(strings.drop_last()) == Ok::<Seq<AddressRecord>, ParseError>(
                Seq::empty(),
            ));
        }
        let host: IPAddr = match IPAddr::from_str(&host_list) {
            Ok(parsed) => {
                proof {
                    assert(parsed.deep_view().len() == 1);
                    assert(parsed.deep_view()[0] == parsed@[0]@);
                }
                match parsed.simplify() {
                    Ok(single) => single,
                    Err(e) => { return Err(e); },
                }
            },
            Err(e) => { return Err(e); },
        };

        let allow_text: Option<Vec<String>> = match allow_ip {
            Some(allow) => Some(allow),
            None => conf_allow,
        };
        let allow: Option<Vec<IPAddr>> = match allow_text {
            Some(strings) => match IPAddr::from_str(&strings) {
                Ok(parsed) => Some(parsed),
                Err(e) => { return Err(e); },
            },
            None => None,
        };

        Ok(
            Settings {
                host_ip: host,
                allow_ip: allow,
                inputpath: inputfile,
                permiscuous: premiscuous || conf_premiscuous,
                secure: secure_connection || conf_secure,
            },
        )
    }
}

} // verus!
