//! The command line's data and the decisions taken on it before any
//! connection is made.

use vstd::prelude::*;
use crate::banner::BannerOpts;
use crate::extract::string_views;
use crate::protocol::{hint_of, Protocol};
use crate::text::{find_char, index_of, lemma_index_of};

verus! {

/// The parsed command line.
#[derive(Debug, Clone)]
pub struct Opts {
    pub command: Command,
}

/// The subcommands of the tool.
#[derive(Debug, Clone)]
pub enum Command {
    /// Wait for a connection.
    Listen {
        interactive: bool,
        block_signals: bool,
        local_interactive: bool,
        execute: Option<String>,
        host: Vec<String>,
    },
    /// Connect to a controlling host and hand it a shell.
    Connect { shell: String, host: Vec<String> },
    /// Grab service banners from a remote host.
    Banner {
        protocol: String,
        timeout: u64,
        verbose: bool,
        output: Option<String>,
        multiple_ports: Option<String>,
        host: Vec<String>,
    },
}

/// The host and port that positional arguments give: `port` alone means host
/// `0.0.0.0`, `host:port` is split at its one colon, and `host port` is taken
/// as it stands.
pub open spec fn host_port_spec(args: Seq<Seq<char>>) -> Result<
    (Seq<char>, Seq<char>),
    Seq<char>,
> {
    if args.len() == 1 {
        let a = args[0];
        let k = index_of(a, ':');
        if 0 <= k < a.len() {
            let rest = a.subrange(k + 1, a.len() as int);
            if index_of(rest, ':') == rest.len() {
                Ok((a.subrange(0, k), rest))
            } else {
                Err("Invalid host:port format"@)
            }
        } else {
            Ok(("0.0.0.0"@, a))
        }
    } else if args.len() == 2 {
        Ok((args[0], args[1]))
    } else {
        Err("Missing host or invalid format"@)
    }
}

pub open spec fn host_port_view(r: Result<(String, String), String>) -> Result<
    (Seq<char>, Seq<char>),
    Seq<char>,
> {
    match r {
        Ok((h, p)) => Ok((h@, p@)),
        Err(e) => Err(e@),
    }
}

/// Splits the positional arguments into a host and a port.
pub fn host_from_opts(host: Vec<String>) -> (r: Result<(String, String), String>)
    ensures
        host_port_view(r) == host_port_spec(string_views(host@)),
{
    let ghost args = string_views(host@);
    if host.len() == 1 {
        let param = host[0].as_str();
        proof {
            assert(args[0] == param@);
        }
        let n = param.unicode_len();
        let k = find_char(param, ':', 0);
        proof {
            assert(param@.subrange(0, n as int) =~= param@);
            lemma_index_of(param@, ':');
        }
        if k < n {
            let m = find_char(param, ':', k + 1);
            let before = param.substring_char(0, k);
            let after = param.substring_char(k + 1, n);
            if m == n {
                Ok((String::from_str(before), String::from_str(after)))
            } else {
                proof {
                    lemma_index_of(param@.subrange(k + 1, n as int), ':');
                }
                Err(String::from_str("Invalid host:port format"))
            }
        } else {
            Ok((String::from_str("0.0.0.0"), String::from_str(param)))
        }
    } else if host.len() == 2 {
        proof {
            assert(args[0] == host@[0]@ && args[1] == host@[1]@);
        }
        Ok((host[0].clone(), host[1].clone()))
    } else {
        Err(String::from_str("Missing host or invalid format"))
    }
}

impl BannerOpts {
    /// The grab settings of a `banner` command: host and port from the
    /// positional arguments, the hint parsed without regard to case.
    pub fn from_args(host: Vec<String>, protocol: &str, timeout: u64, verbose: bool) -> (r: Result<
        BannerOpts,
        String,
    >)
        ensures
            host_port_spec(string_views(host@)) is Err ==> (r matches Err(e) && Err::<
                (Seq<char>, Seq<char>),
                Seq<char>,
            >(e@) == host_port_spec(string_views(host@))),
            host_port_spec(string_views(host@)) matches Ok((h, p)) ==> (r matches Ok(o) && o.host@
                == h && o.port@ == p && o.timeout == timeout && o.verbose == verbose && o.protocol
                == hint_of(protocol@)),
    {
        match host_from_opts(host) {
            Ok((h, p)) => Ok(
                BannerOpts {
                    host: h,
                    port: p,
                    timeout,
                    protocol: Protocol::from_str(protocol),
                    verbose,
                },
            ),
            Err(e) => Err(e),
        }
    }
}

} // verus!
