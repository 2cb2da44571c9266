//! Destination resolution: a destination string `host`, `host:alias` or
//! `host:/abs/path` is split at the first `:`, the host is looked up by
//! exact name, and the path comes verbatim (absolute), from the host's
//! alias table, or from the configured default alias.

use crate::config::{find_host, find_similar, find_value, lookup_path, Config, Host};
use crate::strutil::{dec_rep, dec_string, find_char, str_starts_with};
use vstd::prelude::*;

verus! {

#[derive(Debug)]
pub enum ResolveError {
    /// The destination names no configured host; a similar configured name
    /// is suggested when one exists.
    UnknownHost { name: String, suggestion: Option<String> },
    /// The named alias is not in the host's path table.
    UnknownAlias { host: String, alias: String },
}

/// Resolved destination ready for SSH/SCP.
pub struct ResolvedDest {
    pub user: String,
    pub host: String,
    pub port: u16,
    pub path: String,
    pub identity_file: Option<String>,
}

/// Splitting a destination at its first `:`: the host name, and the rest
/// verbatim when a `:` is there.
pub open spec fn split_dest(s: Seq<char>) -> (Seq<char>, Option<Seq<char>>) {
    match s.index_of_first(':') {
        Some(i) => (s.take(i), Some(s.skip(i + 1))),
        None => (s, None),
    }
}

/// Parse a destination string: `host`, `host:alias`, or `host:/abs/path`.
pub fn parse_destination(dest: &str) -> (r: (String, Option<String>))
    ensures
        r.0@ == split_dest(dest@).0,
        match (r.1, split_dest(dest@).1) {
            (Some(a), Some(b)) => a@ == b,
            (None, None) => true,
            _ => false,
        },
{
    proof {
        dest@.index_of_first_ensures(':');
    }
    let len = dest.unicode_len();
    match find_char(dest, ':') {
        Some(i) => {
            proof {
                assert(dest@.contains(':')) by {
                    assert(dest@[i as int] == ':');
                }
                let k = dest@.index_of_first(':')->Some_0;
                assert(dest@[k] == ':');
                if k < i as int {
                    assert(false);
                }
                if k > i as int {
                    assert(false);
                }
            }
            let host = String::from_str(dest.substring_char(0, i));
            let rest = String::from_str(dest.substring_char(i + 1, len));
            proof {
                assert(host@ =~= dest@.take(i as int));
                assert(rest@ =~= dest@.skip(i + 1 as int));
            }
            (host, Some(rest))
        },
        None => {
            proof {
                if dest@.contains(':') {
                    let k = choose|k: int| 0 <= k < dest@.len() && dest@[k] == ':';
                    assert(false);
                }
            }
            (String::from_str(dest), None)
        },
    }
}

/// The path a destination's right-hand side resolves to: an absolute path
/// verbatim, else through the host's alias table, else through the default
/// alias; a missing alias is the error, naming the host and the alias.
pub open spec fn spec_resolve_path(
    host: Host,
    part: Option<Seq<char>>,
    default_alias: Seq<char>,
) -> Result<Seq<char>, Seq<char>> {
    match part {
        Some(p) => {
            if p.len() > 0 && p[0] == '/' {
                Ok(p)
            } else {
                match find_value(host.paths@, p) {
                    Some(v) => Ok(v),
                    None => Err(p),
                }
            }
        },
        None => match find_value(host.paths@, default_alias) {
            Some(v) => Ok(v),
            None => Err(default_alias),
        },
    }
}

/// Resolve the path part of a destination against a host's alias table.
pub fn resolve_path(host: &Host, path_or_alias: Option<&String>, config: &Config) -> (r: Result<
    String,
    ResolveError,
>)
    ensures
        ({
            let part = match path_or_alias {
                Some(p) => Some(p@),
                None => None,
            };
            match spec_resolve_path(*host, part, config.defaults.default_path_alias@) {
                Ok(p) => r is Ok && r->Ok_0@ == p,
                Err(alias) => r matches Err(ResolveError::UnknownAlias { host: h, alias: a })
                    && h@ == host.host@ && a@ == alias,
            }
        }),
{
    match path_or_alias {
        Some(p) => {
            if str_starts_with(p.as_str(), "/") {
                proof {
                    reveal_strlit("/");
                    assert("/"@.len() == 1 && "/"@[0] == '/');
                    assert(p@.subrange(0, 1)[0] == p@[0]);
                    assert(p@.len() > 0 && p@[0] == '/');
                }
                Ok(p.clone())
            } else {
                proof {
                    reveal_strlit("/");
                    if p@.len() > 0 && p@[0] == '/' {
                        assert("/"@ =~= p@.subrange(0, 1));
                    }
                }
                match lookup_path(&host.paths, p.as_str()) {
                    Some(v) => Ok(v.clone()),
                    None => Err(
                        ResolveError::UnknownAlias { host: host.host.clone(), alias: p.clone() },
                    ),
                }
            }
        },
        None => {
            match lookup_path(&host.paths, config.defaults.default_path_alias.as_str()) {
                Some(v) => Ok(v.clone()),
                None => Err(
                    ResolveError::UnknownAlias {
                        host: host.host.clone(),
                        alias: config.defaults.default_path_alias.clone(),
                    },
                ),
            }
        },
    }
}

/// Resolve a destination string to full connection details: the host by
/// exact name (an unknown one fails, with a similar configured name as the
/// suggestion), the path by the resolution rules, and user and port from
/// the host's overrides or the configured defaults.
pub fn resolve(dest: &str, config: &Config) -> (r: Result<ResolvedDest, ResolveError>)
    ensures
        ({
            let (host_name, part) = split_dest(dest@);
            match find_host(config.hosts@, host_name) {
                None => r matches Err(ResolveError::UnknownHost { name, suggestion })
                    && name@ == host_name && (match (suggestion, find_similar(
                    config.hosts@,
                    host_name,
                )) {
                    (Some(s), Some(t)) => s@ == t,
                    (None, None) => true,
                    _ => false,
                }),
                Some(host) => match spec_resolve_path(
                    host,
                    part,
                    config.defaults.default_path_alias@,
                ) {
                    Ok(p) => r matches Ok(d) && d.path@ == p && d.host@ == host.host@ && (match (
                        host.user,
                        d.user,
                    ) {
                        (Some(u), du) => du@ == u@,
                        (None, du) => du@ == config.defaults.user@,
                    }) && d.port == (match host.port {
                        Some(p) => p,
                        None => config.defaults.port,
                    }) && (match (host.identity_file, d.identity_file) {
                        (Some(f), Some(df)) => df@ == f@,
                        (None, None) => true,
                        _ => false,
                    }),
                    Err(alias) => r matches Err(ResolveError::UnknownAlias { host: h, alias: a })
                        && h@ == host.host@ && a@ == alias,
                },
            }
        }),
{
    let (host_name, path_or_alias) = parse_destination(dest);

    let host = match config.get_host(host_name.as_str()) {
        Some(h) => h,
        None => {
            let suggestion = match config.find_similar_host(host_name.as_str()) {
                Some(s) => Some(s.clone()),
                None => None,
            };
            return Err(ResolveError::UnknownHost { name: host_name, suggestion });
        },
    };

    let path = match resolve_path(host, path_or_alias.as_ref(), config) {
        Ok(p) => p,
        Err(e) => {
            return Err(e);
        },
    };

    let user = match &host.user {
        Some(u) => u.clone(),
        None => config.defaults.user.clone(),
    };
    let port = match host.port {
        Some(p) => p,
        None => config.defaults.port,
    };
    let identity_file = match &host.identity_file {
        Some(f) => Some(f.clone()),
        None => None,
    };

    Ok(ResolvedDest { user, host: host.host.clone(), port, path, identity_file })
}

impl ResolvedDest {
    /// Format as `user@host:path` for scp.
    pub fn scp_target(&self) -> (r: String)
        ensures
            r@ == self.user@ + "@"@ + self.host@ + ":"@ + self.path@,
    {
        let mut r = self.user.clone();
        r.append("@");
        r.append(self.host.as_str());
        r.append(":");
        r.append(self.path.as_str());
        r
    }

    /// Format as `user@host:` followed by an explicit remote path, the
    /// scp target for a file placed elsewhere than the resolved path.
    pub fn remote_target(&self, remote_path: &str) -> (r: String)
        ensures
            r@ == self.user@ + "@"@ + self.host@ + ":"@ + remote_path@,
    {
        let mut r = self.user.clone();
        r.append("@");
        r.append(self.host.as_str());
        r.append(":");
        r.append(remote_path);
        r
    }

    /// Format as `user@host` for ssh.
    pub fn ssh_target(&self) -> (r: String)
        ensures
            r@ == self.user@ + "@"@ + self.host@,
    {
        let mut r = self.user.clone();
        r.append("@");
        r.append(self.host.as_str());
        r
    }

    /// The port and identity arguments, under the given port flag: nothing
    /// for the default port 22, and `-i` with the identity file when set.
    pub open spec fn spec_args(self, port_flag: Seq<char>) -> Seq<Seq<char>> {
        (if self.port != 22 {
            seq![port_flag, dec_rep(self.port as nat)]
        } else {
            Seq::<Seq<char>>::empty()
        }) + (match self.identity_file {
            Some(f) => seq!["-i"@, f@],
            None => Seq::<Seq<char>>::empty(),
        })
    }

    /// SSH arguments for port and identity.
    pub fn ssh_args(&self) -> (r: Vec<String>)
        ensures
            r@.map(|i: int, s: String| s@) == self.spec_args("-p"@),
    {
        let mut args: Vec<String> = Vec::new();
        if self.port != 22 {
            args.push(String::from_str("-p"));
            args.push(dec_string(self.port as u128));
        }
        if let Some(id) = &self.identity_file {
            args.push(String::from_str("-i"));
            args.push(id.clone());
        }
        proof {
            assert(args@.map(|i: int, s: String| s@) =~= self.spec_args("-p"@));
        }
        args
    }

    /// SCP arguments for port and identity.
    pub fn scp_args(&self) -> (r: Vec<String>)
        ensures
            r@.map(|i: int, s: String| s@) == self.spec_args("-P"@),
    {
        let mut args: Vec<String> = Vec::new();
        if self.port != 22 {
            args.push(String::from_str("-P"));
            args.push(dec_string(self.port as u128));
        }
        if let Some(id) = &self.identity_file {
            args.push(String::from_str("-i"));
            args.push(id.clone());
        }
        proof {
            assert(args@.map(|i: int, s: String| s@) =~= self.spec_args("-P"@));
        }
        args
    }
}

} // verus!
