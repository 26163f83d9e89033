//! Rendering a host into an SSH invocation: the argument list handed to the
//! external process executor, and the preview string shown in the status
//! line. Key selection follows the policy: the host's own key wins, then the
//! registry default (where `agent` means no explicit key), then the agent
//! socket if one is advertised, then a conventional fallback key.

use vstd::prelude::*;

use crate::bastion::{spec_resolve, ResolveFail};
use crate::errors::AppError;
use crate::model::{spec_display_label, Config, Host};
use crate::text;
use crate::text::{opt_view, spec_dec, spec_join, strs_of};

verus! {

/// A snapshot of the process environment the key policy reads: the agent
/// socket variable and the home directory. The caller takes it from the
/// real environment; the core never reads the environment itself.
pub struct EnvInfo {
    pub agent_sock: Option<String>,
    pub home: Option<String>,
}

/// The mathematical value of an [`EnvInfo`].
pub struct EnvV {
    pub agent_sock: Option<Seq<char>>,
    pub home: Option<Seq<char>>,
}

impl View for EnvInfo {
    type V = EnvV;

    open spec fn view(&self) -> EnvV {
        EnvV { agent_sock: opt_view(self.agent_sock), home: opt_view(self.home) }
    }
}

/// Home-directory shorthand expansion: a leading `~/` is replaced by the
/// home directory and a separator; anything else is returned unchanged.
pub open spec fn spec_expand_tilde(path: Seq<char>, home: Option<Seq<char>>) -> Seq<char> {
    if path.len() >= 2 && path[0] == '~' && path[1] == '/' && home is Some {
        home->0 + seq!['/'] + path.skip(2)
    } else {
        path
    }
}

/// Expands a leading `~/` against the given home directory.
pub fn expand_tilde(path: &str, home: &Option<String>) -> (r: String)
    ensures
        r@ == spec_expand_tilde(path@, opt_view(*home)),
{
    let cs = text::chars_of(path);
    if cs.len() >= 2 && cs[0] == '~' && cs[1] == '/' {
        match home {
            Some(h) => {
                let mut out = text::chars_of(h.as_str());
                out.push('/');
                let mut tail = text::subvec(&cs, 2, cs.len());
                out.append(&mut tail);
                proof {
                    assert(cs@.subrange(2, cs@.len() as int) =~= path@.skip(2));
                    assert(out@ =~= spec_expand_tilde(path@, opt_view(*home)));
                }
                text::string_of(&out)
            },
            None => text::string_of(&cs),
        }
    } else {
        text::string_of(&cs)
    }
}

/// Which key an invocation passes with `-i`, if any: the host's key, else
/// the registry default (`agent` meaning none), else none when an agent
/// socket is advertised, else the conventional fallback key.
pub open spec fn spec_select_key(
    host_key: Option<Seq<char>>,
    default_key: Option<Seq<char>>,
    env: EnvV,
) -> Option<Seq<char>> {
    match host_key {
        Some(k) => Some(spec_expand_tilde(k, env.home)),
        None => match default_key {
            Some(k) => if k == "agent"@ {
                None
            } else {
                Some(spec_expand_tilde(k, env.home))
            },
            None => {
                let agent_ok = match env.agent_sock {
                    Some(v) => v.len() > 0,
                    None => false,
                };
                if agent_ok {
                    None
                } else {
                    Some(spec_expand_tilde("~/.ssh/id_ed25519"@, env.home))
                }
            },
        },
    }
}

/// Selects the key path for an invocation, following the key policy.
pub fn select_key(host_key: &Option<String>, default_key: Option<&str>, env: &EnvInfo) -> (r:
    Option<String>)
    ensures
        ({
            let res = spec_select_key(
                opt_view(*host_key),
                match default_key {
                    Some(d) => Some(d@),
                    None => None,
                },
                env@,
            );
            match res {
                Some(k) => r is Some && r->0@ == k,
                None => r is None,
            }
        }),
{
    match host_key {
        Some(k) => Some(expand_tilde(k.as_str(), &env.home)),
        None => match default_key {
            Some(k) => {
                if text::str_eq(k, "agent") {
                    None
                } else {
                    Some(expand_tilde(k, &env.home))
                }
            },
            None => {
                let agent_ok = match &env.agent_sock {
                    Some(v) => !v.as_str().is_empty(),
                    None => false,
                };
                if agent_ok {
                    None
                } else {
                    Some(expand_tilde("~/.ssh/id_ed25519", &env.home))
                }
            },
        },
    }
}

/// Appends one argument, extending the view by one string.
fn push_arg(args: &mut Vec<String>, s: String)
    ensures
        strs_of(final(args)@) == strs_of(old(args)@).push(s@),
{
    let ghost o = strs_of(args@);
    let ghost sv = s@;
    args.push(s);
    proof {
        assert(strs_of(args@) =~= o.push(sv));
    }
}

/// Appends one part, extending the view by one string.
fn push_part(parts: &mut Vec<Vec<char>>, p: Vec<char>)
    ensures
        text::views_of(final(parts)@) == text::views_of(old(parts)@).push(p@),
{
    let ghost o = text::views_of(parts@);
    let ghost pv = p@;
    parts.push(p);
    proof {
        assert(text::views_of(parts@) =~= o.push(pv));
    }
}

/// An assembled invocation: the program and its ordered arguments. The
/// caller turns it into a real process command; the core only builds it.
#[derive(Debug)]
pub struct Invocation {
    pub program: String,
    pub args: Vec<String>,
}

/// The mathematical value of an [`Invocation`].
pub struct InvocationV {
    pub program: Seq<char>,
    pub args: Seq<Seq<char>>,
}

impl View for Invocation {
    type V = InvocationV;

    open spec fn view(&self) -> InvocationV {
        InvocationV { program: self.program@, args: strs_of(self.args@) }
    }
}

/// The argument list of an invocation for `h`: the proxy chain, the port,
/// the selected key, the host's literal option tokens, the target, and the
/// trailing command (an override wins over the stored remote command).
pub open spec fn spec_cmd_args(
    h: crate::model::HostV,
    hosts: Seq<crate::model::HostV>,
    default_key: Option<Seq<char>>,
    extra: Option<Seq<char>>,
    env: EnvV,
) -> Result<Seq<Seq<char>>, ResolveFail> {
    let chain = match h.bastion {
        Some(b) => match spec_resolve(hosts, Set::empty(), b) {
            Ok(ch) => Ok(seq![seq!['-', 'J'], ch]),
            Err(e) => Err(e),
        },
        None => Ok(Seq::empty()),
    };
    match chain {
        Err(e) => Err(e),
        Ok(first) => {
            let port_part: Seq<Seq<char>> = match h.port {
                Some(p) => seq![seq!['-', 'p'], spec_dec(p as nat)],
                None => Seq::empty(),
            };
            let key_part: Seq<Seq<char>> = match spec_select_key(h.key_path, default_key, env) {
                Some(k) => seq![seq!['-', 'i'], k],
                None => Seq::empty(),
            };
            let tail: Seq<Seq<char>> = match extra {
                Some(e) => seq![e],
                None => match h.remote_command {
                    Some(rc) => seq![rc],
                    None => Seq::empty(),
                },
            };
            Ok(first + port_part + key_part + h.options + seq![spec_display_label(h)] + tail)
        },
    }
}

/// Builds the invocation for a host, or fails where the proxy chain cannot
/// be resolved.
pub fn build_command(
    host: &Host,
    config: &Config,
    default_key: Option<&str>,
    extra_command: Option<&str>,
    env: &EnvInfo,
) -> (r: Result<Invocation, AppError>)
    ensures
        ({
            let res = spec_cmd_args(
                host@,
                config@.hosts,
                match default_key {
                    Some(d) => Some(d@),
                    None => None,
                },
                match extra_command {
                    Some(e) => Some(e@),
                    None => None,
                },
                env@,
            );
            match res {
                Ok(args) => r is Ok && r->Ok_0@.program == "ssh"@ && r->Ok_0@.args == args,
                Err(f) => r is Err && (match f {
                    ResolveFail::Cycle(n) => r->Err_0 matches AppError::ResolveCycle(m) && m@ == n,
                    ResolveFail::NotFound(n) => r->Err_0 matches AppError::BastionNotFound(m)
                        && m@ == n,
                }),
            }
        }),
{
    let ghost dk: Option<Seq<char>> = match default_key {
        Some(d) => Some(d@),
        None => None,
    };
    let ghost ex: Option<Seq<char>> = match extra_command {
        Some(e) => Some(e@),
        None => None,
    };
    let ghost res = spec_cmd_args(host@, config@.hosts, dk, ex, env@);
    let mut args: Vec<String> = Vec::new();
    match &host.bastion {
        Some(b) => {
            let chain = crate::bastion::build_bastion_string(config, b.as_str());
            match chain {
                Ok(ch) => {
                    proof {
                        assert(("-J")@ =~= seq!['-', 'J']) by {
                            reveal_strlit("-J");
                        }
                    }
                    push_arg(&mut args, String::from_str("-J"));
                    push_arg(&mut args, ch);
                },
                Err(e) => {
                    return Err(e);
                },
            }
        },
        None => {},
    }
    let ghost first = match host@.bastion {
        Some(b) => seq![seq!['-', 'J'], spec_resolve(config@.hosts, Set::empty(), b)->Ok_0],
        None => Seq::<Seq<char>>::empty(),
    };
    proof {
        assert(strs_of(args@) =~= first);
    }
    match host.port {
        Some(p) => {
            proof {
                assert(("-p")@ =~= seq!['-', 'p']) by {
                    reveal_strlit("-p");
                }
            }
            push_arg(&mut args, String::from_str("-p"));
            push_arg(&mut args, text::dec_string(p as u128));
        },
        None => {},
    }
    let ghost port_part: Seq<Seq<char>> = match host@.port {
        Some(p) => seq![seq!['-', 'p'], spec_dec(p as nat)],
        None => Seq::empty(),
    };
    proof {
        assert(strs_of(args@) =~= first + port_part);
    }
    match select_key(&host.key_path, default_key, env) {
        Some(k) => {
            proof {
                assert(("-i")@ =~= seq!['-', 'i']) by {
                    reveal_strlit("-i");
                }
            }
            push_arg(&mut args, String::from_str("-i"));
            push_arg(&mut args, k);
        },
        None => {},
    }
    let ghost key_part: Seq<Seq<char>> = match spec_select_key(host@.key_path, dk, env@) {
        Some(k) => seq![seq!['-', 'i'], k],
        None => Seq::empty(),
    };
    proof {
        assert(strs_of(args@) =~= (first + port_part) + key_part);
    }
    let ghost mid = (first + port_part) + key_part;
    let mut i: usize = 0;
    while i < host.options.len()
        invariant
            i <= host.options@.len(),
            mid == (first + port_part) + key_part,
            strs_of(args@) == mid + strs_of(host.options@).take(i as int),
        decreases host.options@.len() - i,
    {
        proof {
            assert(mid + strs_of(host.options@).take(i + 1 as int) =~= (mid + strs_of(
                host.options@,
            ).take(i as int)).push(host.options@[i as int]@));
        }
        push_arg(&mut args, host.options[i].clone());
        i += 1;
    }
    proof {
        assert(strs_of(host.options@).take(host.options@.len() as int) =~= strs_of(host.options@));
        assert(strs_of(args@) =~= mid + host@.options);
    }
    push_arg(&mut args, host.display_label());
    match extra_command {
        Some(e) => {
            push_arg(&mut args, e.to_owned());
        },
        None => {
            match &host.remote_command {
                Some(rc) => {
                    push_arg(&mut args, rc.clone());
                },
                None => {},
            }
        },
    }
    let r = Invocation { program: String::from_str("ssh"), args };
    proof {
        assert(r@.args =~= res->Ok_0);
    }
    Ok(r)
}

/// The preview parts for a host: like the invocation, but led by `ssh` and
/// never failing — an unresolvable chain renders as an error marker in
/// place of the chain.
pub open spec fn spec_preview_parts(
    h: crate::model::HostV,
    hosts: Seq<crate::model::HostV>,
    default_key: Option<Seq<char>>,
    extra: Option<Seq<char>>,
    env: EnvV,
) -> Seq<Seq<char>> {
    let lead: Seq<Seq<char>> = seq!["ssh"@];
    let chain_part: Seq<Seq<char>> = match h.bastion {
        Some(b) => match spec_resolve(hosts, Set::empty(), b) {
            Ok(ch) => seq![seq!['-', 'J'], ch],
            Err(_) => seq!["-J <error: bastion '"@ + b + "' not found>"@],
        },
        None => Seq::empty(),
    };
    let port_part: Seq<Seq<char>> = match h.port {
        Some(p) => seq![seq!['-', 'p'], spec_dec(p as nat)],
        None => Seq::empty(),
    };
    let key_part: Seq<Seq<char>> = match spec_select_key(h.key_path, default_key, env) {
        Some(k) => seq![seq!['-', 'i'], k],
        None => Seq::empty(),
    };
    let tail: Seq<Seq<char>> = match extra {
        Some(e) => seq![e],
        None => match h.remote_command {
            Some(rc) => seq![rc],
            None => Seq::empty(),
        },
    };
    lead + chain_part + port_part + key_part + h.options + seq![spec_display_label(h)] + tail
}

/// The space-joined preview string of the invocation for `h`.
pub open spec fn spec_preview(
    h: crate::model::HostV,
    hosts: Seq<crate::model::HostV>,
    default_key: Option<Seq<char>>,
    extra: Option<Seq<char>>,
    env: EnvV,
) -> Seq<char> {
    spec_join(spec_preview_parts(h, hosts, default_key, extra, env), seq![' '])
}

/// Renders the command the invocation would run, for display only.
#[verifier::rlimit(80)]
pub fn command_preview(
    host: &Host,
    config: &Config,
    default_key: Option<&str>,
    extra: Option<&str>,
    env: &EnvInfo,
) -> (r: String)
    ensures
        r@ == spec_preview(
            host@,
            config@.hosts,
            match default_key {
                Some(d) => Some(d@),
                None => None,
            },
            match extra {
                Some(e) => Some(e@),
                None => None,
            },
            env@,
        ),
{
    let ghost dk: Option<Seq<char>> = match default_key {
        Some(d) => Some(d@),
        None => None,
    };
    let ghost ex: Option<Seq<char>> = match extra {
        Some(e) => Some(e@),
        None => None,
    };
    let mut parts: Vec<Vec<char>> = Vec::new();
    push_part(&mut parts, text::chars_of("ssh"));
    let ghost lead: Seq<Seq<char>> = seq!["ssh"@];
    proof {
        assert(text::views_of(parts@) =~= lead);
    }
    match &host.bastion {
        Some(b) => {
            let chain = crate::bastion::build_bastion_string(config, b.as_str());
            match chain {
                Ok(ch) => {
                    let mut f: Vec<char> = Vec::new();
                    f.push('-');
                    f.push('J');
                    proof {
                        assert(f@ =~= seq!['-', 'J']);
                    }
                    push_part(&mut parts, f);
                    push_part(&mut parts, text::chars_of(ch.as_str()));
                },
                Err(_) => {
                    let mut m = text::chars_of("-J <error: bastion '");
                    let mut bn = text::chars_of(b.as_str());
                    let mut t = text::chars_of("' not found>");
                    m.append(&mut bn);
                    m.append(&mut t);
                    proof {
                        assert(m@ =~= "-J <error: bastion '"@ + b@ + "' not found>"@);
                    }
                    push_part(&mut parts, m);
                },
            }
        },
        None => {},
    }
    let ghost chain_part: Seq<Seq<char>> = match host@.bastion {
        Some(b) => match spec_resolve(config@.hosts, Set::empty(), b) {
            Ok(ch) => seq![seq!['-', 'J'], ch],
            Err(_) => seq!["-J <error: bastion '"@ + b + "' not found>"@],
        },
        None => Seq::empty(),
    };
    proof {
        assert(text::views_of(parts@) =~= lead + chain_part);
    }
    match host.port {
        Some(p) => {
            let mut f: Vec<char> = Vec::new();
            f.push('-');
            f.push('p');
            proof {
                assert(f@ =~= seq!['-', 'p']);
            }
            push_part(&mut parts, f);
            push_part(&mut parts, text::dec_chars(p as u128));
        },
        None => {},
    }
    let ghost port_part: Seq<Seq<char>> = match host@.port {
        Some(p) => seq![seq!['-', 'p'], spec_dec(p as nat)],
        None => Seq::empty(),
    };
    proof {
        assert(text::views_of(parts@) =~= (lead + chain_part) + port_part);
    }
    match select_key(&host.key_path, default_key, env) {
        Some(k) => {
            let mut f: Vec<char> = Vec::new();
            f.push('-');
            f.push('i');
            proof {
                assert(f@ =~= seq!['-', 'i']);
            }
            push_part(&mut parts, f);
            push_part(&mut parts, text::chars_of(k.as_str()));
        },
        None => {},
    }
    let ghost key_part: Seq<Seq<char>> = match spec_select_key(host@.key_path, dk, env@) {
        Some(k) => seq![seq!['-', 'i'], k],
        None => Seq::empty(),
    };
    let ghost mid = ((lead + chain_part) + port_part) + key_part;
    proof {
        assert(text::views_of(parts@) =~= mid);
    }
    let mut i: usize = 0;
    while i < host.options.len()
        invariant
            i <= host.options@.len(),
            mid == ((lead + chain_part) + port_part) + key_part,
            text::views_of(parts@) == mid + strs_of(host.options@).take(i as int),
        decreases host.options@.len() - i,
    {
        proof {
            assert(mid + strs_of(host.options@).take(i + 1 as int) =~= (mid + strs_of(
                host.options@,
            ).take(i as int)).push(host.options@[i as int]@));
        }
        push_part(&mut parts, text::chars_of(host.options[i].as_str()));
        i += 1;
    }
    proof {
        assert(strs_of(host.options@).take(host.options@.len() as int) =~= strs_of(host.options@));
        assert(text::views_of(parts@) =~= mid + host@.options);
    }
    let label = host.display_label();
    push_part(&mut parts, text::chars_of(label.as_str()));
    match extra {
        Some(e) => {
            push_part(&mut parts, text::chars_of(e));
        },
        None => {
            match &host.remote_command {
                Some(rc) => {
                    push_part(&mut parts, text::chars_of(rc.as_str()));
                },
                None => {},
            }
        },
    }
    proof {
        assert(text::views_of(parts@) =~= spec_preview_parts(host@, config@.hosts, dk, ex, env@));
    }
    let mut sep: Vec<char> = Vec::new();
    sep.push(' ');
    proof {
        assert(sep@ =~= seq![' ']);
    }
    let joined = text::join_chars(&parts, &sep);
    text::string_of(&joined)
}

} // verus!
