//! The bastion-chain resolver: builds the proxy-chain string for the SSH
//! jump-host mechanism and validates the whole registry against
//! self-referential and circular bastion chains.

use vstd::prelude::*;

use crate::errors::AppError;
use crate::model::{lemma_host_index, spec_host_index, Config, Host, HostV};
use crate::text;
use crate::text::{spec_dec, strs_of};

verus! {

broadcast use vstd::seq_lib::group_seq_properties;

/// The set of host names in the registry.
pub open spec fn names_of(hosts: Seq<HostV>) -> Set<Seq<char>> {
    hosts.map_values(|h: HostV| h.name).to_set()
}

/// Walks the named bastion chain starting at `current`, with `seen` the
/// names already visited. Returns the first revisited name, or `None` when
/// the chain ends (at a host without a bastion, or at an unknown name:
/// an unknown bastion is not an error at validation time).
pub open spec fn spec_walk(hosts: Seq<HostV>, seen: Set<Seq<char>>, current: Seq<char>) -> Option<
    Seq<char>,
>
    decreases names_of(hosts).difference(seen).len()
        when seen.finite()
        via spec_walk_decreases
{
    if seen.contains(current) {
        Some(current)
    } else {
        let idx = spec_host_index(hosts, current);
        if idx == -1 {
            None
        } else {
            match hosts[idx].bastion {
                None => None,
                Some(next) => spec_walk(hosts, seen.insert(current), next),
            }
        }
    }
}

#[via_fn]
proof fn spec_walk_decreases(hosts: Seq<HostV>, seen: Set<Seq<char>>, current: Seq<char>) {
    broadcast use vstd::seq_lib::seq_to_set_is_finite;

    if !seen.contains(current) {
        let idx = spec_host_index(hosts, current);
        if idx != -1 {
            lemma_host_index(hosts, current);
            lemma_names_contains(hosts, idx);
            names_of(hosts).lemma_set_insert_diff_decreases(seen, current);
        }
    }
}

/// The name of the host at `idx` is in the registry's name set.
pub proof fn lemma_names_contains(hosts: Seq<HostV>, idx: int)
    requires
        0 <= idx < hosts.len(),
    ensures
        names_of(hosts).contains(hosts[idx].name),
{
    assert(hosts.map_values(|h: HostV| h.name)[idx] == hosts[idx].name);
    assert(hosts.map_values(|h: HostV| h.name).contains(hosts[idx].name));
}

/// How validating one host can fail.
pub enum ValFail {
    /// The host names itself as its bastion.
    SelfRef(Seq<char>),
    /// Walking the chain revisited the carried name.
    Cycle(Seq<char>),
}

/// Validation of a single host's bastion chain.
pub open spec fn spec_validate_host(hosts: Seq<HostV>, h: HostV) -> Option<ValFail> {
    match h.bastion {
        None => None,
        Some(b) => if b == h.name {
            Some(ValFail::SelfRef(h.name))
        } else {
            match spec_walk(hosts, set![h.name], b) {
                Some(c) => Some(ValFail::Cycle(c)),
                None => None,
            }
        },
    }
}

/// Validation of the whole registry from index `i` on: the first failure in
/// host order, or `None` when every chain is acceptable.
pub open spec fn spec_validate(hosts: Seq<HostV>, i: int) -> Option<ValFail>
    decreases hosts.len() - i,
{
    if i < 0 || i >= hosts.len() {
        None
    } else {
        match spec_validate_host(hosts, hosts[i]) {
            Some(e) => Some(e),
            None => spec_validate(hosts, i + 1),
        }
    }
}

/// Pushing a name onto the seen list inserts it into the seen set.
proof fn lemma_push_to_set(ss: Seq<Seq<char>>, x: Seq<char>)
    ensures
        ss.push(x).to_set() =~= ss.to_set().insert(x),
{
    assert forall|y: Seq<char>| #![auto]
        ss.push(x).to_set().contains(y) <==> ss.to_set().insert(x).contains(y) by {
        assert(ss.push(x).contains(y) <==> x == y || ss.contains(y));
    }
}

/// Walks one chain in executable form; `Some` carries the revisited name.
fn walk_chain(config: &Config, start_name: &String, first: &String) -> (r: Option<String>)
    ensures
        ({
            let res = spec_walk(config@.hosts, set![start_name@], first@);
            match res {
                Some(c) => r is Some && r->0@ == c,
                None => r is None,
            }
        }),
{
    let ghost hosts = config@.hosts;
    let mut seen: Vec<String> = Vec::new();
    seen.push(start_name.clone());
    let mut current: String = first.clone();
    let mut cycled = false;
    proof {
        assert(strs_of(seen@) =~= seq![start_name@]);
        assert(strs_of(seen@).to_set() =~= set![start_name@]);
    }
    loop
        invariant_except_break
            !cycled,
        invariant
            hosts == config@.hosts,
            strs_of(seen@).to_set().finite(),
            spec_walk(hosts, set![start_name@], first@) == spec_walk(
                hosts,
                strs_of(seen@).to_set(),
                current@,
            ),
        ensures
            (spec_walk(hosts, set![start_name@], first@) is Some <==> cycled),
            cycled ==> current@ == spec_walk(hosts, set![start_name@], first@)->0,
        decreases names_of(hosts).difference(strs_of(seen@).to_set()).len(),
    {
        if text::vec_contains_str(&seen, current.as_str()) {
            proof {
                assert(strs_of(seen@).to_set().contains(current@));
            }
            cycled = true;
            break ;
        }
        let found = config.find_host(current.as_str());
        match found {
            None => {
                proof {
                    lemma_host_index(hosts, current@);
                }
                break ;
            },
            Some(b) => {
                let ghost idx = spec_host_index(hosts, current@);
                proof {
                    lemma_host_index(hosts, current@);
                }
                match &b.bastion {
                    None => {
                        proof {
                            assert(hosts[idx].bastion is None);
                        }
                        break ;
                    },
                    Some(next) => {
                        proof {
                            lemma_names_contains(hosts, idx);
                            names_of(hosts).lemma_set_insert_diff_decreases(
                                strs_of(seen@).to_set(),
                                current@,
                            );
                        }
                        let ghost old_strs = strs_of(seen@);
                        let next2 = next.clone();
                        seen.push(current.clone());
                        proof {
                            assert(strs_of(seen@) =~= old_strs.push(current@));
                            lemma_push_to_set(old_strs, current@);
                        }
                        current = next2;
                    },
                }
            },
        }
    }
    if cycled {
        Some(current)
    } else {
        None
    }
}


/// Validates every host's bastion chain: self-reference and circularity
/// block the whole registry; an unknown bastion name is accepted.
pub fn validate_bastions(config: &Config) -> (r: Result<(), AppError>)
    ensures
        r is Ok <==> spec_validate(config@.hosts, 0) is None,
        r is Err ==> ({
            let f = spec_validate(config@.hosts, 0)->0;
            match f {
                ValFail::SelfRef(n) => r->Err_0 matches AppError::SelfBastion(m) && m@ == n,
                ValFail::Cycle(c) => r->Err_0 matches AppError::CircularBastion(m) && m@ == c,
            }
        }),
{
    let ghost hosts = config@.hosts;
    let mut i: usize = 0;
    while i < config.hosts.len()
        invariant
            hosts == config@.hosts,
            i <= hosts.len(),
            spec_validate(hosts, 0) == spec_validate(hosts, i as int),
        decreases hosts.len() - i,
    {
        let h = &config.hosts[i];
        proof {
            assert(hosts[i as int] == h@);
        }
        match &h.bastion {
            None => {
                proof {
                    assert(spec_validate_host(hosts, hosts[i as int]) is None);
                }
            },
            Some(b) => {
                if text::str_eq(b.as_str(), h.name.as_str()) {
                    proof {
                        assert(spec_validate_host(hosts, hosts[i as int]) == Some(
                            ValFail::SelfRef(h@.name),
                        ));
                    }
                    return Err(AppError::SelfBastion(h.name.clone()));
                }
                let walked = walk_chain(config, &h.name, b);
                match walked {
                    Some(c) => {
                        proof {
                            assert(spec_validate_host(hosts, hosts[i as int]) == Some(
                                ValFail::Cycle(c@),
                            ));
                        }
                        return Err(AppError::CircularBastion(c));
                    },
                    None => {
                        proof {
                            assert(spec_validate_host(hosts, hosts[i as int]) is None);
                        }
                    },
                }
            },
        }
        i += 1;
    }
    Ok(())
}

/// How resolving a proxy chain can fail.
pub enum ResolveFail {
    /// The chain revisited the carried name.
    Cycle(Seq<char>),
    /// The carried bastion name is not in the registry.
    NotFound(Seq<char>),
}

/// One hop of a proxy chain: `[user@]address[:port]`.
pub open spec fn spec_hop(h: HostV) -> Seq<char> {
    let base = crate::model::spec_display_label(h);
    match h.port {
        Some(p) => base + seq![':'] + spec_dec(p as nat),
        None => base,
    }
}

/// Resolves the proxy chain from `current`: hops ordered outermost first,
/// comma-joined. Fails on a revisited name or a name absent from the
/// registry (unlike validation, resolution needs every hop to exist).
pub open spec fn spec_resolve(
    hosts: Seq<HostV>,
    seen: Set<Seq<char>>,
    current: Seq<char>,
) -> Result<Seq<char>, ResolveFail>
    decreases names_of(hosts).difference(seen).len()
        when seen.finite()
        via spec_resolve_decreases
{
    if seen.contains(current) {
        Err(ResolveFail::Cycle(current))
    } else {
        let idx = spec_host_index(hosts, current);
        if idx == -1 {
            Err(ResolveFail::NotFound(current))
        } else {
            let hop = spec_hop(hosts[idx]);
            match hosts[idx].bastion {
                None => Ok(hop),
                Some(next) => match spec_resolve(hosts, seen.insert(current), next) {
                    Ok(chain) => Ok(chain + seq![','] + hop),
                    Err(e) => Err(e),
                },
            }
        }
    }
}

#[via_fn]
proof fn spec_resolve_decreases(hosts: Seq<HostV>, seen: Set<Seq<char>>, current: Seq<char>) {
    broadcast use vstd::seq_lib::seq_to_set_is_finite;

    if !seen.contains(current) {
        let idx = spec_host_index(hosts, current);
        if idx != -1 {
            lemma_host_index(hosts, current);
            lemma_names_contains(hosts, idx);
            names_of(hosts).lemma_set_insert_diff_decreases(seen, current);
        }
    }
}

/// Renders one hop as `[user@]address[:port]`.
fn render_hop(h: &Host) -> (r: Vec<char>)
    ensures
        r@ == spec_hop(h@),
{
    let mut v: Vec<char> = match &h.user {
        Some(u) => {
            let mut b = text::chars_of(u.as_str());
            b.push('@');
            let mut a = text::chars_of(h.address.as_str());
            b.append(&mut a);
            b
        },
        None => text::chars_of(h.address.as_str()),
    };
    proof {
        assert(v@ =~= crate::model::spec_display_label(h@));
    }
    match h.port {
        Some(p) => {
            v.push(':');
            let mut d = text::dec_chars(p as u128);
            v.append(&mut d);
            proof {
                assert(v@ =~= spec_hop(h@));
            }
        },
        None => {},
    }
    v
}

/// Builds the comma-joined proxy-chain string for the jump-host mechanism,
/// outermost hop first; fails on a cycle or an unresolvable name.
pub fn build_bastion_string(config: &Config, bastion_name: &str) -> (r: Result<String, AppError>)
    ensures
        ({
            let res = spec_resolve(config@.hosts, Set::empty(), bastion_name@);
            match res {
                Ok(chain) => r is Ok && r->Ok_0@ == chain,
                Err(f) => r is Err && (match f {
                    ResolveFail::Cycle(n) => r->Err_0 matches AppError::ResolveCycle(m) && m@ == n,
                    ResolveFail::NotFound(n) => r->Err_0 matches AppError::BastionNotFound(m)
                        && m@ == n,
                }),
            }
        }),
{
    let ghost hosts = config@.hosts;
    let mut seen: Vec<String> = Vec::new();
    let mut current: String = bastion_name.to_owned();
    let mut suffix: Vec<char> = Vec::new();
    let mut done: Option<String> = None;
    let mut cycle_found = false;
    proof {
        assert(strs_of(seen@) =~= Seq::<Seq<char>>::empty());
        assert(strs_of(seen@).to_set() =~= Set::<Seq<char>>::empty());
        assert(Set::<Seq<char>>::empty().finite());
    }
    loop
        invariant_except_break
            spec_resolve(hosts, Set::empty(), bastion_name@) == (match spec_resolve(
                hosts,
                strs_of(seen@).to_set(),
                current@,
            ) {
                Ok(chain) => Ok::<Seq<char>, ResolveFail>(chain + suffix@),
                Err(e) => Err::<Seq<char>, ResolveFail>(e),
            }),
        invariant
            hosts == config@.hosts,
            strs_of(seen@).to_set().finite(),
        ensures
            ({
                let res = spec_resolve(hosts, Set::empty(), bastion_name@);
                match res {
                    Ok(chain) => done is Some && done->0@ == chain,
                    Err(f) => done is None && (match f {
                        ResolveFail::Cycle(n) => current@ == n && cycle_found,
                        ResolveFail::NotFound(n) => current@ == n && !cycle_found,
                    }),
                }
            }),
        decreases names_of(hosts).difference(strs_of(seen@).to_set()).len(),
    {
        if text::vec_contains_str(&seen, current.as_str()) {
            proof {
                assert(strs_of(seen@).to_set().contains(current@));
            }
            cycle_found = true;
            done = None;
            break ;
        }
        let found = config.find_host(current.as_str());
        match found {
            None => {
                proof {
                    lemma_host_index(hosts, current@);
                }
                cycle_found = false;
                done = None;
                break ;
            },
            Some(b) => {
                let ghost idx = spec_host_index(hosts, current@);
                proof {
                    lemma_host_index(hosts, current@);
                }
                let mut hop = render_hop(b);
                match &b.bastion {
                    None => {
                        let ghost osfx = suffix@;
                        hop.append(&mut suffix);
                        proof {
                            assert(hop@ =~= spec_hop(hosts[idx]) + osfx);
                        }
                        cycle_found = false;
                        done = Some(text::string_of(&hop));
                        break ;
                    },
                    Some(next) => {
                        proof {
                            lemma_names_contains(hosts, idx);
                            names_of(hosts).lemma_set_insert_diff_decreases(
                                strs_of(seen@).to_set(),
                                current@,
                            );
                        }
                        let next2 = next.clone();
                        let ghost old_strs = strs_of(seen@);
                        let ghost old_suffix = suffix@;
                        seen.push(current.clone());
                        let mut ns: Vec<char> = Vec::new();
                        ns.push(',');
                        ns.append(&mut hop);
                        ns.append(&mut suffix);
                        suffix = ns;
                        proof {
                            assert(strs_of(seen@) =~= old_strs.push(current@));
                            lemma_push_to_set(old_strs, current@);
                            assert(suffix@ =~= seq![','] + spec_hop(hosts[idx]) + old_suffix);
                            let deep = spec_resolve(
                                hosts,
                                old_strs.to_set().insert(current@),
                                next2@,
                            );
                            assert(spec_resolve(hosts, old_strs.to_set(), current@) == (match deep {
                                Ok(ch) => Ok::<Seq<char>, ResolveFail>(
                                    (ch + seq![',']) + spec_hop(hosts[idx]),
                                ),
                                Err(e) => Err::<Seq<char>, ResolveFail>(e),
                            }));
                            match deep {
                                Ok(ch) => {
                                    assert(spec_resolve(hosts, Set::empty(), bastion_name@) == Ok::<
                                        Seq<char>,
                                        ResolveFail,
                                    >(((ch + seq![',']) + spec_hop(hosts[idx])) + old_suffix));
                                    assert((((ch + seq![',']) + spec_hop(hosts[idx])) + old_suffix)
                                        =~= ch + suffix@);
                                },
                                Err(e) => {},
                            }
                        }
                        current = next2;
                    },
                }
            },
        }
    }
    match done {
        Some(s) => Ok(s),
        None => {
            if cycle_found {
                Err(AppError::ResolveCycle(current))
            } else {
                Err(AppError::BastionNotFound(current))
            }
        },
    }
}

/// A registry holding a host that names itself as its bastion never
/// validates: the scan stops at some failure.
pub proof fn lemma_self_bastion_rejected(hosts: Seq<HostV>, i: int)
    requires
        0 <= i < hosts.len(),
        hosts[i].bastion == Some(hosts[i].name),
    ensures
        spec_validate(hosts, 0) is Some,
{
    assert(spec_validate_host(hosts, hosts[i]) == Some(ValFail::SelfRef(hosts[i].name)));
    lemma_validate_fails_from(hosts, 0, i);
}

/// When the hosts before `i` are individually acceptable and host `i` is
/// not, the registry's first failure is host `i`'s failure.
pub proof fn lemma_first_failure(hosts: Seq<HostV>, j: int, i: int)
    requires
        0 <= j <= i < hosts.len(),
        forall|l: int| j <= l < i ==> spec_validate_host(hosts, hosts[l]) is None,
        spec_validate_host(hosts, hosts[i]) is Some,
    ensures
        spec_validate(hosts, j) == spec_validate_host(hosts, hosts[i]),
    decreases i - j,
{
    if j < i {
        lemma_first_failure(hosts, j + 1, i)
    }
}

proof fn lemma_validate_fails_from(hosts: Seq<HostV>, j: int, i: int)
    requires
        0 <= j <= i < hosts.len(),
        spec_validate_host(hosts, hosts[i]) is Some,
    ensures
        spec_validate(hosts, j) is Some,
    decreases i - j,
{
    if j < i {
        lemma_validate_fails_from(hosts, j + 1, i);
    }
}

/// A registry in which a host whose bastion equals its own name is the
/// first offender fails with the self-reference error naming that host.
pub proof fn lemma_self_bastion_error_named(hosts: Seq<HostV>, i: int)
    requires
        0 <= i < hosts.len(),
        hosts[i].bastion == Some(hosts[i].name),
        forall|l: int| 0 <= l < i ==> spec_validate_host(hosts, hosts[l]) is None,
    ensures
        spec_validate(hosts, 0) == Some(ValFail::SelfRef(hosts[i].name)),
{
    assert(spec_validate_host(hosts, hosts[i]) == Some(ValFail::SelfRef(hosts[i].name)));
    lemma_first_failure(hosts, 0, i);
}

/// A three-host cycle never validates, and the failure names a host on the
/// cycle: walking from the first host revisits its name.
pub proof fn lemma_cycle_rejected(hosts: Seq<HostV>, a: Seq<char>, b: Seq<char>, c: Seq<char>)
    requires
        a != b && b != c && a != c,
        spec_host_index(hosts, a) != -1,
        spec_host_index(hosts, b) != -1,
        spec_host_index(hosts, c) != -1,
        hosts[spec_host_index(hosts, a)].bastion == Some(b),
        hosts[spec_host_index(hosts, b)].bastion == Some(c),
        hosts[spec_host_index(hosts, c)].bastion == Some(a),
    ensures
        spec_validate(hosts, 0) is Some,
        ({
            let ia = spec_host_index(hosts, a);
            spec_validate_host(hosts, hosts[ia]) == Some(ValFail::Cycle(a))
        }),
{
    let ia = spec_host_index(hosts, a);
    let ib = spec_host_index(hosts, b);
    let ic = spec_host_index(hosts, c);
    lemma_host_index(hosts, a);
    lemma_host_index(hosts, b);
    lemma_host_index(hosts, c);
    let s0 = set![hosts[ia].name];
    assert(hosts[ia].name == a);
    assert(!s0.contains(b));
    assert(spec_walk(hosts, s0, b) == spec_walk(hosts, s0.insert(b), c));
    assert(!s0.insert(b).contains(c));
    assert(spec_walk(hosts, s0.insert(b), c) == spec_walk(hosts, s0.insert(b).insert(c), a));
    assert(s0.insert(b).insert(c).contains(a));
    assert(spec_walk(hosts, s0, b) == Some(a));
    assert(spec_validate_host(hosts, hosts[ia]) == Some(ValFail::Cycle(a)));
    lemma_validate_fails_from(hosts, 0, ia);
}

/// When the cycle's first member is also the first host whose chain
/// fails, the registry's validation error is the cycle error naming it.
pub proof fn lemma_cycle_error_named(hosts: Seq<HostV>, a: Seq<char>, b: Seq<char>, c: Seq<char>)
    requires
        a != b && b != c && a != c,
        spec_host_index(hosts, a) != -1,
        spec_host_index(hosts, b) != -1,
        spec_host_index(hosts, c) != -1,
        hosts[spec_host_index(hosts, a)].bastion == Some(b),
        hosts[spec_host_index(hosts, b)].bastion == Some(c),
        hosts[spec_host_index(hosts, c)].bastion == Some(a),
        forall|l: int|
            0 <= l < spec_host_index(hosts, a) ==> spec_validate_host(hosts, hosts[l]) is None,
    ensures
        spec_validate(hosts, 0) == Some(ValFail::Cycle(a)),
{
    lemma_cycle_rejected(hosts, a, b, c);
    let ia = spec_host_index(hosts, a);
    lemma_host_index(hosts, a);
    lemma_first_failure(hosts, 0, ia);
}

/// A chain that ends at a name absent from the registry is accepted:
/// an unknown bastion is not an error at validation time.
pub proof fn lemma_unknown_bastion_accepted(hosts: Seq<HostV>, i: int)
    requires
        0 <= i < hosts.len(),
        hosts[i].bastion is Some,
        hosts[i].bastion->0 != hosts[i].name,
        spec_host_index(hosts, hosts[i].bastion->0) == -1,
    ensures
        spec_validate_host(hosts, hosts[i]) is None,
{
    let b = hosts[i].bastion->0;
    assert(!set![hosts[i].name].contains(b));
    assert(spec_walk(hosts, set![hosts[i].name], b) is None);
}

} // verus!


