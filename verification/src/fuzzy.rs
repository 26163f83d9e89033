//! Fuzzy ranking of registry entries against a query: each host's name,
//! address, tags and description form a haystack, the matcher scores it,
//! and the matching hosts are ordered by descending score with ties broken
//! by registry order.

use fuzzy_matcher::skim::SkimMatcherV2;
use fuzzy_matcher::FuzzyMatcher;
use vstd::prelude::*;

use crate::model::{Config, Host, HostV};
use crate::text;
use crate::text::spec_join;

verus! {

/// The score the fuzzy matcher gives `needle` against `hay`, or `None`
/// where the needle does not match.
pub uninterp spec fn fuzzy_score_of(hay: Seq<char>, needle: Seq<char>) -> Option<i64>;

/// Relies on `SkimMatcherV2::fuzzy_match` of the `fuzzy_matcher` crate, in
/// its default configuration: the score depends on the two strings alone.
#[verifier::external_body]
fn fuzzy_score(hay: &Vec<char>, needle: &Vec<char>) -> (r: Option<i64>)
    ensures
        r == fuzzy_score_of(hay@, needle@),
{
    let h: String = hay.iter().collect();
    let n: String = needle.iter().collect();
    SkimMatcherV2::default().fuzzy_match(&h, &n)
}

/// The text a host is matched against: name, address, space-joined tags and
/// description, separated by single spaces.
pub open spec fn spec_haystack(h: HostV) -> Seq<char> {
    h.name + seq![' '] + h.address + seq![' '] + spec_join(h.tags, seq![' ']) + seq![' '] + (
    match h.description {
        Some(d) => d,
        None => Seq::<char>::empty(),
    })
}

/// The score of a host against a query.
pub open spec fn spec_score(h: HostV, q: Seq<char>) -> Option<i64> {
    fuzzy_score_of(spec_haystack(h), q)
}

/// Whether the ranking leaves this host out.
pub open spec fn is_excluded(h: HostV, excl: Option<Seq<char>>) -> bool {
    match excl {
        Some(n) => h.name == n,
        None => false,
    }
}

/// Whether the scored entry `a` comes strictly before `b`: higher score
/// first, ties broken by lower registry index.
pub open spec fn precedes(a: (i64, usize), b: (i64, usize)) -> bool {
    a.0 > b.0 || (a.0 == b.0 && a.1 < b.1)
}

fn build_haystack(h: &Host) -> (r: Vec<char>)
    ensures
        r@ == spec_haystack(h@),
{
    let mut v = text::chars_of(h.name.as_str());
    v.push(' ');
    let mut a = text::chars_of(h.address.as_str());
    v.append(&mut a);
    v.push(' ');
    let mut tag_parts: Vec<Vec<char>> = Vec::new();
    let mut i: usize = 0;
    while i < h.tags.len()
        invariant
            i <= h.tags@.len(),
            text::views_of(tag_parts@) == text::strs_of(h.tags@).take(i as int),
        decreases h.tags@.len() - i,
    {
        let t = text::chars_of(h.tags[i].as_str());
        proof {
            assert(text::views_of(tag_parts@.push(t)) =~= text::views_of(tag_parts@).push(
                h.tags@[i as int]@,
            ));
            assert(text::strs_of(h.tags@).take(i + 1 as int) =~= text::strs_of(h.tags@).take(
                i as int,
            ).push(h.tags@[i as int]@));
        }
        tag_parts.push(t);
        i += 1;
    }
    proof {
        assert(text::strs_of(h.tags@).take(h.tags@.len() as int) =~= text::strs_of(h.tags@));
    }
    let mut sep: Vec<char> = Vec::new();
    sep.push(' ');
    proof {
        assert(sep@ =~= seq![' ']);
    }
    let mut joined = text::join_chars(&tag_parts, &sep);
    v.append(&mut joined);
    v.push(' ');
    match &h.description {
        Some(d) => {
            let mut dc = text::chars_of(d.as_str());
            v.append(&mut dc);
        },
        None => {},
    }
    proof {
        assert(v@ =~= spec_haystack(h@));
    }
    v
}

/// What makes `r` the ranking of `hosts` against query `q` with `ex`
/// excluded: only valid, non-excluded (and, with a non-empty query,
/// matching) indices appear; every such index appears; an empty query
/// keeps registry order; a non-empty query orders by descending score
/// with ties in registry order.
pub open spec fn is_ranking(
    hosts: Seq<HostV>,
    q: Seq<char>,
    ex: Option<Seq<char>>,
    r: Seq<usize>,
) -> bool {
    &&& forall|k: int| 0 <= k < r.len() ==> r[k] < hosts.len() && !is_excluded(hosts[r[k] as int], ex)
    &&& q.len() > 0 ==> forall|k: int| 0 <= k < r.len() ==> spec_score(hosts[r[k] as int], q) is Some
    &&& forall|j: int|
        0 <= j < hosts.len() && !is_excluded(hosts[j], ex) && (q.len() == 0 || spec_score(
            hosts[j],
            q,
        ) is Some) ==> exists|k: int| 0 <= k < r.len() && r[k] == j
    &&& q.len() == 0 ==> forall|k1: int, k2: int| 0 <= k1 < k2 < r.len() ==> r[k1] < r[k2]
    &&& q.len() > 0 ==> forall|k1: int, k2: int|
        0 <= k1 < k2 < r.len() ==> precedes(
            (spec_score(hosts[r[k1] as int], q)->0, r[k1]),
            (spec_score(hosts[r[k2] as int], q)->0, r[k2]),
        )
}

/// The ranked list of registry indices for a query: with an empty query,
/// registry order with only the excluded host removed; otherwise exactly
/// the matching hosts, ordered by descending score, ties in registry order.
pub fn ranked_indices(config: &Config, query: &Vec<char>, exclude: Option<&String>) -> (r: Vec<
    usize,
>)
    ensures
        is_ranking(
            config@.hosts,
            query@,
            match exclude {
                Some(s) => Some(s@),
                None => None,
            },
            r@,
        ),
        query@.len() == 0 && exclude is None ==> r@ == Seq::new(
            config@.hosts.len() as nat,
            |i: int| i as usize,
        ),
{
    let ghost hosts = config@.hosts;
    let ghost ex: Option<Seq<char>> = match exclude {
        Some(s) => Some(s@),
        None => None,
    };
    if query.len() == 0 {
        let mut out: Vec<usize> = Vec::new();
        let mut i: usize = 0;
        while i < config.hosts.len()
            invariant
                hosts == config@.hosts,
                ex == (match exclude {
                    Some(s) => Some(s@),
                    None => None::<Seq<char>>,
                }),
                i <= hosts.len(),
                forall|k: int|
                    0 <= k < out@.len() ==> out@[k] < i && !is_excluded(
                        hosts[out@[k] as int],
                        ex,
                    ),
                forall|j: int|
                    0 <= j < i && !is_excluded(hosts[j], ex) ==> exists|k: int|
                        0 <= k < out@.len() && out@[k] == j,
                forall|k1: int, k2: int| 0 <= k1 < k2 < out@.len() ==> out@[k1] < out@[k2],
                exclude is None ==> out@ == Seq::new(i as nat, |k: int| k as usize),
            decreases hosts.len() - i,
        {
            let h = &config.hosts[i];
            proof {
                assert(hosts[i as int] == h@);
            }
            let keep = match exclude {
                Some(n) => !text::str_eq(h.name.as_str(), n.as_str()),
                None => true,
            };
            if keep {
                proof {
                    if exclude is None {
                        assert(out@.push(i) =~= Seq::new((i + 1) as nat, |k: int| k as usize));
                    }
                }
                let ghost oldout = out@;
                out.push(i);
                proof {
                    assert forall|j: int|
                        0 <= j < i + 1 && !is_excluded(hosts[j], ex) implies exists|k: int|
                        0 <= k < out@.len() && out@[k] == j by {
                        if j == i {
                            assert(out@[out@.len() - 1] == i);
                        } else {
                            let k0 = choose|k: int| 0 <= k < oldout.len() && oldout[k] == j;
                            assert(out@[k0] == j);
                        }
                    }
                }
            } else {
                proof {
                    assert(is_excluded(hosts[i as int], ex));
                }
            }
            i += 1;
        }
        out
    } else {
        let mut sorted: Vec<(i64, usize)> = Vec::new();
        let mut i: usize = 0;
        while i < config.hosts.len()
            invariant
                hosts == config@.hosts,
                ex == (match exclude {
                    Some(s) => Some(s@),
                    None => None::<Seq<char>>,
                }),
                i <= hosts.len(),
                forall|k: int| #![auto]
                    0 <= k < sorted@.len() ==> sorted@[k].1 < i && !is_excluded(
                        hosts[sorted@[k].1 as int],
                        ex,
                    ) && spec_score(hosts[sorted@[k].1 as int], query@) == Some(sorted@[k].0),
                forall|j: int|
                    0 <= j < i && !is_excluded(hosts[j], ex) && spec_score(hosts[j], query@)
                        is Some ==> exists|k: int| #![auto]
                        0 <= k < sorted@.len() && sorted@[k].1 == j,
                forall|k1: int, k2: int| #![auto]
                    0 <= k1 < k2 < sorted@.len() ==> precedes(sorted@[k1], sorted@[k2]),
            decreases hosts.len() - i,
        {
            let h = &config.hosts[i];
            proof {
                assert(hosts[i as int] == h@);
            }
            let keep = match exclude {
                Some(n) => !text::str_eq(h.name.as_str(), n.as_str()),
                None => true,
            };
            if keep {
                let hay = build_haystack(h);
                match fuzzy_score(&hay, query) {
                    Some(sc) => {
                        let e = (sc, i);
                        let ghost olds = sorted@;
                        let mut j: usize = sorted.len();
                        loop
                            invariant
                                j <= sorted@.len(),
                                sorted@ == olds,
                                e == (sc, i),
                                forall|k: int| #![auto]
                                    j <= k < sorted@.len() ==> precedes(e, sorted@[k]),
                            ensures
                                j <= olds.len(),
                                sorted@ == olds,
                                e == (sc, i),
                                forall|k: int| #![auto]
                                    j <= k < olds.len() ==> precedes(e, olds[k]),
                                j == 0 || !precedes(e, olds[j - 1]),
                            decreases j,
                        {
                            if j == 0 {
                                break ;
                            }
                            let prev = sorted[j - 1];
                            if sc > prev.0 || (sc == prev.0 && i < prev.1) {
                                j -= 1;
                            } else {
                                break ;
                            }
                        }
                        proof {
                            if j > 0 {
                                assert(!precedes(e, olds[j - 1]));
                                assert(olds[j - 1].1 < i);
                                assert(precedes(olds[j - 1], e));
                            }
                            assert forall|k: int| 0 <= k < j implies #[trigger] precedes(
                                olds[k],
                                e,
                            ) by {
                                if k < j - 1 {
                                    assert(precedes(olds[k], olds[j - 1]));
                                }
                            }
                        }
                        sorted.insert(j, e);
                        proof {
                            let news = sorted@;
                            assert(news == olds.insert(j as int, e));
                            assert forall|k: int| #![auto]
                                0 <= k < news.len() implies news[k].1 < i + 1 && !is_excluded(
                                hosts[news[k].1 as int],
                                ex,
                            ) && spec_score(hosts[news[k].1 as int], query@) == Some(
                                news[k].0,
                            ) by {
                                if k < j {
                                    assert(news[k] == olds[k]);
                                } else if k == j {
                                    assert(news[k] == e);
                                } else {
                                    assert(news[k] == olds[k - 1]);
                                }
                            }
                            assert forall|jj: int|
                                0 <= jj < i + 1 && !is_excluded(hosts[jj], ex) && spec_score(
                                    hosts[jj],
                                    query@,
                                ) is Some implies exists|k: int| #![auto]
                                0 <= k < news.len() && news[k].1 == jj by {
                                if jj == i {
                                    assert(news[j as int].1 == jj);
                                } else {
                                    let k0 = choose|k: int| #![auto]
                                        0 <= k < olds.len() && olds[k].1 == jj;
                                    if k0 < j {
                                        assert(news[k0].1 == jj);
                                    } else {
                                        assert(news[k0 + 1].1 == jj);
                                    }
                                }
                            }
                            assert forall|k1: int, k2: int| #![auto]
                                0 <= k1 < k2 < news.len() implies precedes(
                                news[k1],
                                news[k2],
                            ) by {
                                let a = if k1 < j {
                                    olds[k1]
                                } else if k1 == j {
                                    e
                                } else {
                                    olds[k1 - 1]
                                };
                                assert(news[k1] == a);
                                let b = if k2 < j {
                                    olds[k2]
                                } else if k2 == j {
                                    e
                                } else {
                                    olds[k2 - 1]
                                };
                                assert(news[k2] == b);
                            }
                        }
                    },
                    None => {},
                }
            }
            i += 1;
        }
        let mut out: Vec<usize> = Vec::new();
        let mut k: usize = 0;
        while k < sorted.len()
            invariant
                k <= sorted@.len(),
                out@.len() == k,
                forall|l: int| #![auto] 0 <= l < k ==> out@[l] == sorted@[l].1,
            decreases sorted@.len() - k,
        {
            out.push(sorted[k].1);
            k += 1;
        }
        proof {
            assert forall|jj: int|
                0 <= jj < hosts.len() && !is_excluded(hosts[jj], ex) && spec_score(
                    hosts[jj],
                    query@,
                ) is Some implies exists|kk: int| 0 <= kk < out@.len() && out@[kk] == jj by {
                let k0 = choose|kk: int| #![auto]
                    0 <= kk < sorted@.len() && sorted@[kk].1 == jj;
                assert(out@[k0] == jj);
            }
        }
        out
    }
}

} // verus!
