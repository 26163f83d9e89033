//! The session state machine: dispatches key input by mode, mutates the
//! registry, keeps the bounded undo history, and emits directives (persist,
//! reload, launch, quit) for the caller to carry out. The core performs no
//! input/output itself.

use vstd::prelude::*;

use crate::bastion;
use crate::errors::AppError;
use crate::form::{self, FormKind, FormState};
use crate::fuzzy::{self, is_ranking};
use crate::keys::{Key, KeyInput};
use crate::model::{Config, Host, HostV};
use crate::parser::{spec_parse, SshSpec, SshSpecV};
use crate::ssh::{EnvInfo, Invocation};
use crate::text;
use crate::text::{spec_dec, spec_trim, strs_of};

verus! {

/// The severity of a status line.
#[derive(Clone, Copy, Debug, PartialEq, Eq, Structural)]
pub enum StatusKind {
    Info,
    Warn,
    Error,
}

/// The transient message shown under the list.
#[derive(Debug)]
pub struct StatusLine {
    pub text: String,
    pub kind: StatusKind,
}

/// Which confirmation modal is open; connecting carries the free-text
/// extra-command buffer.
#[derive(Debug)]
pub enum ConfirmKind {
    Connect { extra_cmd: Vec<char> },
    Delete,
}

/// The top-level input mode.
#[derive(Clone, Copy, Debug, PartialEq, Eq, Structural)]
pub enum Mode {
    Normal,
    Search,
    Form,
    Confirm,
    QuickConnect,
}

/// A directive to the caller: quit, or run the assembled invocation.
#[derive(Debug)]
pub enum AppAction {
    Quit,
    RunSsh(Invocation),
}

/// Everything one key press asks the caller to do: an action (quit or
/// launch), persisting the registry, or reloading it from the store.
#[derive(Debug)]
pub struct Effects {
    pub action: Option<AppAction>,
    pub persist: bool,
    pub reload: bool,
}

/// The no-op effects value.
pub open spec fn fx_none(fx: Effects) -> bool {
    fx.action is None && !fx.persist && !fx.reload
}

impl Effects {
    fn none() -> (r: Effects)
        ensures
            fx_none(r),
    {
        Effects { action: None, persist: false, reload: false }
    }
}

/// The session state.
pub struct App {
    pub mode: Mode,
    pub status: Option<StatusLine>,
    pub filter: Vec<char>,
    pub filtered_indices: Vec<usize>,
    pub selected: usize,
    pub dry_run: bool,
    pub form: Option<FormState>,
    pub confirm: Option<ConfirmKind>,
    pub quick_input: Option<Vec<char>>,
    pub quick_cursor: usize,
    pub show_help: bool,
    pub show_about: bool,
    pub config: Config,
    pub history: Vec<Config>,
    pub env: EnvInfo,
}

/// The registries of the undo stack, oldest first.
pub open spec fn history_of(h: Seq<Config>) -> Seq<crate::model::ConfigV> {
    h.map_values(|c: Config| c@)
}

/// Session well-formedness: the selection sits inside the filtered list,
/// every filtered index points into the registry, sub-states are
/// well-formed, and the undo stack is bounded.
pub open spec fn app_wf(a: App) -> bool {
    &&& a.filtered_indices@.len() == 0 ==> a.selected == 0
    &&& a.filtered_indices@.len() > 0 ==> (a.selected as int) < a.filtered_indices@.len()
    &&& forall|k: int|
        0 <= k < a.filtered_indices@.len() ==> (#[trigger] a.filtered_indices@[k] as int)
            < a.config@.hosts.len()
    &&& match a.form {
        Some(f) => form::spec_wf(f@),
        None => true,
    }
    &&& match a.quick_input {
        Some(q) => a.quick_cursor <= q@.len(),
        None => a.quick_cursor == 0,
    }
    &&& a.history@.len() <= 20
}

/// What rebuilding the filtered list does: the indices become the ranking
/// of the registry against the filter, and a selection that fell off the
/// end is clamped to the last entry.
pub open spec fn filter_rebuilt(o: App, n: App) -> bool {
    &&& is_ranking(n.config@.hosts, n.filter@, None, n.filtered_indices@)
    &&& n.filter@.len() == 0 ==> n.filtered_indices@ == Seq::new(
        n.config@.hosts.len() as nat,
        |i: int| i as usize,
    )
    &&& n.selected as int == (if o.selected < n.filtered_indices@.len() {
        o.selected as int
    } else if n.filtered_indices@.len() > 0 {
        n.filtered_indices@.len() - 1
    } else {
        0
    })
}

/// The parts of the session no list rebuild touches.
pub open spec fn same_modal(a: App, b: App) -> bool {
    &&& a.mode == b.mode
    &&& a.dry_run == b.dry_run
    &&& (a.form is Some <==> b.form is Some)
    &&& (a.form is Some ==> a.form->0@ == b.form->0@)
    &&& (a.confirm is Some <==> b.confirm is Some)
    &&& match (a.confirm, b.confirm) {
        (Some(ConfirmKind::Delete), x) => x matches Some(ConfirmKind::Delete),
        (Some(ConfirmKind::Connect { extra_cmd: e1 }), x) => x matches Some(
            ConfirmKind::Connect { extra_cmd: e2 },
        ) && e1@ == e2@,
        (None, x) => x is None,
    }
    &&& (a.quick_input is Some <==> b.quick_input is Some)
    &&& (a.quick_input is Some ==> a.quick_input->0@ == b.quick_input->0@)
    &&& a.quick_cursor == b.quick_cursor
    &&& a.show_help == b.show_help
    &&& a.show_about == b.show_about
    &&& a.env@ == b.env@
}

/// The registry and undo stack, unchanged.
pub open spec fn same_store(a: App, b: App) -> bool {
    &&& a.config@ == b.config@
    &&& history_of(a.history@) == history_of(b.history@)
}

/// The view of the status line.
pub open spec fn status_view(s: Option<StatusLine>) -> Option<(Seq<char>, StatusKind)> {
    match s {
        Some(st) => Some((st.text@, st.kind)),
        None => None,
    }
}

impl App {
    /// A fresh session over a loaded registry and an environment snapshot:
    /// Normal mode, empty filter over the whole registry, empty history.
    pub fn new(config: Config, env: EnvInfo) -> (r: App)
        ensures
            app_wf(r),
            r.mode == Mode::Normal,
            r.config@ == config@,
            r.history@.len() == 0,
            r.filter@.len() == 0,
            is_ranking(r.config@.hosts, r.filter@, None, r.filtered_indices@),
            r.selected == 0,
            !r.dry_run,
            r.form is None && r.confirm is None && r.quick_input is None,
            !r.show_help && !r.show_about,
            r.env@ == env@,
            status_view(r.status) == Some(
                ("Loaded config. Dry-run is OFF; press C to toggle."@, StatusKind::Info),
            ),
    {
        let mut app = App {
            mode: Mode::Normal,
            status: None,
            filter: Vec::new(),
            filtered_indices: Vec::new(),
            selected: 0,
            dry_run: false,
            form: None,
            confirm: None,
            quick_input: None,
            quick_cursor: 0,
            show_help: false,
            show_about: false,
            config,
            history: Vec::new(),
            env,
        };
        app.rebuild_filter();
        app.status = Some(
            StatusLine {
                text: String::from_str("Loaded config. Dry-run is OFF; press C to toggle."),
                kind: StatusKind::Info,
            },
        );
        proof {
            assert(history_of(app.history@).len() == 0);
            assert(app.history@.len() == 0);
        }
        app
    }

    /// Re-ranks the filtered list against the current filter text and
    /// clamps the selection.
    pub fn rebuild_filter(&mut self)
        ensures
            filter_rebuilt(*old(self), *final(self)),
            final(self).filter@ == old(self).filter@,
            same_modal(*old(self), *final(self)),
            same_store(*old(self), *final(self)),
            status_view(final(self).status) == status_view(old(self).status),
            final(self).filtered_indices@.len() == 0 ==> final(self).selected == 0,
            ({
                let n = *final(self);
                n.filtered_indices@.len() > 0 ==> (n.selected as int) < n.filtered_indices@.len()
            }),
            ({
                let n = *final(self);
                forall|k: int|
                    0 <= k < n.filtered_indices@.len() ==> (#[trigger] n.filtered_indices@[k] as int)
                        < n.config@.hosts.len()
            }),
    {
        let ranked = fuzzy::ranked_indices(&self.config, &self.filter, None);
        self.filtered_indices = ranked;
        if self.selected >= self.filtered_indices.len() {
            self.selected = if self.filtered_indices.len() > 0 {
                self.filtered_indices.len() - 1
            } else {
                0
            };
        }
    }

    /// The registry index the selection points at, if any.
    pub fn current_index(&self) -> (r: Option<usize>)
        ensures
            r is Some <==> (self.selected as int) < self.filtered_indices@.len(),
            r is Some ==> r->0 == self.filtered_indices@[self.selected as int],
    {
        if self.selected < self.filtered_indices.len() {
            Some(self.filtered_indices[self.selected])
        } else {
            None
        }
    }

    /// The host the selection points at, if any.
    pub fn current_host(&self) -> (r: Option<&Host>)
        ensures
            r is Some <==> ((self.selected as int) < self.filtered_indices@.len() && (
            self.filtered_indices@[self.selected as int] as int) < self.config@.hosts.len()),
            r is Some ==> r->0@ == self.config@.hosts[self.filtered_indices@[self.selected as int] as int],
    {
        if self.selected < self.filtered_indices.len() {
            let idx = self.filtered_indices[self.selected];
            if idx < self.config.hosts.len() {
                proof {
                    assert(self.config@.hosts[idx as int] == self.config.hosts@[idx as int]@);
                }
                Some(&self.config.hosts[idx])
            } else {
                None
            }
        } else {
            None
        }
    }

    /// Moves the selection by one, wrapping over the filtered list.
    pub fn move_selection(&mut self, down: bool)
        requires
            app_wf(*old(self)),
        ensures
            app_wf(*final(self)),
            same_modal(*old(self), *final(self)),
            same_store(*old(self), *final(self)),
            final(self).filter@ == old(self).filter@,
            final(self).filtered_indices@ == old(self).filtered_indices@,
            status_view(final(self).status) == status_view(old(self).status),
            ({
                let len = old(self).filtered_indices@.len() as int;
                let sel = old(self).selected as int;
                if len == 0 {
                    final(self).selected == 0
                } else if down {
                    final(self).selected as int == (if sel + 1 < len {
                        sel + 1
                    } else {
                        0
                    })
                } else {
                    final(self).selected as int == (if sel > 0 {
                        sel - 1
                    } else {
                        len - 1
                    })
                }
            }),
    {
        if self.filtered_indices.len() == 0 {
            self.selected = 0;
            return ;
        }
        let len = self.filtered_indices.len();
        if down {
            self.selected = if self.selected + 1 < len {
                self.selected + 1
            } else {
                0
            };
        } else {
            self.selected = if self.selected > 0 {
                self.selected - 1
            } else {
                len - 1
            };
        }
    }

    /// Pushes a snapshot of the registry onto the undo stack, evicting the
    /// oldest entry once the bound of 20 is reached.
    pub fn push_history(&mut self)
        requires
            old(self).history@.len() <= 20,
        ensures
            ({
                let p = history_of(old(self).history@).push(old(self).config@);
                history_of(final(self).history@) == (if p.len() > 20 {
                    p.drop_first()
                } else {
                    p
                })
            }),
            final(self).history@.len() <= 20,
            final(self).history@.len() > 0,
            history_of(final(self).history@).last() == old(self).config@,
            final(self).config@ == old(self).config@,
            same_modal(*old(self), *final(self)),
            final(self).filter@ == old(self).filter@,
            final(self).filtered_indices@ == old(self).filtered_indices@,
            final(self).selected == old(self).selected,
            status_view(final(self).status) == status_view(old(self).status),
    {
        let snap = self.config.duplicate();
        self.history.push(snap);
        proof {
            assert(history_of(self.history@) =~= history_of(old(self).history@).push(
                old(self).config@,
            ));
        }
        if self.history.len() > 20 {
            self.history.remove(0);
            proof {
                assert(history_of(self.history@) =~= history_of(old(self).history@).push(
                    old(self).config@,
                ).drop_first());
            }
        }
    }

    /// Pops the newest snapshot into the live registry. With an empty
    /// history nothing changes and `false` comes back; the caller persists
    /// and reports accordingly.
    pub fn undo(&mut self) -> (r: bool)
        requires
            app_wf(*old(self)),
        ensures
            app_wf(*final(self)),
            undo_post(*old(self), *final(self), r),
    {
        let popped = self.history.pop();
        match popped {
            Some(prev) => {
                proof {
                    assert(history_of(old(self).history@).drop_last() =~= history_of(
                        self.history@,
                    ));
                }
                self.config = prev;
                self.rebuild_filter();
                true
            },
            None => false,
        }
    }
}

/// What popping the newest undo snapshot does: with an empty history
/// nothing changes; otherwise the registry is restored and the snapshot
/// consumed.
pub open spec fn undo_post(o: App, n: App, r: bool) -> bool {
    &&& (r <==> history_of(o.history@).len() > 0)
    &&& !r ==> same_store(o, n) && same_modal(o, n) && n.filter@ == o.filter@
        && n.filtered_indices@ == o.filtered_indices@ && n.selected == o.selected && status_view(
        n.status,
    ) == status_view(o.status)
    &&& r ==> n.config@ == history_of(o.history@).last()
    &&& r ==> history_of(n.history@) == history_of(o.history@).drop_last()
    &&& r ==> same_modal(o, n) && n.filter@ == o.filter@ && filter_rebuilt(o, n) && status_view(
        n.status,
    ) == status_view(o.status)
}

/// The names of the registry's hosts, in order.
pub open spec fn host_names(hosts: Seq<HostV>) -> Seq<Seq<char>> {
    hosts.map_values(|h: HostV| h.name)
}

/// The disambiguated candidate name `base-k`.
pub open spec fn cand_name(base: Seq<char>, k: nat) -> Seq<char> {
    base + seq!['-'] + spec_dec(k)
}

/// Distinct suffixes give distinct candidate names.
pub proof fn lemma_cand_injective(base: Seq<char>, a: nat, b: nat)
    requires
        cand_name(base, a) == cand_name(base, b),
    ensures
        a == b,
{
    crate::text::lemma_dec_val_of_dec(a);
    crate::text::lemma_dec_val_of_dec(b);
    let ca = cand_name(base, a);
    let cb = cand_name(base, b);
    assert(spec_dec(a) =~= ca.subrange(base.len() as int + 1, ca.len() as int));
    assert(spec_dec(b) =~= cb.subrange(base.len() as int + 1, cb.len() as int));
    assert(spec_dec(a) == spec_dec(b));
    assert(text::dec_val(spec_dec(a)) == text::dec_val(spec_dec(b)));
}

/// When every suffix in `[2, i)` is taken, there are at least `i - 2`
/// distinct names, so `i` cannot outrun the registry size.
proof fn lemma_cand_bound(names: Seq<Seq<char>>, base: Seq<char>, i: nat)
    requires
        i >= 2,
        forall|j: nat| 2 <= j < i ==> names.contains(#[trigger] cand_name(base, j)),
    ensures
        i - 2 <= names.len(),
{
    let cands = Seq::new((i - 2) as nat, |j: int| cand_name(base, (j + 2) as nat));
    assert(cands.no_duplicates()) by {
        assert forall|x: int, y: int|
            0 <= x < cands.len() && 0 <= y < cands.len() && x != y implies cands[x] != cands[y] by {
            if cands[x] == cands[y] {
                lemma_cand_injective(base, (x + 2) as nat, (y + 2) as nat);
            }
        }
    }
    assert(forall|x: int| 0 <= x < cands.len() ==> names.contains(#[trigger] cands[x])) by {
        assert forall|x: int| 0 <= x < cands.len() implies names.contains(#[trigger] cands[x]) by {
            assert(cands[x] == cand_name(base, (x + 2) as nat));
            assert(names.contains(cand_name(base, (x + 2) as nat)));
        }
    }
    assert(cands.to_set().subset_of(names.to_set())) by {
        assert forall|v: Seq<char>| cands.to_set().contains(v) implies names.to_set().contains(
            v,
        ) by {
            assert(cands.contains(v));
            let x = choose|x: int| 0 <= x < cands.len() && cands[x] == v;
            assert(names.contains(v));
        }
    }
    cands.unique_seq_to_set();
    names.lemma_cardinality_of_set();
    broadcast use vstd::seq_lib::seq_to_set_is_finite;

    vstd::set_lib::lemma_len_subset(cands.to_set(), names.to_set());
}

impl App {
    /// A name no registry host bears: `base` itself where free, else
    /// `base-k` for the smallest free numeric suffix `k`, starting at 2.
    pub fn unique_name(&self, base: &str) -> (r: String)
        ensures
            fresh_name(host_names(self.config@.hosts), base@, r@),
    {
        let ghost names = host_names(self.config@.hosts);
        if !self.name_taken_str(base) {
            return base.to_owned();
        }
        let base_chars = text::chars_of(base);
        let n_hosts = self.config.hosts.len();
        proof {
            assert(names.len() == n_hosts);
        }
        let mut i: u128 = 2;
        loop
            invariant
                2 <= i,
                i - 2 <= names.len(),
                names.len() <= usize::MAX,
                names == host_names(self.config@.hosts),
                base_chars@ == base@,
                names.contains(base@),
                forall|j: nat| 2 <= j < i ==> names.contains(#[trigger] cand_name(base@, j)),
            decreases names.len() + 2 - i,
        {
            let mut cv = text::subvec(&base_chars, 0, base_chars.len());
            cv.push('-');
            let mut dv = text::dec_chars(i);
            cv.append(&mut dv);
            proof {
                assert(cv@ =~= cand_name(base@, i as nat));
            }
            let cs = text::string_of(&cv);
            if !self.name_taken_str(cs.as_str()) {
                proof {
                    assert(cs@ == cand_name(base@, i as nat));
                }
                return cs;
            }
            proof {
                assert forall|j: nat| 2 <= j < i + 1 implies names.contains(
                    #[trigger] cand_name(base@, j),
                ) by {
                    if j == i as nat {
                        assert(names.contains(cand_name(base@, i as nat)));
                    }
                }
                lemma_cand_bound(names, base@, (i + 1) as nat);
            }
            i += 1;
        }
    }

    /// Whether some host already bears this name.
    fn name_taken_str(&self, name: &str) -> (r: bool)
        ensures
            r == host_names(self.config@.hosts).contains(name@),
    {
        let mut i: usize = 0;
        while i < self.config.hosts.len()
            invariant
                i <= self.config@.hosts.len(),
                forall|j: int| 0 <= j < i ==> host_names(self.config@.hosts)[j] != name@,
            decreases self.config@.hosts.len() - i,
        {
            if text::str_eq(self.config.hosts[i].name.as_str(), name) {
                proof {
                    assert(host_names(self.config@.hosts)[i as int] == name@);
                }
                return true;
            }
            proof {
                assert(host_names(self.config@.hosts)[i as int] == self.config@.hosts[i as int].name);
            }
            i += 1;
        }
        proof {
            if host_names(self.config@.hosts).contains(name@) {
                let j = choose|j: int|
                    0 <= j < host_names(self.config@.hosts).len() && host_names(
                        self.config@.hosts,
                    )[j] == name@;
            }
        }
        false
    }
}


/// What committing a host does to the session; `r` reports the outcome.
pub open spec fn save_post(o: App, kind: FormKind, h: HostV, n: App, r: Result<
    bool,
    AppError,
>) -> bool {
    let edit_unselected = kind is Edit && !((o.selected as int)
        < o.filtered_indices@.len());
    if edit_unselected {
        &&& r == Ok::<bool, AppError>(false)
        &&& same_store(o, n)
        &&& same_modal(o, n)
        &&& n.filter@ == o.filter@
        &&& n.filtered_indices@ == o.filtered_indices@
        &&& n.selected == o.selected
        &&& status_view(n.status) == Some(
            ("No host selected to edit."@, StatusKind::Warn),
        )
    } else {
        let newhosts = if kind is Add {
            o.config@.hosts.push(h)
        } else {
            o.config@.hosts.update(
                o.filtered_indices@[o.selected as int] as int,
                h,
            )
        };
        match bastion::spec_validate(newhosts, 0) {
            Some(f) => {
                &&& r is Err
                &&& (match f {
                    bastion::ValFail::SelfRef(nm) => r->Err_0 matches AppError::SelfBastion(m)
                        && m@ == nm,
                    bastion::ValFail::Cycle(c) => r->Err_0 matches AppError::CircularBastion(m)
                        && m@ == c,
                })
                &&& same_store(o, n)
                &&& same_modal(o, n)
                &&& n.filter@ == o.filter@
                &&& n.filtered_indices@ == o.filtered_indices@
                &&& n.selected == o.selected
                &&& status_view(n.status) == status_view(o.status)
            },
            None => {
                &&& r == Ok::<bool, AppError>(true)
                &&& n.config@.hosts == newhosts
                &&& n.config@.version == o.config@.version
                &&& n.config@.default_key == o.config@.default_key
                &&& ({
                    let p = history_of(o.history@).push(o.config@);
                    history_of(n.history@) == (if p.len() > 20 {
                        p.drop_first()
                    } else {
                        p
                    })
                })
                &&& same_modal(o, n)
                &&& n.filter@ == o.filter@
                &&& filter_rebuilt(o, n)
                &&& status_view(n.status) == Some(
                    (
                        (if kind is Add {
                            "Added host "@ + h.name + "."@
                        } else {
                            "Updated host "@ + h.name + "."@
                        }),
                        StatusKind::Info,
                    ),
                )
            },
        }
    }
}

/// What deleting the selected host does; `r` asks the caller to persist.
pub open spec fn delete_post(o: App, n: App, r: bool) -> bool {
    if (o.selected as int) < o.filtered_indices@.len() {
        let idx = o.filtered_indices@[o.selected as int] as int;
        &&& r
        &&& n.config@.hosts == o.config@.hosts.remove(idx)
        &&& n.config@.version == o.config@.version
        &&& n.config@.default_key == o.config@.default_key
        &&& ({
            let p = history_of(o.history@).push(o.config@);
            history_of(n.history@) == (if p.len() > 20 {
                p.drop_first()
            } else {
                p
            })
        })
        &&& same_modal(o, n)
        &&& n.filter@ == o.filter@
        &&& is_ranking(n.config@.hosts, n.filter@, None, n.filtered_indices@)
        &&& status_view(n.status) == Some(
            ("Removed "@ + o.config@.hosts[idx].name + "."@, StatusKind::Warn),
        )
    } else {
        &&& !r
        &&& same_store(o, n)
        &&& same_modal(o, n)
        &&& n.filter@ == o.filter@
        &&& n.filtered_indices@ == o.filtered_indices@
        &&& n.selected == o.selected
        &&& status_view(n.status) == status_view(o.status)
    }
}

/// The disambiguated name `unique_name` generates: the base itself where
/// free, else `base-k` for the smallest free suffix `k >= 2`.
pub open spec fn fresh_name(names: Seq<Seq<char>>, base: Seq<char>, nm: Seq<char>) -> bool {
    &&& !names.contains(nm)
    &&& (!names.contains(base) ==> nm == base)
    &&& (names.contains(base) ==> exists|k: nat|
        2 <= k && nm == #[trigger] cand_name(base, k) && (forall|j: nat|
            2 <= j < k ==> names.contains(#[trigger] cand_name(base, j))))
}

/// What duplicating a host does: one more host, bearing a fresh name
/// derived from the original's name with a `-copy` suffix.
pub open spec fn dup_post(o: App, h: HostV, n: App) -> bool {
    let nm = n.config@.hosts.last().name;
    &&& fresh_name(host_names(o.config@.hosts), h.name + seq!['-'] + "copy"@, nm)
    &&& n.config@.hosts.len() == o.config@.hosts.len() + 1
    &&& n.config@.hosts.drop_last() == o.config@.hosts
    &&& n.config@.hosts.last() == (HostV { name: nm, ..h })
    &&& !host_names(o.config@.hosts).contains(nm)
    &&& ({
        let p = history_of(o.history@).push(o.config@);
        history_of(n.history@) == (if p.len() > 20 {
            p.drop_first()
        } else {
            p
        })
    })
    &&& same_modal(o, n)
    &&& n.filter@ == o.filter@
    &&& is_ranking(n.config@.hosts, n.filter@, None, n.filtered_indices@)
    &&& status_view(n.status) == Some(
        ("Duplicated host to "@ + nm + "."@, StatusKind::Info),
    )
    &&& ({
        // The selection moves to the first filtered row showing the copy;
        // where the filter hides it, the selection keeps the rebuilt value.
        let fi = n.filtered_indices@;
        if exists|k: int|
            0 <= k < fi.len() && n.config@.hosts[#[trigger] fi[k] as int].name == nm {
            &&& 0 <= n.selected < fi.len()
            &&& n.config@.hosts[fi[n.selected as int] as int].name == nm
            &&& forall|k: int|
                0 <= k < n.selected ==> n.config@.hosts[#[trigger] fi[k] as int].name != nm
        } else {
            n.selected as int == (if o.selected < fi.len() {
                o.selected as int
            } else if fi.len() > 0 {
                fi.len() - 1
            } else {
                0
            })
        }
    })
}

/// What resolving and launching a connection does.
pub open spec fn connect_post(o: App, ex: Option<Seq<char>>, n: App, fx: Effects) -> bool {
    &&& !fx.persist && !fx.reload
    &&& same_store(o, n)
    &&& same_modal(o, n)
    &&& n.filter@ == o.filter@
    &&& n.filtered_indices@ == o.filtered_indices@
    &&& n.selected == o.selected
    &&& ({
        if !((o.selected as int) < o.filtered_indices@.len()
            && (o.filtered_indices@[o.selected as int] as int) < o.config@.hosts.len()) {
            &&& fx.action is None
            &&& status_view(n.status) == Some(("No host selected."@, StatusKind::Warn))
        } else {
            let h = o.config@.hosts[o.filtered_indices@[o.selected as int] as int];
            let pv = crate::ssh::spec_preview(
                h,
                o.config@.hosts,
                o.config@.default_key,
                ex,
                o.env@,
            );
            if o.dry_run {
                &&& fx.action is None
                &&& status_view(n.status) == Some(("Dry-run: "@ + pv, StatusKind::Info))
            } else {
                match crate::ssh::spec_cmd_args(
                    h,
                    o.config@.hosts,
                    o.config@.default_key,
                    ex,
                    o.env@,
                ) {
                    Ok(args) => {
                        &&& fx.action matches Some(AppAction::RunSsh(inv)) && inv@.program
                            == "ssh"@ && inv@.args == args
                        &&& status_view(n.status) == Some(
                            ("Connecting with: "@ + pv, StatusKind::Info),
                        )
                    },
                    Err(_) => {
                        &&& fx.action is None
                        &&& (status_view(n.status) matches Some((t, k)) && k
                            == StatusKind::Error)
                    },
                }
            }
        }
    })
}

/// Whether a host structurally matches a parsed connection spec: same
/// address, user, port, options, bastion and remote command.
pub open spec fn spec_matches(h: HostV, sp: SshSpecV) -> bool {
    &&& h.address == sp.address
    &&& h.user == sp.user
    &&& h.port == sp.port
    &&& h.options == sp.options
    &&& h.bastion == sp.bastion
    &&& h.remote_command == sp.remote_command
}

/// The host a quick-connect spec creates under the generated `name`.
pub open spec fn spec_host_of(sp: SshSpecV, name: Seq<char>) -> HostV {
    HostV {
        name,
        address: sp.address,
        user: sp.user,
        port: sp.port,
        key_path: sp.key_path,
        tags: Seq::empty(),
        options: sp.options,
        remote_command: sp.remote_command,
        bastion: sp.bastion,
        description: None,
    }
}

impl App {
    /// The first host structurally matching the spec, by registry index.
    pub fn find_host_by_spec(&self, spec: &SshSpec) -> (r: Option<usize>)
        ensures
            r is Some ==> (r->0 as int) < self.config@.hosts.len() && spec_matches(
                self.config@.hosts[r->0 as int],
                spec@,
            ) && forall|j: int| 0 <= j < r->0 as int ==> !spec_matches(self.config@.hosts[j], spec@),
            r is None ==> forall|j: int|
                0 <= j < self.config@.hosts.len() ==> !spec_matches(self.config@.hosts[j], spec@),
    {
        let mut i: usize = 0;
        while i < self.config.hosts.len()
            invariant
                i <= self.config@.hosts.len(),
                forall|j: int| 0 <= j < i ==> !spec_matches(self.config@.hosts[j], spec@),
            decreases self.config@.hosts.len() - i,
        {
            let h = &self.config.hosts[i];
            proof {
                assert(self.config@.hosts[i as int] == h@);
            }
            let m = text::str_eq(h.address.as_str(), spec.address.as_str())
                && text::opt_string_eq(&h.user, &spec.user) && (match (h.port, spec.port) {
                (Some(a), Some(b)) => a == b,
                (None, None) => true,
                _ => false,
            }) && text::string_vec_eq(&h.options, &spec.options) && text::opt_string_eq(
                &h.bastion,
                &spec.bastion,
            ) && text::opt_string_eq(&h.remote_command, &spec.remote_command);
            if m {
                return Some(i);
            }
            i += 1;
        }
        None
    }

    /// Validates every host's bastion chain in the registry.
    pub fn validate_bastions(config: &Config) -> (r: Result<(), AppError>)
        ensures
            r is Ok <==> bastion::spec_validate(config@.hosts, 0) is None,
            r is Err ==> ({
                let f = bastion::spec_validate(config@.hosts, 0)->0;
                match f {
                    bastion::ValFail::SelfRef(n) => r->Err_0 matches AppError::SelfBastion(m)
                        && m@ == n,
                    bastion::ValFail::Cycle(c) => r->Err_0 matches AppError::CircularBastion(m)
                        && m@ == c,
                }
            }),
    {
        bastion::validate_bastions(config)
    }

    /// Commits a built host: appended in Add mode, replacing the selected
    /// host in Edit mode. The whole registry is validated first, so no
    /// single edit can introduce a bastion cycle anywhere; a failing
    /// validation leaves the registry untouched. `Ok(true)` asks the
    /// caller to persist; `Ok(false)` reports an Edit without a selection.
    pub fn save_host(&mut self, kind: FormKind, host: Host) -> (r: Result<bool, AppError>)
        requires
            app_wf(*old(self)),
        ensures
            app_wf(*final(self)),
            save_post(*old(self), kind, host@, *final(self), r),
    {
        let mut validation_config = self.config.duplicate();
        let is_add = match kind {
            FormKind::Add => true,
            FormKind::Edit => false,
        };
        let mut at: usize = 0;
        let mut selected_ok = true;
        if is_add {
            validation_config.hosts.push(host.duplicate());
        } else {
            match self.current_index() {
                Some(idx) => {
                    at = idx;
                    validation_config.hosts[at] = host.duplicate();
                    proof {
                        assert(validation_config@.hosts =~= old(self).config@.hosts.update(
                            at as int,
                            host@,
                        ));
                    }
                },
                None => {
                    selected_ok = false;
                },
            }
        }
        if !selected_ok {
            self.status = Some(
                StatusLine {
                    text: String::from_str("No host selected to edit."),
                    kind: StatusKind::Warn,
                },
            );
            return Ok(false);
        }
        proof {
            if is_add {
                assert(validation_config@.hosts =~= old(self).config@.hosts.push(host@));
            }
        }
        match Self::validate_bastions(&validation_config) {
            Err(e) => {
                return Err(e);
            },
            Ok(()) => {},
        }
        let name_copy = host.name.clone();
        self.push_history();
        self.config = validation_config;
        let msg = if is_add {
            String::from_str("Added host ").concat(name_copy.as_str()).concat(".")
        } else {
            String::from_str("Updated host ").concat(name_copy.as_str()).concat(".")
        };
        self.status = Some(StatusLine { text: msg, kind: StatusKind::Info });
        self.rebuild_filter();
        Ok(true)
    }

    /// Deletes the selected host, the history snapshot taken first; `true`
    /// asks the caller to persist.
    pub fn delete_current(&mut self) -> (r: bool)
        requires
            app_wf(*old(self)),
        ensures
            app_wf(*final(self)),
            delete_post(*old(self), *final(self), r),
    {
        match self.current_index() {
            Some(idx) => {
                proof {
                    assert((idx as int) < old(self).config@.hosts.len());
                }
                let removed_name = self.config.hosts[idx].name.clone();
                self.push_history();
                self.status = Some(
                    StatusLine {
                        text: String::from_str("Removed ").concat(removed_name.as_str()).concat(
                            ".",
                        ),
                        kind: StatusKind::Warn,
                    },
                );
                self.config.hosts.remove(idx);
                proof {
                    assert(self.config@.hosts =~= old(self).config@.hosts.remove(idx as int));
                }
                self.rebuild_filter();
                true
            },
            None => false,
        }
    }
}


impl App {
    /// Duplicates a host under a fresh `-copy` name, selects the copy in
    /// the filtered list when it appears there, and asks to persist.
    pub fn duplicate_host(&mut self, host: Host)
        requires
            app_wf(*old(self)),
        ensures
            app_wf(*final(self)),
            dup_post(*old(self), host@, *final(self)),
    {
        let mut base_v = text::chars_of(host.name.as_str());
        base_v.push('-');
        let mut suffix = text::chars_of("copy");
        base_v.append(&mut suffix);
        proof {
            assert(base_v@ =~= host@.name + seq!['-'] + "copy"@);
        }
        let base = text::string_of(&base_v);
        let name = self.unique_name(base.as_str());
        proof {
            assert(fresh_name(
                host_names(old(self).config@.hosts),
                host@.name + seq!['-'] + "copy"@,
                name@,
            ));
        }
        let mut new_host = host.duplicate();
        new_host.name = name.clone();
        proof {
            assert(new_host@ =~= (HostV { name: name@, ..host@ }));
        }
        self.push_history();
        self.config.hosts.push(new_host);
        proof {
            assert(self.config@.hosts =~= old(self).config@.hosts.push(
                HostV { name: name@, ..host@ },
            ));
            assert(self.config@.hosts.drop_last() =~= old(self).config@.hosts);
        }
        self.status = Some(
            StatusLine {
                text: String::from_str("Duplicated host to ").concat(name.as_str()).concat("."),
                kind: StatusKind::Info,
            },
        );
        self.rebuild_filter();
        proof {
            assert(self.config@.hosts.last().name == name@);
        }
        // Select the copy where the filter still shows it.
        let mut k: usize = 0;
        let mut new_sel: Option<usize> = None;
        while k < self.filtered_indices.len() && new_sel.is_none()
            invariant
                k <= self.filtered_indices@.len(),
                forall|j: int|
                    0 <= j < self.filtered_indices@.len() ==> (
                    #[trigger] self.filtered_indices@[j] as int) < self.config@.hosts.len(),
                forall|j: int|
                    0 <= j < k ==> self.config@.hosts[(
                    #[trigger] self.filtered_indices@[j]) as int].name != name@,
                new_sel matches Some(s) ==> s < self.filtered_indices@.len()
                    && self.config@.hosts[self.filtered_indices@[s as int] as int].name == name@
                    && (forall|j: int|
                    0 <= j < s ==> self.config@.hosts[(
                    #[trigger] self.filtered_indices@[j]) as int].name != name@),
            decreases self.filtered_indices@.len() - k + (if new_sel is Some {
                0int
            } else {
                1int
            }),
        {
            let idx = self.filtered_indices[k];
            if text::str_eq(self.config.hosts[idx].name.as_str(), name.as_str()) {
                proof {
                    assert(self.config@.hosts[idx as int].name == name@);
                }
                new_sel = Some(k);
            } else {
                proof {
                    assert(self.config@.hosts[idx as int].name != name@);
                }
                k += 1;
            }
        }
        match new_sel {
            Some(s) => {
                self.selected = s;
            },
            None => {},
        }
        proof {
            assert(history_of(self.history@).len() == self.history@.len());
        }
    }

    /// Resolves and launches a connection to the selected host: in dry-run
    /// only the rendered command is shown; an unresolvable chain surfaces
    /// as an error status; otherwise the caller gets a launch directive.
    pub fn connect(&mut self, extra: Option<&str>) -> (fx: Effects)
        requires
            app_wf(*old(self)),
        ensures
            app_wf(*final(self)),
            connect_post(
                *old(self),
                (match extra {
                    Some(e) => Some(e@),
                    None => None,
                }),
                *final(self),
                fx,
            ),
    {
        let have_sel = self.selected < self.filtered_indices.len()
            && self.filtered_indices[self.selected] < self.config.hosts.len();
        if !have_sel {
            self.status = Some(
                StatusLine { text: String::from_str("No host selected."), kind: StatusKind::Warn },
            );
            return Effects::none();
        }
        let idx = self.filtered_indices[self.selected];
        let host = self.config.hosts[idx].duplicate();
        let default_key: Option<&str> = match &self.config.default_key {
            Some(k) => Some(k.as_str()),
            None => None,
        };
        let preview = crate::ssh::command_preview(&host, &self.config, default_key, extra, &self.env);
        if self.dry_run {
            self.status = Some(
                StatusLine {
                    text: String::from_str("Dry-run: ").concat(preview.as_str()),
                    kind: StatusKind::Info,
                },
            );
            return Effects::none();
        }
        let built = crate::ssh::build_command(&host, &self.config, default_key, extra, &self.env);
        match built {
            Ok(cmd) => {
                self.status = Some(
                    StatusLine {
                        text: String::from_str("Connecting with: ").concat(preview.as_str()),
                        kind: StatusKind::Info,
                    },
                );
                Effects { action: Some(AppAction::RunSsh(cmd)), persist: false, reload: false }
            },
            Err(e) => {
                self.status = Some(StatusLine { text: e.message(), kind: StatusKind::Error });
                Effects::none()
            },
        }
    }

    /// Replaces the registry after a reload from the store.
    pub fn finish_reload(&mut self, config: Config)
        requires
            app_wf(*old(self)),
        ensures
            app_wf(*final(self)),
            final(self).config@ == config@,
            history_of(final(self).history@) == history_of(old(self).history@),
            same_modal(*old(self), *final(self)),
            final(self).filter@ == old(self).filter@,
            filter_rebuilt(*old(self), *final(self)),
            status_view(final(self).status) == Some(("Reloaded config."@, StatusKind::Info)),
    {
        self.config = config;
        self.rebuild_filter();
        self.status = Some(
            StatusLine { text: String::from_str("Reloaded config."), kind: StatusKind::Info },
        );
        proof {
            assert(history_of(self.history@).len() == self.history@.len());
        }
    }

    /// Surfaces a store failure as an error status, leaving the registry
    /// as it is: a failed persist keeps the in-memory change.
    pub fn report_store_error(&mut self, text: String)
        requires
            app_wf(*old(self)),
        ensures
            app_wf(*final(self)),
            same_store(*old(self), *final(self)),
            same_modal(*old(self), *final(self)),
            final(self).filter@ == old(self).filter@,
            final(self).filtered_indices@ == old(self).filtered_indices@,
            final(self).selected == old(self).selected,
            status_view(final(self).status) == Some((text@, StatusKind::Error)),
    {
        self.status = Some(StatusLine { text, kind: StatusKind::Error });
    }

    /// The key-binding help table.
    pub fn help_entries() -> (r: Vec<(&'static str, &'static str)>)
        ensures
            r@.len() == 17,
    {
        let mut v: Vec<(&'static str, &'static str)> = Vec::new();
        v.push(("/", "search"));
        v.push(("Enter", "connect"));
        v.push(("c", "connect with remote command"));
        v.push(("g", "quick connect (ssh string)"));
        v.push(("n", "new host"));
        v.push(("e", "edit host"));
        v.push(("d", "delete host"));
        v.push(("y", "duplicate host"));
        v.push(("u", "undo last change"));
        v.push(("r", "reload config"));
        v.push(("j/k or arrows", "move selection"));
        v.push(("C", "toggle dry-run"));
        v.push(("?", "show help"));
        v.push(("a", "about/credits"));
        v.push(("q", "quit"));
        v.push(("Ctrl+C", "quit immediately"));
        v.push(("Esc", "cancel modal/help"));
        v
    }
}


/// What quick connect does: reuse the first structurally matching host, or
/// create one under a fresh generated name (and ask to persist); either
/// way that host becomes selected and a connection attempt to it follows,
/// whose outcome stands in `fx.action` and the status line.
pub open spec fn quick_post(o: App, sp: SshSpecV, n: App, fx: Effects) -> bool {
    &&& !fx.reload
    &&& n.filter@.len() == 0
    &&& is_ranking(n.config@.hosts, n.filter@, None, n.filtered_indices@)
    &&& n.filtered_indices@ == Seq::new(n.config@.hosts.len() as nat, |i: int| i as usize)
    &&& same_modal_sub(o, n)
    &&& if exists|j: int| 0 <= j < o.config@.hosts.len() && spec_matches(
        #[trigger] o.config@.hosts[j],
        sp,
    ) {
        &&& !fx.persist
        &&& n.config@ == o.config@
        &&& history_of(n.history@) == history_of(o.history@)
        &&& (n.selected as int) < n.config@.hosts.len()
        &&& spec_matches(n.config@.hosts[n.selected as int], sp)
        &&& forall|j: int|
            0 <= j < n.selected ==> !spec_matches(#[trigger] n.config@.hosts[j], sp)
        &&& exists|mid: App|
            #![auto]
            {
                &&& mid.config@ == n.config@
                &&& mid.selected == n.selected
                &&& status_view(mid.status) == Some(
                    ("Quick connect using existing host."@, StatusKind::Info),
                )
                &&& quick_launch(mid, n, fx)
            }
    } else {
        &&& fx.persist
        &&& n.config@.hosts.len() == o.config@.hosts.len() + 1
        &&& n.config@.hosts.drop_last() == o.config@.hosts
        &&& n.config@.hosts.last() == spec_host_of(sp, n.config@.hosts.last().name)
        &&& spec_matches(n.config@.hosts.last(), sp)
        &&& fresh_name(
            host_names(o.config@.hosts),
            (match sp.user {
                Some(u) => u + seq!['@'] + sp.address,
                None => sp.address,
            }),
            n.config@.hosts.last().name,
        )
        &&& !host_names(o.config@.hosts).contains(n.config@.hosts.last().name)
        &&& n.config@.version == o.config@.version
        &&& n.config@.default_key == o.config@.default_key
        &&& ({
            let p = history_of(o.history@).push(o.config@);
            history_of(n.history@) == (if p.len() > 20 {
                p.drop_first()
            } else {
                p
            })
        })
        &&& n.selected as int == n.config@.hosts.len() - 1
        &&& exists|mid: App|
            #![auto]
            {
                &&& mid.config@ == n.config@
                &&& mid.selected == n.selected
                &&& status_view(mid.status) == Some(
                    (
                        "Added "@ + n.config@.hosts.last().name + " and connecting..."@,
                        StatusKind::Info,
                    ),
                )
                &&& quick_launch(mid, n, fx)
            }
    }
}

/// The launch tail of quick connect: from the post-mutation state `mid`
/// (target host already selected), the connection attempt produced `n`,
/// and the caller's action is exactly the attempt's.
pub open spec fn quick_launch(mid: App, n: App, fx: Effects) -> bool {
    exists|fxc: Effects| #![auto] connect_post(mid, None, n, fxc) && fx.action == fxc.action
}

/// The modal fields quick connect leaves alone (it runs from the
/// QuickConnect prompt, whose own fields the dispatcher manages).
pub open spec fn same_modal_sub(a: App, b: App) -> bool {
    &&& a.mode == b.mode
    &&& a.dry_run == b.dry_run
    &&& (a.form is Some <==> b.form is Some)
    &&& (a.form is Some ==> a.form->0@ == b.form->0@)
    &&& (a.quick_input is Some <==> b.quick_input is Some)
    &&& a.show_help == b.show_help
    &&& a.show_about == b.show_about
    &&& a.env@ == b.env@
}

impl App {
    /// Connects a parsed quick-connect spec: reuses the first structurally
    /// matching host, else creates one under a generated unique name, and
    /// immediately connects to it.
    pub fn quick_connect(&mut self, spec: SshSpec) -> (fx: Effects)
        requires
            app_wf(*old(self)),
        ensures
            app_wf(*final(self)),
            quick_post(*old(self), spec@, *final(self), fx),
    {
        self.filter = Vec::new();
        self.rebuild_filter();
        let found = self.find_host_by_spec(&spec);
        match found {
            Some(idx) => {
                self.status = Some(
                    StatusLine {
                        text: String::from_str("Quick connect using existing host."),
                        kind: StatusKind::Info,
                    },
                );
                proof {
                    // The cleared filter shows the whole registry, so the
                    // matched index is always selectable.
                    assert(self.filtered_indices@.len() == self.config@.hosts.len());
                }
                if idx < self.filtered_indices.len() {
                    self.selected = idx;
                }
                let ghost mid = *self;
                proof {
                    assert(mid.selected == idx);
                    assert(history_of(self.history@).len() == self.history@.len());
                    assert(history_of(old(self).history@).len() == old(self).history@.len());
                    assert(app_wf(*self));
                }
                let fx = self.connect(None);
                proof {
                    assert(connect_post(mid, None, *self, fx));
                    assert(quick_launch(mid, *self, fx));
                    assert(exists|m: App|
                        #![auto]
                        {
                            &&& m.config@ == self.config@
                            &&& m.selected == self.selected
                            &&& status_view(m.status) == Some(
                                ("Quick connect using existing host."@, StatusKind::Info),
                            )
                            &&& quick_launch(m, *self, fx)
                        });
                }
                fx
            },
            None => {
                proof {
                    assert(history_of(self.history@).len() == self.history@.len());
                    assert(history_of(old(self).history@).len() == old(self).history@.len());
                }
                self.push_history();
                let name_base: String = match &spec.user {
                    Some(u) => {
                        let mut v = text::chars_of(u.as_str());
                        v.push('@');
                        let mut a = text::chars_of(spec.address.as_str());
                        v.append(&mut a);
                        proof {
                            assert(v@ =~= u@ + seq!['@'] + spec.address@);
                        }
                        text::string_of(&v)
                    },
                    None => spec.address.clone(),
                };
                proof {
                    assert(name_base@ == (match spec@.user {
                        Some(u) => u + seq!['@'] + spec@.address,
                        None => spec@.address,
                    }));
                }
                let name = self.unique_name(name_base.as_str());
                proof {
                    assert(fresh_name(
                        host_names(old(self).config@.hosts),
                        (match spec@.user {
                            Some(u) => u + seq!['@'] + spec@.address,
                            None => spec@.address,
                        }),
                        name@,
                    ));
                }
                let host = Host {
                    name: name.clone(),
                    address: spec.address.clone(),
                    user: crate::model::clone_opt_string(&spec.user),
                    port: spec.port,
                    key_path: crate::model::clone_opt_string(&spec.key_path),
                    tags: Vec::new(),
                    options: crate::model::clone_string_vec(&spec.options),
                    remote_command: crate::model::clone_opt_string(&spec.remote_command),
                    bastion: crate::model::clone_opt_string(&spec.bastion),
                    description: None,
                };
                proof {
                    assert(host@.tags =~= Seq::<Seq<char>>::empty());
                    assert(host@ =~= spec_host_of(spec@, name@));
                }
                self.config.hosts.push(host);
                proof {
                    assert(self.config@.hosts =~= old(self).config@.hosts.push(
                        spec_host_of(spec@, name@),
                    ));
                    assert(self.config@.hosts.drop_last() =~= old(self).config@.hosts);
                }
                self.rebuild_filter();
                self.status = Some(
                    StatusLine {
                        text: String::from_str("Added ").concat(name.as_str()).concat(
                            " and connecting...",
                        ),
                        kind: StatusKind::Info,
                    },
                );
                let target = self.config.hosts.len() - 1;
                proof {
                    assert(self.filtered_indices@.len() == self.config@.hosts.len());
                }
                if target < self.filtered_indices.len() {
                    self.selected = target;
                }
                let ghost mid = *self;
                proof {
                    assert(mid.selected as int == mid.config@.hosts.len() - 1);
                    assert(history_of(self.history@).len() == self.history@.len());
                    assert(app_wf(*self));
                }
                let fx = self.connect(None);
                let ghost fxc = fx;
                let out = Effects { action: fx.action, persist: true, reload: false };
                proof {
                    assert(connect_post(mid, None, *self, fxc));
                    assert(out.action == fxc.action);
                    assert(quick_launch(mid, *self, out));
                    assert(exists|m: App|
                        #![auto]
                        {
                            &&& m.config@ == self.config@
                            &&& m.selected == self.selected
                            &&& status_view(m.status) == Some(
                                (
                                    "Added "@ + self.config@.hosts.last().name
                                        + " and connecting..."@,
                                    StatusKind::Info,
                                ),
                            )
                            &&& quick_launch(m, *self, out)
                        });
                }
                out
            },
        }
    }
}


/// The selection points at a live host.
pub open spec fn has_sel(o: App) -> bool {
    (o.selected as int) < o.filtered_indices@.len() && (
    o.filtered_indices@[o.selected as int] as int) < o.config@.hosts.len()
}

/// The host the selection points at.
pub open spec fn sel_host(o: App) -> HostV {
    o.config@.hosts[o.filtered_indices@[o.selected as int] as int]
}

/// The filter, filtered list and selection, unchanged.
pub open spec fn same_list(a: App, b: App) -> bool {
    &&& a.filter@ == b.filter@
    &&& a.filtered_indices@ == b.filtered_indices@
    &&& a.selected == b.selected
}

/// Nothing observable about the session changed.
pub open spec fn same_session(a: App, b: App) -> bool {
    &&& same_store(a, b)
    &&& same_modal(a, b)
    &&& same_list(a, b)
    &&& status_view(a.status) == status_view(b.status)
}

/// Everything but the status line, unchanged.
pub open spec fn eq_but_status(a: App, b: App) -> bool {
    &&& same_store(a, b)
    &&& same_modal(a, b)
    &&& same_list(a, b)
}

/// How Search mode reacts: characters narrow the live filter, Backspace
/// widens it, Enter applies it, Escape also clears the status.
pub open spec fn search_step(o: App, key: KeyInput, n: App, fx: Effects) -> bool {
    &&& fx_none(fx)
    &&& match key.code {
        Key::Esc => {
            &&& n.mode == Mode::Normal
            &&& same_store(o, n)
            &&& same_panels(o, n)
            &&& same_list(o, n)
            &&& n.status is None
        },
        Key::Enter => {
            &&& n.mode == Mode::Normal
            &&& same_store(o, n)
            &&& same_panels(o, n)
            &&& same_list(o, n)
            &&& status_view(n.status) == status_view(o.status)
        },
        Key::Char(c) => if key.plain {
            &&& n.mode == o.mode
            &&& same_store(o, n)
            &&& same_panels(o, n)
            &&& n.filter@ == o.filter@.push(c)
            &&& filter_rebuilt(o, n)
            &&& status_view(n.status) == status_view(o.status)
        } else {
            same_session(o, n)
        },
        Key::Backspace => {
            &&& n.mode == o.mode
            &&& same_store(o, n)
            &&& same_panels(o, n)
            &&& n.filter@ == (if o.filter@.len() > 0 {
                o.filter@.drop_last()
            } else {
                o.filter@
            })
            &&& filter_rebuilt(o, n)
            &&& status_view(n.status) == status_view(o.status)
        },
        _ => same_session(o, n),
    }
}

/// The sub-state panels (everything modal except the mode), unchanged.
pub open spec fn same_panels(a: App, b: App) -> bool {
    &&& a.dry_run == b.dry_run
    &&& (a.form is Some <==> b.form is Some)
    &&& (a.form is Some ==> a.form->0@ == b.form->0@)
    &&& (a.confirm is Some <==> b.confirm is Some)
    &&& match (a.confirm, b.confirm) {
        (Some(ConfirmKind::Delete), x) => x matches Some(ConfirmKind::Delete),
        (Some(ConfirmKind::Connect { extra_cmd: e1 }), x) => x matches Some(
            ConfirmKind::Connect { extra_cmd: e2 },
        ) && e1@ == e2@,
        (None, x) => x is None,
    }
    &&& (a.quick_input is Some <==> b.quick_input is Some)
    &&& (a.quick_input is Some ==> a.quick_input->0@ == b.quick_input->0@)
    &&& a.quick_cursor == b.quick_cursor
    &&& a.show_help == b.show_help
    &&& a.show_about == b.show_about
    &&& a.env@ == b.env@
}

impl App {
    /// Routes one key in Search mode.
    pub fn handle_search(&mut self, key: KeyInput) -> (fx: Effects)
        requires
            app_wf(*old(self)),
        ensures
            app_wf(*final(self)),
            search_step(*old(self), key, *final(self), fx),
    {
        match key.code {
            Key::Esc => {
                self.mode = Mode::Normal;
                self.status = None;
            },
            Key::Enter => {
                self.mode = Mode::Normal;
            },
            Key::Char(c) => {
                if key.plain {
                    self.filter.push(c);
                    self.rebuild_filter();
                }
            },
            Key::Backspace => {
                let popped = self.filter.pop();
                self.rebuild_filter();
            },
            _ => {},
        }
        proof {
            assert(history_of(self.history@).len() == self.history@.len());
        }
        Effects::none()
    }
}

/// How QuickConnect mode reacts: a one-line editable buffer; Enter parses
/// it — a failure stays on the prompt with the error as status, a success
/// quick-connects the parsed spec.
pub open spec fn quickconnect_step(o: App, key: KeyInput, n: App, fx: Effects) -> bool {
    match key.code {
        Key::Esc => {
            &&& fx_none(fx)
            &&& n.mode == Mode::Normal
            &&& same_store(o, n)
            &&& same_list(o, n)
            &&& n.quick_input is None
            &&& n.quick_cursor == 0
            &&& quick_panels_same(o, n)
            &&& status_view(n.status) == status_view(o.status)
        },
        Key::Backspace => {
            &&& fx_none(fx)
            &&& same_store(o, n)
            &&& same_list(o, n)
            &&& n.mode == o.mode
            &&& quick_panels_same(o, n)
            &&& status_view(n.status) == status_view(o.status)
            &&& (match o.quick_input {
                Some(q) => n.quick_input is Some && (if o.quick_cursor > 0 {
                    n.quick_input->0@ == q@.remove(o.quick_cursor - 1) && n.quick_cursor as int
                        == o.quick_cursor - 1
                } else {
                    n.quick_input->0@ == q@ && n.quick_cursor == 0
                }),
                None => n.quick_input is None && n.quick_cursor == o.quick_cursor,
            })
        },
        Key::Enter => {
            match o.quick_input {
                Some(q) => {
                    match spec_parse(q@) {
                        Some(sp) => exists|mid: App|
                            #![auto]
                            mid == (App {
                                mode: Mode::Normal,
                                quick_input: None,
                                quick_cursor: 0,
                                ..o
                            }) && quick_post(mid, sp, n, fx),
                        None => {
                            &&& fx_none(fx)
                            &&& eq_but_status(o, n)
                            &&& status_view(n.status) == Some(
                                (
                                    crate::errors::spec_message(AppError::TargetMissing),
                                    StatusKind::Error,
                                ),
                            )
                        },
                    }
                },
                None => {
                    &&& fx_none(fx)
                    &&& n.mode == Mode::Normal
                    &&& same_store(o, n)
                    &&& same_list(o, n)
                    &&& quick_panels_same(o, n)
                    &&& n.quick_input is None
                    &&& n.quick_cursor == o.quick_cursor
                    &&& status_view(n.status) == status_view(o.status)
                },
            }
        },
        Key::Char(c) => {
            &&& fx_none(fx)
            &&& same_store(o, n)
            &&& same_list(o, n)
            &&& n.mode == o.mode
            &&& quick_panels_same(o, n)
            &&& status_view(n.status) == status_view(o.status)
            &&& (match o.quick_input {
                Some(q) => if key.plain {
                    n.quick_input is Some && n.quick_input->0@ == q@.insert(
                        o.quick_cursor as int,
                        c,
                    ) && n.quick_cursor as int == o.quick_cursor + 1
                } else {
                    n.quick_input is Some && n.quick_input->0@ == q@ && n.quick_cursor
                        == o.quick_cursor
                },
                None => n.quick_input is None && n.quick_cursor == o.quick_cursor,
            })
        },
        Key::Left => {
            &&& fx_none(fx)
            &&& same_store(o, n)
            &&& same_list(o, n)
            &&& n.mode == o.mode
            &&& quick_panels_same(o, n)
            &&& status_view(n.status) == status_view(o.status)
            &&& (n.quick_input is Some <==> o.quick_input is Some)
            &&& (o.quick_input is Some ==> n.quick_input->0@ == o.quick_input->0@)
            &&& n.quick_cursor as int == (if o.quick_cursor > 0 {
                o.quick_cursor - 1
            } else {
                0
            })
        },
        Key::Right => {
            &&& fx_none(fx)
            &&& same_store(o, n)
            &&& same_list(o, n)
            &&& n.mode == o.mode
            &&& quick_panels_same(o, n)
            &&& status_view(n.status) == status_view(o.status)
            &&& (n.quick_input is Some <==> o.quick_input is Some)
            &&& (o.quick_input is Some ==> n.quick_input->0@ == o.quick_input->0@)
            &&& n.quick_cursor as int == (match o.quick_input {
                Some(q) => if (o.quick_cursor as int) < q@.len() {
                    o.quick_cursor + 1
                } else {
                    o.quick_cursor as int
                },
                None => o.quick_cursor as int,
            })
        },
        _ => same_session(o, n) && fx_none(fx),
    }
}

/// The panels QuickConnect mode leaves alone (its own buffer excepted).
pub open spec fn quick_panels_same(a: App, b: App) -> bool {
    &&& a.dry_run == b.dry_run
    &&& (a.form is Some <==> b.form is Some)
    &&& (a.form is Some ==> a.form->0@ == b.form->0@)
    &&& (a.confirm is Some <==> b.confirm is Some)
    &&& a.show_help == b.show_help
    &&& a.show_about == b.show_about
    &&& a.env@ == b.env@
}

impl App {
    /// Routes one key in QuickConnect mode.
    pub fn handle_quickconnect(&mut self, key: KeyInput) -> (fx: Effects)
        requires
            app_wf(*old(self)),
        ensures
            app_wf(*final(self)),
            quickconnect_step(*old(self), key, *final(self), fx),
    {
        match key.code {
            Key::Esc => {
                self.mode = Mode::Normal;
                self.quick_input = None;
                self.quick_cursor = 0;
                Effects::none()
            },
            Key::Backspace => {
                let cur = self.quick_cursor;
                match &self.quick_input {
                    Some(q) => {
                        if cur > 0 {
                            let mut q2 = crate::text::subvec(q, 0, q.len());
                            proof {
                                assert(q2@ =~= q@);
                            }
                            q2.remove(cur - 1);
                            self.quick_input = Some(q2);
                            self.quick_cursor = cur - 1;
                        }
                    },
                    None => {},
                }
                Effects::none()
            },
            Key::Enter => {
                let taken = match &self.quick_input {
                    Some(q) => {
                        let cp = crate::text::subvec(q, 0, q.len());
                        proof {
                            assert(cp@ =~= q@);
                        }
                        Some(cp)
                    },
                    None => None,
                };
                match taken {
                    Some(buf) => {
                        let s = text::string_of(&buf);
                        match crate::parser::parse_ssh_spec(s.as_str()) {
                            Ok(sp) => {
                                self.mode = Mode::Normal;
                                self.quick_input = None;
                                self.quick_cursor = 0;
                                let ghost mid = *self;
                                proof {
                                    assert(history_of(self.history@).len()
                                        == self.history@.len());
                                    assert(app_wf(*self));
                                    assert(mid == (App {
                                        mode: Mode::Normal,
                                        quick_input: None,
                                        quick_cursor: 0,
                                        ..*old(self)
                                    }));
                                }
                                let fx = self.quick_connect(sp);
                                proof {
                                    assert(quick_post(mid, sp@, *self, fx));
                                    assert(exists|m: App|
                                        #![auto]
                                        m == (App {
                                            mode: Mode::Normal,
                                            quick_input: None,
                                            quick_cursor: 0,
                                            ..*old(self)
                                        }) && quick_post(m, sp@, *self, fx));
                                }
                                fx
                            },
                            Err(e) => {
                                self.status = Some(
                                    StatusLine { text: e.message(), kind: StatusKind::Error },
                                );
                                Effects::none()
                            },
                        }
                    },
                    None => {
                        self.mode = Mode::Normal;
                        Effects::none()
                    },
                }
            },
            Key::Char(c) => {
                if key.plain {
                    let cur = self.quick_cursor;
                    match &self.quick_input {
                        Some(q) => {
                            let mut q2 = crate::text::subvec(q, 0, q.len());
                            proof {
                                assert(q2@ =~= q@);
                            }
                            q2.insert(cur, c);
                            let nl = q2.len();
                            proof {
                                assert(nl == q@.len() + 1);
                            }
                            self.quick_input = Some(q2);
                            self.quick_cursor = cur + 1;
                        },
                        None => {},
                    }
                }
                Effects::none()
            },
            Key::Left => {
                if self.quick_cursor > 0 {
                    self.quick_cursor = self.quick_cursor - 1;
                }
                Effects::none()
            },
            Key::Right => {
                let cur = self.quick_cursor;
                match &self.quick_input {
                    Some(q) => {
                        if cur < q.len() {
                            self.quick_cursor = cur + 1;
                        }
                    },
                    None => {},
                }
                Effects::none()
            },
            _ => Effects::none(),
        }
    }
}


/// How a confirmation modal reacts: Delete wants y/Enter or n/Escape;
/// Connect edits a free-text extra command and connects on Enter.
pub open spec fn confirm_step(o: App, key: KeyInput, n: App, fx: Effects) -> bool {
    match o.confirm {
        None => {
            &&& fx_none(fx)
            &&& n.mode == Mode::Normal
            &&& same_store(o, n)
            &&& same_list(o, n)
            &&& same_panels(o, n)
            &&& status_view(n.status) == status_view(o.status)
        },
        Some(ConfirmKind::Delete) => {
            match key.code {
                Key::Esc => confirm_closed(o, n) && fx_none(fx),
                Key::Enter => confirm_delete_done(o, n, fx),
                Key::Char(c) => if c == 'n' {
                    confirm_closed(o, n) && fx_none(fx)
                } else if c == 'y' {
                    confirm_delete_done(o, n, fx)
                } else {
                    same_session(o, n) && fx_none(fx)
                },
                _ => same_session(o, n) && fx_none(fx),
            }
        },
        Some(ConfirmKind::Connect { extra_cmd }) => {
            match key.code {
                Key::Esc => confirm_closed(o, n) && fx_none(fx),
                Key::Enter => {
                    let ex = text::spec_non_empty(extra_cmd@);
                    exists|mid: App|
                        #![auto]
                        mid == (App { mode: Mode::Normal, confirm: None, ..o }) && connect_post(
                            mid,
                            ex,
                            n,
                            fx,
                        )
                },
                Key::Backspace => {
                    &&& fx_none(fx)
                    &&& same_store(o, n)
                    &&& same_list(o, n)
                    &&& n.mode == o.mode
                    &&& status_view(n.status) == status_view(o.status)
                    &&& n.confirm matches Some(ConfirmKind::Connect { extra_cmd: e2 }) && e2@ == (
                    if extra_cmd@.len() > 0 {
                        extra_cmd@.drop_last()
                    } else {
                        extra_cmd@
                    })
                    &&& confirm_rest_same(o, n)
                },
                Key::Char(c) => {
                    &&& fx_none(fx)
                    &&& same_store(o, n)
                    &&& same_list(o, n)
                    &&& n.mode == o.mode
                    &&& status_view(n.status) == status_view(o.status)
                    &&& n.confirm matches Some(ConfirmKind::Connect { extra_cmd: e2 }) && e2@ == (
                    if key.plain {
                        extra_cmd@.push(c)
                    } else {
                        extra_cmd@
                    })
                    &&& confirm_rest_same(o, n)
                },
                _ => same_session(o, n) && fx_none(fx),
            }
        },
    }
}

/// The modal cancelled: back to Normal with the rest untouched.
pub open spec fn confirm_closed(o: App, n: App) -> bool {
    &&& n.mode == Mode::Normal
    &&& n.confirm is None
    &&& same_store(o, n)
    &&& same_list(o, n)
    &&& confirm_rest_same(o, n)
    &&& status_view(n.status) == status_view(o.status)
}

/// The panels a confirm modal leaves alone (its own kind excepted).
pub open spec fn confirm_rest_same(a: App, b: App) -> bool {
    &&& a.dry_run == b.dry_run
    &&& (a.form is Some <==> b.form is Some)
    &&& (a.form is Some ==> a.form->0@ == b.form->0@)
    &&& (a.quick_input is Some <==> b.quick_input is Some)
    &&& (a.quick_input is Some ==> a.quick_input->0@ == b.quick_input->0@)
    &&& a.quick_cursor == b.quick_cursor
    &&& a.show_help == b.show_help
    &&& a.show_about == b.show_about
    &&& a.env@ == b.env@
}

/// The deletion confirmed: the selected host removed and the modal closed.
pub open spec fn confirm_delete_done(o: App, n: App, fx: Effects) -> bool {
    &&& fx.action is None && !fx.reload
    &&& exists|mid: App|
        #![auto]
        delete_post(o, mid, fx.persist) && n == (App { mode: Mode::Normal, confirm: None, ..mid })
}

impl App {
    /// Routes one key in a confirmation modal.
    pub fn handle_confirm(&mut self, key: KeyInput) -> (fx: Effects)
        requires
            app_wf(*old(self)),
        ensures
            app_wf(*final(self)),
            confirm_step(*old(self), key, *final(self), fx),
    {
        let is_delete = match &self.confirm {
            Some(ConfirmKind::Delete) => true,
            _ => false,
        };
        let is_connect = match &self.confirm {
            Some(ConfirmKind::Connect { .. }) => true,
            _ => false,
        };
        if is_delete {
            match key.code {
                Key::Esc => {
                    self.mode = Mode::Normal;
                    self.confirm = None;
                    Effects::none()
                },
                Key::Enter => self.confirm_delete(),
                Key::Char(c) => {
                    if c == 'n' {
                        self.mode = Mode::Normal;
                        self.confirm = None;
                        Effects::none()
                    } else if c == 'y' {
                        self.confirm_delete()
                    } else {
                        Effects::none()
                    }
                },
                _ => Effects::none(),
            }
        } else if is_connect {
            match key.code {
                Key::Esc => {
                    self.mode = Mode::Normal;
                    self.confirm = None;
                    Effects::none()
                },
                Key::Enter => {
                    let extra: Option<String> = match &self.confirm {
                        Some(ConfirmKind::Connect { extra_cmd }) => {
                            let t = text::trim_chars(extra_cmd);
                            if t.len() > 0 {
                                Some(text::string_of(&t))
                            } else {
                                None
                            }
                        },
                        _ => None,
                    };
                    self.confirm = None;
                    self.mode = Mode::Normal;
                    let ghost mid = *self;
                    proof {
                        assert(history_of(self.history@).len() == self.history@.len());
                        assert(app_wf(*self));
                        assert(mid == (App { mode: Mode::Normal, confirm: None, ..*old(self) }));
                    }
                    let fx = match &extra {
                        Some(e) => self.connect(Some(e.as_str())),
                        None => self.connect(None),
                    };
                    proof {
                        let exv = match old(self).confirm {
                            Some(ConfirmKind::Connect { extra_cmd }) => text::spec_non_empty(
                                extra_cmd@,
                            ),
                            _ => None,
                        };
                        assert(connect_post(mid, exv, *self, fx));
                    }
                    fx
                },
                Key::Backspace => {
                    match &self.confirm {
                        Some(ConfirmKind::Connect { extra_cmd }) => {
                            let mut e2 = crate::text::subvec(extra_cmd, 0, extra_cmd.len());
                            proof {
                                assert(e2@ =~= extra_cmd@);
                            }
                            let popped = e2.pop();
                            self.confirm = Some(ConfirmKind::Connect { extra_cmd: e2 });
                        },
                        _ => {},
                    }
                    Effects::none()
                },
                Key::Char(c) => {
                    if key.plain {
                        match &self.confirm {
                            Some(ConfirmKind::Connect { extra_cmd }) => {
                                let mut e2 = crate::text::subvec(extra_cmd, 0, extra_cmd.len());
                                proof {
                                    assert(e2@ =~= extra_cmd@);
                                }
                                e2.push(c);
                                self.confirm = Some(ConfirmKind::Connect { extra_cmd: e2 });
                            },
                            _ => {},
                        }
                    }
                    Effects::none()
                },
                _ => Effects::none(),
            }
        } else {
            self.mode = Mode::Normal;
            Effects::none()
        }
    }

    /// Carries out a confirmed deletion and closes the modal.
    fn confirm_delete(&mut self) -> (fx: Effects)
        requires
            app_wf(*old(self)),
        ensures
            app_wf(*final(self)),
            confirm_delete_done(*old(self), *final(self), fx),
    {
        let removed = self.delete_current();
        let ghost mid = *self;
        self.mode = Mode::Normal;
        self.confirm = None;
        let fx = Effects { action: None, persist: removed, reload: false };
        proof {
            assert(delete_post(*old(self), mid, fx.persist));
            assert(*self == (App { mode: Mode::Normal, confirm: None, ..mid }));
            assert(exists|m: App|
                #![auto]
                delete_post(*old(self), m, fx.persist) && *self == (App {
                    mode: Mode::Normal,
                    confirm: None,
                    ..m
                }));
            assert(history_of(self.history@).len() == self.history@.len());
        }
        fx
    }
}


/// A freshly opened form over `hv` (blank when none): what
/// `FormState::new` builds.
pub open spec fn opened_form(
    f: form::FormStateV,
    kind: FormKind,
    hv: Option<HostV>,
    hosts: Seq<HostV>,
    env: crate::ssh::EnvV,
) -> bool {
    form::fresh_form(f, kind, hv, hosts, env)
}

/// How Normal mode reacts to its single-key commands.
pub open spec fn normal_step(o: App, key: KeyInput, n: App, fx: Effects) -> bool {
    match key.code {
        Key::Char(c) => {
            if c == 'q' {
                &&& same_session(o, n)
                &&& fx.action matches Some(AppAction::Quit)
                &&& !fx.persist
                &&& !fx.reload
            } else if c == '?' || c == 'h' {
                &&& fx_none(fx)
                &&& eq_all_but_overlays(o, n)
                &&& n.show_help
                &&& n.show_about == o.show_about
                &&& status_view(n.status) == status_view(o.status)
            } else if c == 'a' {
                &&& fx_none(fx)
                &&& eq_all_but_overlays(o, n)
                &&& n.show_about
                &&& n.show_help == o.show_help
                &&& status_view(n.status) == status_view(o.status)
            } else if c == '/' {
                &&& fx_none(fx)
                &&& n.mode == Mode::Search
                &&& same_store(o, n)
                &&& same_list(o, n)
                &&& same_panels(o, n)
                &&& status_view(n.status) == Some(
                    ("Search: type to filter, Enter to apply."@, StatusKind::Info),
                )
            } else if c == 'g' {
                &&& fx_none(fx)
                &&& n.mode == Mode::QuickConnect
                &&& same_store(o, n)
                &&& same_list(o, n)
                &&& n.quick_input matches Some(q) && q@.len() == 0
                &&& n.quick_cursor == 0
                &&& quick_panels_same(o, n)
                &&& status_view(n.status) == Some(
                    (
                        "Quick connect: paste ssh user@host string, Enter to connect."@,
                        StatusKind::Info,
                    ),
                )
            } else if c == 'j' {
                moved_selection(o, n, true) && fx_none(fx)
            } else if c == 'k' {
                moved_selection(o, n, false) && fx_none(fx)
            } else if c == 'n' {
                &&& fx_none(fx)
                &&& n.mode == Mode::Form
                &&& same_store(o, n)
                &&& same_list(o, n)
                &&& n.form matches Some(f) && opened_form(
                    f@,
                    FormKind::Add,
                    None,
                    o.config@.hosts,
                    o.env@,
                )
                &&& form_rest_same(o, n)
                &&& status_view(n.status) == Some(
                    (
                        "New host: paste ssh command or fill fields; Tab to move, Enter to save."@,
                        StatusKind::Info,
                    ),
                )
            } else if c == 'u' {
                &&& fx.action is None && !fx.reload
                &&& exists|mid: App|
                    #![auto]
                    undo_post(o, mid, fx.persist) && eq_but_status(mid, n)
                &&& status_view(n.status) == (if fx.persist {
                    Some(("Undid last change."@, StatusKind::Info))
                } else {
                    Some(("Nothing to undo."@, StatusKind::Warn))
                })
            } else if c == 'y' {
                if has_sel(o) {
                    dup_post(o, sel_host(o), n) && fx.action is None && fx.persist && !fx.reload
                } else {
                    same_session(o, n) && fx_none(fx)
                }
            } else if c == 'e' {
                if has_sel(o) {
                    &&& fx_none(fx)
                    &&& n.mode == Mode::Form
                    &&& same_store(o, n)
                    &&& same_list(o, n)
                    &&& n.form matches Some(f) && opened_form(
                        f@,
                        FormKind::Edit,
                        Some(sel_host(o)),
                        o.config@.hosts,
                        o.env@,
                    )
                    &&& form_rest_same(o, n)
                    &&& status_view(n.status) == status_view(o.status)
                } else {
                    &&& fx_none(fx)
                    &&& eq_but_status(o, n)
                    &&& status_view(n.status) == Some(
                        ("No host selected to edit."@, StatusKind::Warn),
                    )
                }
            } else if c == 'd' {
                if has_sel(o) {
                    &&& fx_none(fx)
                    &&& n.mode == Mode::Confirm
                    &&& n.confirm matches Some(ConfirmKind::Delete)
                    &&& same_store(o, n)
                    &&& same_list(o, n)
                    &&& confirm_rest_same(o, n)
                    &&& status_view(n.status) == status_view(o.status)
                } else {
                    same_session(o, n) && fx_none(fx)
                }
            } else if c == 'c' {
                if has_sel(o) {
                    &&& fx_none(fx)
                    &&& n.mode == Mode::Confirm
                    &&& n.confirm matches Some(ConfirmKind::Connect { extra_cmd }) && extra_cmd@.len()
                        == 0
                    &&& same_store(o, n)
                    &&& same_list(o, n)
                    &&& confirm_rest_same(o, n)
                    &&& status_view(n.status) == status_view(o.status)
                } else {
                    same_session(o, n) && fx_none(fx)
                }
            } else if c == 'r' {
                same_session(o, n) && fx.action is None && !fx.persist && fx.reload
            } else if c == 'C' {
                &&& fx_none(fx)
                &&& n.dry_run == !o.dry_run
                &&& same_store(o, n)
                &&& same_list(o, n)
                &&& n.mode == o.mode
                &&& dry_rest_same(o, n)
                &&& status_view(n.status) == Some(
                    (
                        (if n.dry_run {
                            "Dry-run toggled ON."@
                        } else {
                            "Dry-run toggled OFF."@
                        }),
                        StatusKind::Info,
                    ),
                )
            } else {
                same_session(o, n) && fx_none(fx)
            }
        },
        Key::Down => moved_selection(o, n, true) && fx_none(fx),
        Key::Up => moved_selection(o, n, false) && fx_none(fx),
        Key::Enter => {
            if has_sel(o) {
                connect_post(o, None, n, fx)
            } else {
                same_session(o, n) && fx_none(fx)
            }
        },
        _ => same_session(o, n) && fx_none(fx),
    }
}

/// Everything except the two overlay flags and the status, unchanged.
pub open spec fn eq_all_but_overlays(a: App, b: App) -> bool {
    &&& same_store(a, b)
    &&& same_list(a, b)
    &&& a.mode == b.mode
    &&& a.dry_run == b.dry_run
    &&& (a.form is Some <==> b.form is Some)
    &&& (a.form is Some ==> a.form->0@ == b.form->0@)
    &&& (a.confirm is Some <==> b.confirm is Some)
    &&& (a.quick_input is Some <==> b.quick_input is Some)
    &&& (a.quick_input is Some ==> a.quick_input->0@ == b.quick_input->0@)
    &&& a.quick_cursor == b.quick_cursor
    &&& a.env@ == b.env@
}

/// The panels opening a form leaves alone.
pub open spec fn form_rest_same(a: App, b: App) -> bool {
    &&& a.dry_run == b.dry_run
    &&& (a.confirm is Some <==> b.confirm is Some)
    &&& (a.quick_input is Some <==> b.quick_input is Some)
    &&& (a.quick_input is Some ==> a.quick_input->0@ == b.quick_input->0@)
    &&& a.quick_cursor == b.quick_cursor
    &&& a.show_help == b.show_help
    &&& a.show_about == b.show_about
    &&& a.env@ == b.env@
}

/// The panels the dry-run toggle leaves alone.
pub open spec fn dry_rest_same(a: App, b: App) -> bool {
    &&& (a.form is Some <==> b.form is Some)
    &&& (a.form is Some ==> a.form->0@ == b.form->0@)
    &&& (a.confirm is Some <==> b.confirm is Some)
    &&& (a.quick_input is Some <==> b.quick_input is Some)
    &&& (a.quick_input is Some ==> a.quick_input->0@ == b.quick_input->0@)
    &&& a.quick_cursor == b.quick_cursor
    &&& a.show_help == b.show_help
    &&& a.show_about == b.show_about
    &&& a.env@ == b.env@
}

/// The selection moved one step with wraparound, nothing else touched.
pub open spec fn moved_selection(o: App, n: App, down: bool) -> bool {
    &&& same_store(o, n)
    &&& same_modal(o, n)
    &&& n.filter@ == o.filter@
    &&& n.filtered_indices@ == o.filtered_indices@
    &&& status_view(n.status) == status_view(o.status)
    &&& ({
        let len = o.filtered_indices@.len() as int;
        let sel = o.selected as int;
        if len == 0 {
            n.selected == 0
        } else if down {
            n.selected as int == (if sel + 1 < len {
                sel + 1
            } else {
                0
            })
        } else {
            n.selected as int == (if sel > 0 {
                sel - 1
            } else {
                len - 1
            })
        }
    })
}

impl App {
    /// Routes one key in Normal mode.
    pub fn handle_normal(&mut self, key: KeyInput) -> (fx: Effects)
        requires
            app_wf(*old(self)),
        ensures
            app_wf(*final(self)),
            normal_step(*old(self), key, *final(self), fx),
    {
        match key.code {
            Key::Char(c) => {
                if c == 'q' {
                    Effects { action: Some(AppAction::Quit), persist: false, reload: false }
                } else if c == '?' || c == 'h' {
                    self.show_help = true;
                    Effects::none()
                } else if c == 'a' {
                    self.show_about = true;
                    Effects::none()
                } else if c == '/' {
                    self.mode = Mode::Search;
                    self.status = Some(
                        StatusLine {
                            text: String::from_str("Search: type to filter, Enter to apply."),
                            kind: StatusKind::Info,
                        },
                    );
                    Effects::none()
                } else if c == 'g' {
                    self.mode = Mode::QuickConnect;
                    self.quick_input = Some(Vec::new());
                    self.quick_cursor = 0;
                    self.status = Some(
                        StatusLine {
                            text: String::from_str(
                                "Quick connect: paste ssh user@host string, Enter to connect.",
                            ),
                            kind: StatusKind::Info,
                        },
                    );
                    Effects::none()
                } else if c == 'j' {
                    self.move_selection(true);
                    Effects::none()
                } else if c == 'k' {
                    self.move_selection(false);
                    Effects::none()
                } else if c == 'n' {
                    let f = FormState::new(FormKind::Add, None, &self.config, &self.env);
                    self.form = Some(f);
                    self.mode = Mode::Form;
                    self.status = Some(
                        StatusLine {
                            text: String::from_str(
                                "New host: paste ssh command or fill fields; Tab to move, Enter to save.",
                            ),
                            kind: StatusKind::Info,
                        },
                    );
                    Effects::none()
                } else if c == 'u' {
                    let done = self.undo();
                    let ghost mid = *self;
                    if done {
                        self.status = Some(
                            StatusLine {
                                text: String::from_str("Undid last change."),
                                kind: StatusKind::Info,
                            },
                        );
                    } else {
                        self.status = Some(
                            StatusLine {
                                text: String::from_str("Nothing to undo."),
                                kind: StatusKind::Warn,
                            },
                        );
                    }
                    let fx = Effects { action: None, persist: done, reload: false };
                    proof {
                        assert(undo_post(*old(self), mid, fx.persist));
                        assert(eq_but_status(mid, *self));
                        assert(exists|m: App|
                            #![auto]
                            undo_post(*old(self), m, fx.persist) && eq_but_status(m, *self));
                    }
                    fx
                } else if c == 'y' {
                    match self.current_host() {
                        Some(h) => {
                            let host = h.duplicate();
                            self.duplicate_host(host);
                            Effects { action: None, persist: true, reload: false }
                        },
                        None => Effects::none(),
                    }
                } else if c == 'e' {
                    let host_copy: Option<Host> = match self.current_host() {
                        Some(h) => Some(h.duplicate()),
                        None => None,
                    };
                    match host_copy {
                        Some(h) => {
                            let f = FormState::new(
                                FormKind::Edit,
                                Some(&h),
                                &self.config,
                                &self.env,
                            );
                            self.form = Some(f);
                            self.mode = Mode::Form;
                        },
                        None => {
                            self.status = Some(
                                StatusLine {
                                    text: String::from_str("No host selected to edit."),
                                    kind: StatusKind::Warn,
                                },
                            );
                        },
                    }
                    Effects::none()
                } else if c == 'd' {
                    let have = match self.current_host() {
                        Some(_) => true,
                        None => false,
                    };
                    if have {
                        self.mode = Mode::Confirm;
                        self.confirm = Some(ConfirmKind::Delete);
                    }
                    Effects::none()
                } else if c == 'c' {
                    let have = match self.current_host() {
                        Some(_) => true,
                        None => false,
                    };
                    if have {
                        self.mode = Mode::Confirm;
                        self.confirm = Some(ConfirmKind::Connect { extra_cmd: Vec::new() });
                    }
                    Effects::none()
                } else if c == 'r' {
                    Effects { action: None, persist: false, reload: true }
                } else if c == 'C' {
                    self.dry_run = !self.dry_run;
                    self.status = Some(
                        StatusLine {
                            text: if self.dry_run {
                                String::from_str("Dry-run toggled ON.")
                            } else {
                                String::from_str("Dry-run toggled OFF.")
                            },
                            kind: StatusKind::Info,
                        },
                    );
                    Effects::none()
                } else {
                    Effects::none()
                }
            },
            Key::Down => {
                self.move_selection(true);
                Effects::none()
            },
            Key::Up => {
                self.move_selection(false);
                Effects::none()
            },
            Key::Enter => {
                let have = match self.current_host() {
                    Some(_) => true,
                    None => false,
                };
                if have {
                    self.connect(None)
                } else {
                    Effects::none()
                }
            },
            _ => Effects::none(),
        }
    }
}


/// How Form mode reacts: with the picker open, Enter and Escape go to the
/// form editor (Escape closes only the picker, keeping the field's text);
/// otherwise Escape discards the form, Enter submits it, and every other
/// key goes to the form editor. A failed submission keeps the form open
/// with the error as status.
pub open spec fn form_mode_step(o: App, key: KeyInput, n: App, fx: Effects) -> bool {
    match o.form {
        None => {
            &&& fx_none(fx)
            &&& n.mode == Mode::Normal
            &&& same_store(o, n)
            &&& same_list(o, n)
            &&& same_panels(o, n)
            &&& status_view(n.status) == status_view(o.status)
        },
        Some(f) => {
            let fv = f@;
            let picker_open = fv.index == form::bastion_idx(fv.kind) && fv.dropdown is Some;
            if (key.code is Enter || key.code is Esc) && picker_open {
                &&& fx_none(fx)
                &&& delegated_to_form(o, key, n)
            } else if key.code is Esc {
                &&& fx_none(fx)
                &&& n.mode == Mode::Normal
                &&& n.form is None
                &&& same_store(o, n)
                &&& same_list(o, n)
                &&& form_rest_same(o, n)
                &&& status_view(n.status) == status_view(o.status)
            } else if key.code is Enter {
                match form::spec_build(fv) {
                    Err(bf) => {
                        &&& fx_none(fx)
                        &&& eq_but_status(o, n)
                        &&& status_view(n.status) == Some(
                            (
                                crate::errors::spec_message(
                                    match bf {
                                        form::BuildFail::NoTarget => AppError::TargetMissing,
                                        form::BuildFail::Empty => AppError::NameHostEmpty,
                                        form::BuildFail::BadPort => AppError::PortNotNumeric,
                                    },
                                ),
                                StatusKind::Error,
                            ),
                        )
                    },
                    Ok(hv) => {
                        &&& fx.action is None && !fx.reload
                        &&& exists|mid: App, r: Result<bool, AppError>|
                            #![auto]
                            save_post(o, fv.kind, hv, mid, r) && (match r {
                                Ok(committed) => {
                                    &&& fx.persist == committed
                                    &&& n == (App { mode: Mode::Normal, form: None, ..mid })
                                },
                                Err(e) => {
                                    &&& !fx.persist
                                    &&& eq_but_status(mid, n)
                                    &&& (n.form is Some <==> o.form is Some)
                                    &&& status_view(n.status) == Some(
                                        (crate::errors::spec_message(e), StatusKind::Error),
                                    )
                                },
                            })
                    },
                }
            } else {
                fx_none(fx) && delegated_to_form(o, key, n)
            }
        },
    }
}

/// The key went to the form editor; everything else stands.
pub open spec fn delegated_to_form(o: App, key: KeyInput, n: App) -> bool {
    &&& n.mode == o.mode
    &&& same_store(o, n)
    &&& same_list(o, n)
    &&& n.form is Some
    &&& o.form is Some
    &&& form::form_step(o.form->0@, key, o.config@, n.form->0@)
    &&& form_rest_same(o, n)
    &&& status_view(n.status) == status_view(o.status)
}

impl App {
    /// Routes one key in Form mode.
    pub fn handle_form(&mut self, key: KeyInput) -> (fx: Effects)
        requires
            app_wf(*old(self)),
        ensures
            app_wf(*final(self)),
            form_mode_step(*old(self), key, *final(self), fx),
    {
        let form_exists = self.form.is_some();
        if !form_exists {
            self.mode = Mode::Normal;
            return Effects::none();
        }
        let picker_open = match &self.form {
            Some(f) => {
                let bi: usize = match f.kind {
                    FormKind::Add => 6,
                    FormKind::Edit => 5,
                };
                f.index == bi && f.bastion_dropdown.is_some()
            },
            None => false,
        };
        let is_enter = match key.code {
            Key::Enter => true,
            _ => false,
        };
        let is_esc = match key.code {
            Key::Esc => true,
            _ => false,
        };
        if (is_enter || is_esc) && picker_open {
            self.form_input(key);
            return Effects::none();
        }
        if is_esc {
            self.mode = Mode::Normal;
            self.form = None;
            return Effects::none();
        }
        if is_enter {
            let built = match &self.form {
                Some(f) => f.build_host(),
                None => Err(AppError::NameHostEmpty),
            };
            match built {
                Err(e) => {
                    self.status = Some(StatusLine { text: e.message(), kind: StatusKind::Error });
                    return Effects::none();
                },
                Ok(host) => {
                    let kind = match &self.form {
                        Some(f) => f.kind,
                        None => FormKind::Add,
                    };
                    let ghost hv = host@;
                    let saved = self.save_host(kind, host);
                    let ghost mid = *self;
                    match saved {
                        Ok(committed) => {
                            self.form = None;
                            self.mode = Mode::Normal;
                            let fx = Effects { action: None, persist: committed, reload: false };
                            proof {
                                assert(save_post(*old(self), kind, hv, mid, Ok(committed)));
                                assert(*self == (App { mode: Mode::Normal, form: None, ..mid }));
                                assert(exists|m: App, r: Result<bool, AppError>|
                                    #![auto]
                                    save_post(*old(self), kind, hv, m, r) && (match r {
                                        Ok(c2) => fx.persist == c2 && *self == (App {
                                            mode: Mode::Normal,
                                            form: None,
                                            ..m
                                        }),
                                        Err(e) => !fx.persist && eq_but_status(m, *self) && (
                                        self.form is Some <==> old(self).form is Some)
                                            && status_view(self.status) == Some(
                                            (crate::errors::spec_message(e), StatusKind::Error),
                                        ),
                                    }));
                                assert(history_of(self.history@).len() == self.history@.len());
                            }
                            return fx;
                        },
                        Err(e) => {
                            let msg = e.message();
                            let ghost ee = e;
                            self.status = Some(
                                StatusLine { text: msg, kind: StatusKind::Error },
                            );
                            let fx = Effects::none();
                            proof {
                                assert(save_post(*old(self), kind, hv, mid, Err(ee)));
                                assert(eq_but_status(mid, *self));
                                assert(exists|m: App, r: Result<bool, AppError>|
                                    #![auto]
                                    save_post(*old(self), kind, hv, m, r) && (match r {
                                        Ok(c2) => fx.persist == c2 && *self == (App {
                                            mode: Mode::Normal,
                                            form: None,
                                            ..m
                                        }),
                                        Err(e2) => !fx.persist && eq_but_status(m, *self) && (
                                        self.form is Some <==> old(self).form is Some)
                                            && status_view(self.status) == Some(
                                            (crate::errors::spec_message(e2), StatusKind::Error),
                                        ),
                                    }));
                            }
                            return fx;
                        },
                    }
                },
            }
        }
        self.form_input(key);
        Effects::none()
    }

    /// Hands one key to the form editor in place.
    fn form_input(&mut self, key: KeyInput)
        requires
            app_wf(*old(self)),
            old(self).form is Some,
        ensures
            app_wf(*final(self)),
            delegated_to_form(*old(self), key, *final(self)),
    {
        let config_copy = self.config.duplicate();
        match &mut self.form {
            Some(f) => {
                f.handle_input(key, &config_copy);
            },
            None => {},
        }
        proof {
            assert(history_of(self.history@).len() == self.history@.len());
        }
    }
}


/// The whole per-key transition: Ctrl+C quits immediately regardless of
/// state, each overlay swallows everything but its close keys, and
/// otherwise the active mode handles the key.
pub open spec fn key_step(o: App, key: KeyInput, n: App, fx: Effects) -> bool {
    if key.ctrl && key.code == Key::Char('c') {
        &&& same_session(o, n)
        &&& fx.action matches Some(AppAction::Quit)
        &&& !fx.persist
        &&& !fx.reload
    } else if o.show_about {
        &&& fx_none(fx)
        &&& eq_all_but_overlays(o, n)
        &&& n.show_help == o.show_help
        &&& status_view(n.status) == status_view(o.status)
        &&& n.show_about == !(key.code is Esc || key.code == Key::Char('q') || key.code
            == Key::Char('a'))
    } else if o.show_help {
        &&& fx_none(fx)
        &&& eq_all_but_overlays(o, n)
        &&& n.show_about == o.show_about
        &&& status_view(n.status) == status_view(o.status)
        &&& n.show_help == !(key.code is Esc || key.code == Key::Char('?') || key.code
            == Key::Char('h'))
    } else {
        match o.mode {
            Mode::Normal => normal_step(o, key, n, fx),
            Mode::Search => search_step(o, key, n, fx),
            Mode::Form => form_mode_step(o, key, n, fx),
            Mode::Confirm => confirm_step(o, key, n, fx),
            Mode::QuickConnect => quickconnect_step(o, key, n, fx),
        }
    }
}

impl App {
    /// Feeds one key press through the machine and reports what the
    /// caller must now do.
    pub fn on_key(&mut self, key: KeyInput) -> (fx: Effects)
        requires
            app_wf(*old(self)),
        ensures
            app_wf(*final(self)),
            key_step(*old(self), key, *final(self), fx),
    {
        let is_ctrl_c = key.ctrl && (match key.code {
            Key::Char(c) => c == 'c',
            _ => false,
        });
        if is_ctrl_c {
            return Effects { action: Some(AppAction::Quit), persist: false, reload: false };
        }
        if self.show_about {
            let closes = match key.code {
                Key::Esc => true,
                Key::Char(c) => c == 'q' || c == 'a',
                _ => false,
            };
            if closes {
                self.show_about = false;
            }
            return Effects::none();
        }
        if self.show_help {
            let closes = match key.code {
                Key::Esc => true,
                Key::Char(c) => c == '?' || c == 'h',
                _ => false,
            };
            if closes {
                self.show_help = false;
            }
            return Effects::none();
        }
        match self.mode {
            Mode::Normal => self.handle_normal(key),
            Mode::Search => self.handle_search(key),
            Mode::Form => self.handle_form(key),
            Mode::Confirm => self.handle_confirm(key),
            Mode::QuickConnect => self.handle_quickconnect(key),
        }
    }
}

/// After any committing mutation, Undo restores the registry to its state
/// just before that mutation: the mutation pushed a snapshot of the old
/// registry last, and Undo pops exactly that snapshot back.
pub proof fn lemma_undo_restores(o: App, mid: App, n: App, persisted: bool)
    requires
        ({
            let p = history_of(o.history@).push(o.config@);
            history_of(mid.history@) == (if p.len() > 20 {
                p.drop_first()
            } else {
                p
            })
        }),
        undo_post(mid, n, persisted),
    ensures
        persisted,
        n.config@ == o.config@,
{
    let p = history_of(o.history@).push(o.config@);
    assert(p.last() == o.config@);
    if p.len() > 20 {
        assert(history_of(mid.history@).last() == o.config@);
    }
    assert(history_of(mid.history@).len() > 0);
}

/// Undo on an empty history is a no-op: the registry stays as it is.
pub proof fn lemma_undo_empty_noop(o: App, n: App, persisted: bool)
    requires
        history_of(o.history@).len() == 0,
        undo_post(o, n, persisted),
    ensures
        !persisted,
        n.config@ == o.config@,
{
}

/// Quick-connecting twice with an identical spec yields exactly one new
/// host: the first call's created host structurally matches the spec, so
/// the second call finds it and creates nothing.
pub proof fn lemma_quick_connect_reuses(
    o: App,
    mid: App,
    n: App,
    sp: SshSpecV,
    fx1: Effects,
    fx2: Effects,
)
    requires
        quick_post(o, sp, mid, fx1),
        quick_post(mid, sp, n, fx2),
        fx1.persist,
    ensures
        n.config@.hosts.len() == o.config@.hosts.len() + 1,
        n.config@.hosts == mid.config@.hosts,
{
    assert(spec_matches(mid.config@.hosts[mid.config@.hosts.len() - 1], sp));
}

} // verus!








