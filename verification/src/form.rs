//! The multi-field form editor: labeled text fields with cursors, an
//! active-field index, and an embedded bastion picker. In Add mode a
//! leading free-text command field is re-parsed on every edit and its
//! structured fields are synced into the other fields.

use vstd::prelude::*;

use crate::errors::AppError;
use crate::fuzzy;
use crate::fuzzy::is_ranking;
use crate::keys::{Key, KeyInput};
use crate::model::{Config, ConfigV, Host, HostV};
use crate::parser;
use crate::parser::{spec_parse, SshSpec, SshSpecV};
use crate::text;
use crate::text::{
    spec_dec, spec_join, spec_non_empty, spec_parse_u16, spec_tokens, spec_trim, strs_of,
};

verus! {

/// Whether a form adds a new host or edits an existing one. Add mode has a
/// leading free-text command field.
#[derive(Clone, Copy, Debug, PartialEq, Eq, Structural)]
pub enum FormKind {
    Add,
    Edit,
}

/// One labeled text field with its cursor.
#[derive(Debug)]
pub struct FormField {
    pub label: &'static str,
    pub value: Vec<char>,
    pub cursor: usize,
}

/// The mathematical value of a [`FormField`].
#[verifier::ext_equal]
pub struct FieldV {
    pub label: Seq<char>,
    pub value: Seq<char>,
    pub cursor: int,
}

impl View for FormField {
    type V = FieldV;

    open spec fn view(&self) -> FieldV {
        FieldV { label: self.label@, value: self.value@, cursor: self.cursor as int }
    }
}

/// The embedded bastion picker: its live search text, the ranked candidate
/// indices, the highlighted row, and the name of the host under edit,
/// which is never offered as its own bastion.
#[derive(Debug)]
pub struct BastionDropdownState {
    pub search_filter: Vec<char>,
    pub filtered_indices: Vec<usize>,
    pub selected: usize,
    pub exclude_host: Option<String>,
}

/// The mathematical value of a [`BastionDropdownState`].
#[verifier::ext_equal]
pub struct DropdownV {
    pub search_filter: Seq<char>,
    pub filtered_indices: Seq<usize>,
    pub selected: int,
    pub exclude_host: Option<Seq<char>>,
}

impl View for BastionDropdownState {
    type V = DropdownV;

    open spec fn view(&self) -> DropdownV {
        DropdownV {
            search_filter: self.search_filter@,
            filtered_indices: self.filtered_indices@,
            selected: self.selected as int,
            exclude_host: text::opt_view(self.exclude_host),
        }
    }
}

impl BastionDropdownState {
    /// An empty-filter picker over the registry, excluding `exclude_host`.
    pub fn new(config: &Config, exclude_host: Option<&str>) -> (r: BastionDropdownState)
        ensures
            r@.search_filter.len() == 0,
            r@.selected == 0,
            r@.exclude_host == (match exclude_host {
                Some(s) => Some(s@),
                None => None::<Seq<char>>,
            }),
            is_ranking(config@.hosts, r@.search_filter, r@.exclude_host, r@.filtered_indices),
    {
        let mut state = BastionDropdownState {
            search_filter: Vec::new(),
            filtered_indices: Vec::new(),
            selected: 0,
            exclude_host: match exclude_host {
                Some(s) => Some(s.to_owned()),
                None => None,
            },
        };
        state.rebuild_filter(config);
        state
    }

    /// Re-ranks the candidates against the current search text and resets
    /// the highlighted row to the top.
    pub fn rebuild_filter(&mut self, config: &Config)
        ensures
            final(self)@.search_filter == old(self)@.search_filter,
            final(self)@.exclude_host == old(self)@.exclude_host,
            final(self)@.selected == 0,
            is_ranking(
                config@.hosts,
                final(self)@.search_filter,
                final(self)@.exclude_host,
                final(self)@.filtered_indices,
            ),
    {
        let ranked = fuzzy::ranked_indices(
            config,
            &self.search_filter,
            match &self.exclude_host {
                Some(s) => Some(s),
                None => None,
            },
        );
        self.filtered_indices = ranked;
        self.selected = 0;
        if self.selected >= self.filtered_indices.len() {
            self.selected = if self.filtered_indices.len() > 0 {
                self.filtered_indices.len() - 1
            } else {
                0
            };
        }
    }
}

/// What the rebuilt picker state looks like: the filter text mirrors the
/// bastion field, the highlight is reset, and the candidates are the
/// ranking of the registry against that text.
pub open spec fn dropdown_rebuilt(
    d: DropdownV,
    filter: Seq<char>,
    ex: Option<Seq<char>>,
    cfg: ConfigV,
) -> bool {
    &&& d.search_filter == filter
    &&& d.exclude_host == ex
    &&& d.selected == 0
    &&& is_ranking(cfg.hosts, filter, ex, d.filtered_indices)
}


/// The picker opened while editing a host never offers that host as its
/// own bastion: every candidate bears a different name.
pub proof fn lemma_picker_excludes_edited(
    cfg: ConfigV,
    d: DropdownV,
    filter: Seq<char>,
    edited: Seq<char>,
)
    requires
        dropdown_rebuilt(d, filter, Some(edited), cfg),
    ensures
        forall|k: int|
            0 <= k < d.filtered_indices.len() ==> cfg.hosts[#[trigger] d.filtered_indices[k] as int].name
                != edited,
{
    assert forall|k: int|
        0 <= k < d.filtered_indices.len() implies cfg.hosts[#[trigger] d.filtered_indices[k] as int].name
        != edited by {
        assert(!crate::fuzzy::is_excluded(
            cfg.hosts[d.filtered_indices[k] as int],
            Some(edited),
        ));
    }
}

/// The labels of the form's fields, in order, for each form kind.
pub open spec fn labels_of(kind: FormKind) -> Seq<Seq<char>> {
    let base = seq![
        "Name"@,
        "Host / IP"@,
        "User"@,
        "Port"@,
        "Key path"@,
        "Bastion"@,
        "Tags (comma)"@,
        "Options"@,
        "Remote command"@,
        "Description"@,
    ];
    if kind is Add {
        seq!["SSH command"@] + base
    } else {
        base
    }
}

/// The index of the bastion field for each form kind.
pub open spec fn bastion_idx(kind: FormKind) -> int {
    if kind is Add {
        6
    } else {
        5
    }
}

/// The form editor's state.
#[derive(Debug)]
pub struct FormState {
    pub kind: FormKind,
    pub fields: Vec<FormField>,
    pub index: usize,
    pub bastion_dropdown: Option<BastionDropdownState>,
    pub editing_host_name: Option<String>,
}

/// The mathematical value of a [`FormState`].
#[verifier::ext_equal]
pub struct FormStateV {
    pub kind: FormKind,
    pub fields: Seq<FieldV>,
    pub index: int,
    pub dropdown: Option<DropdownV>,
    pub editing: Option<Seq<char>>,
}

impl View for FormState {
    type V = FormStateV;

    open spec fn view(&self) -> FormStateV {
        FormStateV {
            kind: self.kind,
            fields: self.fields@.map_values(|f: FormField| f@),
            index: self.index as int,
            dropdown: match self.bastion_dropdown {
                Some(d) => Some(d@),
                None => None,
            },
            editing: text::opt_view(self.editing_host_name),
        }
    }
}

/// Form well-formedness: the field layout matches the kind, every cursor
/// sits within its field, and the active index is a field.
pub open spec fn spec_wf(fs: FormStateV) -> bool {
    &&& fs.fields.len() == labels_of(fs.kind).len()
    &&& forall|i: int| #![auto] 0 <= i < fs.fields.len() ==> fs.fields[i].label == labels_of(
        fs.kind,
    )[i]
    &&& forall|i: int|
        0 <= i < fs.fields.len() ==> 0 <= #[trigger] fs.fields[i].cursor
            <= fs.fields[i].value.len()
    &&& 0 <= fs.index < fs.fields.len()
    &&& match fs.dropdown {
        Some(d) => 0 <= d.selected <= d.filtered_indices.len(),
        None => true,
    }
}

/// A field holding `value` with the cursor at its end.
pub open spec fn field_at_end(label: Seq<char>, value: Seq<char>) -> FieldV {
    FieldV { label, value, cursor: value.len() as int }
}

fn mk_field(label: &'static str, value: Vec<char>) -> (r: FormField)
    ensures
        r@ == field_at_end(label@, value@),
{
    let cursor = value.len();
    FormField { label, value, cursor }
}

fn chars_of_opt(o: &Option<String>) -> (r: Vec<char>)
    ensures
        r@ == (match text::opt_view(*o) {
            Some(s) => s,
            None => Seq::<char>::empty(),
        }),
{
    match o {
        Some(s) => text::chars_of(s.as_str()),
        None => {
            let v: Vec<char> = Vec::new();
            proof {
                assert(v@ =~= Seq::<char>::empty());
            }
            v
        },
    }
}

/// The field contents a form starts from, given the host being edited (or
/// none): each plain field holds the host's matching datum rendered as
/// text, with the cursor at its end.
pub open spec fn spec_initial_values(h: HostV) -> Seq<Seq<char>> {
    seq![
        h.name,
        h.address,
        (match h.user {
            Some(u) => u,
            None => Seq::<char>::empty(),
        }),
        (match h.port {
            Some(p) => spec_dec(p as nat),
            None => Seq::<char>::empty(),
        }),
        (match h.key_path {
            Some(k) => k,
            None => Seq::<char>::empty(),
        }),
        (match h.bastion {
            Some(b) => b,
            None => Seq::<char>::empty(),
        }),
        spec_join(h.tags, seq![',']),
        spec_join(h.options, seq![' ']),
        (match h.remote_command {
            Some(r) => r,
            None => Seq::<char>::empty(),
        }),
        (match h.description {
            Some(d) => d,
            None => Seq::<char>::empty(),
        }),
    ]
}

/// The blank host a fresh Add form edits.
pub open spec fn spec_blank_host() -> HostV {
    HostV {
        name: Seq::empty(),
        address: Seq::empty(),
        user: None,
        port: None,
        key_path: None,
        tags: Seq::empty(),
        options: Seq::empty(),
        remote_command: None,
        bastion: None,
        description: None,
    }
}


/// A freshly opened form over `hv` (blank when none): index at the top, no
/// picker, and every field holding the host's rendered datum.
pub open spec fn fresh_form(
    f: FormStateV,
    kind: FormKind,
    hv: Option<HostV>,
    hosts: Seq<HostV>,
    env: crate::ssh::EnvV,
) -> bool {
    &&& spec_wf(f)
    &&& f.kind == kind
    &&& f.index == 0
    &&& f.dropdown is None
    &&& f.editing == (match hv {
        Some(h) => Some(h.name),
        None => None::<Seq<char>>,
    })
    &&& ({
        let h = match hv {
            Some(h2) => h2,
            None => spec_blank_host(),
        };
        let vals = spec_initial_values(h);
        let base: int = if kind is Add {
            1
        } else {
            0
        };
        &&& forall|i: int|
            0 <= i < 10 ==> f.fields[base + i] == field_at_end(labels_of(kind)[base + i], vals[i])
        &&& kind is Add ==> f.fields[0] == field_at_end(
            "SSH command"@,
            if h.address.len() == 0 {
                Seq::<char>::empty()
            } else {
                crate::ssh::spec_preview(h, hosts, None, None, env)
            },
        )
    })
}

impl FormState {
    /// A fresh form over `host` (blank when none), with the active index at
    /// the top and no picker open. In Add mode the leading command field
    /// holds the host's rendered command, or nothing for a blank host.
    pub fn new(kind: FormKind, host: Option<&Host>, config: &Config, env: &crate::ssh::EnvInfo)
        -> (r: FormState)
        ensures
            spec_wf(r@),
            fresh_form(
                r@,
                kind,
                (match host {
                    Some(h) => Some(h@),
                    None => None::<HostV>,
                }),
                config@.hosts,
                env@,
            ),
    {
        let blank = Host {
            name: String::new(),
            address: String::new(),
            user: None,
            port: None,
            key_path: None,
            tags: Vec::new(),
            options: Vec::new(),
            remote_command: None,
            bastion: None,
            description: None,
        };
        let h: &Host = match host {
            Some(hh) => hh,
            None => &blank,
        };
        proof {
            match host {
                Some(hh) => {
                    assert(h@ == hh@);
                },
                None => {
                    assert(h@.tags =~= spec_blank_host().tags);
                    assert(h@.options =~= spec_blank_host().options);
                    assert(h@ =~= spec_blank_host());
                },
            }
        }
        let mut fields: Vec<FormField> = Vec::new();
        if match kind {
            FormKind::Add => true,
            FormKind::Edit => false,
        } {
            let cmd_val: Vec<char> = if h.address.as_str().is_empty() {
                Vec::new()
            } else {
                let s = crate::ssh::command_preview(h, config, None, None, env);
                text::chars_of(s.as_str())
            };
            fields.push(mk_field("SSH command", cmd_val));
        }
        let name_v = text::chars_of(h.name.as_str());
        fields.push(mk_field("Name", name_v));
        let addr_v = text::chars_of(h.address.as_str());
        fields.push(mk_field("Host / IP", addr_v));
        fields.push(mk_field("User", chars_of_opt(&h.user)));
        let port_v: Vec<char> = match h.port {
            Some(p) => text::dec_chars(p as u128),
            None => Vec::new(),
        };
        fields.push(mk_field("Port", port_v));
        fields.push(mk_field("Key path", chars_of_opt(&h.key_path)));
        fields.push(mk_field("Bastion", chars_of_opt(&h.bastion)));
        let tags_v = join_string_vec(&h.tags, ',');
        fields.push(mk_field("Tags (comma)", tags_v));
        let opts_v = join_string_vec(&h.options, ' ');
        fields.push(mk_field("Options", opts_v));
        fields.push(mk_field("Remote command", chars_of_opt(&h.remote_command)));
        fields.push(mk_field("Description", chars_of_opt(&h.description)));
        let r = FormState {
            kind,
            fields,
            index: 0,
            bastion_dropdown: None,
            editing_host_name: match host {
                Some(hh) => Some(hh.name.clone()),
                None => None,
            },
        };
        proof {
            let hv = match host {
                Some(hh) => hh@,
                None => spec_blank_host(),
            };
            let vals = spec_initial_values(hv);
            let base: int = if kind is Add {
                1
            } else {
                0
            };
            assert(match hv.port {
                Some(p) => vals[3] == spec_dec(p as nat),
                None => vals[3].len() == 0,
            });
            assert forall|i: int| 0 <= i < 10 implies r@.fields[base + i] == field_at_end(
                labels_of(kind)[base + i],
                vals[i],
            ) by {
                assert(r@.fields[base + i] == r.fields@[base + i]@);
                assert(labels_of(kind)[base + i] == vals_label_helper(kind, base + i));
            }
            assert(spec_wf(r@));
            assert(fresh_form(
                r@,
                kind,
                (match host {
                    Some(h) => Some(h@),
                    None => None::<HostV>,
                }),
                config@.hosts,
                env@,
            ));
        }
        r
    }
}

/// The label at position `i` of the layout, spelled out for the solver.
pub open spec fn vals_label_helper(kind: FormKind, i: int) -> Seq<char> {
    labels_of(kind)[i]
}

/// Joins strings with a separator character between them.
fn join_string_vec(v: &Vec<String>, sep: char) -> (r: Vec<char>)
    ensures
        r@ == spec_join(strs_of(v@), seq![sep]),
{
    let mut parts: Vec<Vec<char>> = Vec::new();
    let mut i: usize = 0;
    while i < v.len()
        invariant
            i <= v@.len(),
            text::views_of(parts@) == strs_of(v@).take(i as int),
        decreases v@.len() - i,
    {
        let t = text::chars_of(v[i].as_str());
        proof {
            assert(text::views_of(parts@.push(t)) =~= text::views_of(parts@).push(v@[i as int]@));
            assert(strs_of(v@).take(i + 1 as int) =~= strs_of(v@).take(i as int).push(
                v@[i as int]@,
            ));
        }
        parts.push(t);
        i += 1;
    }
    proof {
        assert(strs_of(v@).take(v@.len() as int) =~= strs_of(v@));
    }
    let mut sv: Vec<char> = Vec::new();
    sv.push(sep);
    proof {
        assert(sv@ =~= seq![sep]);
    }
    text::join_chars(&parts, &sv)
}


/// The index of the first field labeled `label`, or `-1` when none is.
pub open spec fn label_index(fields: Seq<FieldV>, label: Seq<char>) -> int
    decreases fields.len(),
{
    if fields.len() == 0 {
        -1
    } else if fields[0].label == label {
        0
    } else {
        let r = label_index(fields.drop_first(), label);
        if r == -1 {
            -1
        } else {
            r + 1
        }
    }
}

/// What `label_index` finds: the first field bearing the label.
pub proof fn lemma_label_index(fields: Seq<FieldV>, label: Seq<char>)
    ensures
        label_index(fields, label) == -1 ==> forall|i: int|
            0 <= i < fields.len() ==> fields[i].label != label,
        label_index(fields, label) != -1 ==> {
            let r = label_index(fields, label);
            &&& 0 <= r < fields.len()
            &&& fields[r].label == label
            &&& forall|i: int| 0 <= i < r ==> fields[i].label != label
        },
    decreases fields.len(),
{
    if fields.len() == 0 {
    } else if fields[0].label == label {
    } else {
        lemma_label_index(fields.drop_first(), label);
        let r = label_index(fields.drop_first(), label);
        if r == -1 {
            assert forall|i: int| 0 <= i < fields.len() implies fields[i].label != label by {
                if i > 0 {
                    assert(fields.drop_first()[i - 1] == fields[i]);
                }
            }
        } else {
            assert(fields.drop_first()[r] == fields[r + 1]);
            assert forall|i: int| 0 <= i < r + 1 implies fields[i].label != label by {
                if i > 0 {
                    assert(fields.drop_first()[i - 1] == fields[i]);
                }
            }
        }
    }
}

/// Setting the first field with the given label to `value`, cursor at the
/// end; no change when no field bears the label.
pub open spec fn spec_set_label(fs: FormStateV, label: Seq<char>, value: Seq<char>) -> FormStateV {
    let i = label_index(fs.fields, label);
    if i == -1 {
        fs
    } else {
        FormStateV { fields: fs.fields.update(i, field_at_end(label, value)), ..fs }
    }
}

/// Setting a labeled field keeps the form well-formed.
pub proof fn lemma_set_label_wf(fs: FormStateV, label: Seq<char>, value: Seq<char>)
    requires
        spec_wf(fs),
    ensures
        spec_wf(spec_set_label(fs, label, value)),
{
    lemma_label_index(fs.fields, label);
}

impl FormState {
    /// Sets the first field labeled `label` to `value`, cursor at the end.
    pub fn set_field_value(&mut self, label: &str, value: String)
        ensures
            final(self)@ == spec_set_label(old(self)@, label@, value@),
    {
        proof {
            lemma_label_index(old(self)@.fields, label@);
        }
        let mut i: usize = 0;
        while i < self.fields.len()
            invariant
                *self == *old(self),
                i <= self@.fields.len(),
                forall|j: int| 0 <= j < i ==> self@.fields[j].label != label@,
            decreases self@.fields.len() - i,
        {
            if text::str_eq(self.fields[i].label, label) {
                proof {
                    lemma_label_index(self@.fields, label@);
                    assert(self@.fields[i as int] == self.fields@[i as int]@);
                    assert(self@.fields[i as int].label == label@);
                    let r = label_index(self@.fields, label@);
                    if r == -1 {
                        assert(false);
                    } else if r < i as int {
                        assert(self@.fields[r].label != label@);
                        assert(false);
                    } else if r > i as int {
                        assert(self@.fields[i as int].label != label@);
                        assert(false);
                    }
                    assert(label_index(self@.fields, label@) == i as int);
                }
                let lab = self.fields[i].label;
                let v = text::chars_of(value.as_str());
                self.fields[i] = mk_field(lab, v);
                proof {
                    assert(final(self)@.fields =~= old(self)@.fields.update(
                        i as int,
                        field_at_end(label@, value@),
                    ));
                    assert(final(self)@ =~= spec_set_label(old(self)@, label@, value@));
                }
                return ;
            }
            i += 1;
        }
        proof {
            lemma_label_index(self@.fields, label@);
            assert(label_index(self@.fields, label@) == -1);
        }
    }
}

/// The one-directional sync of a parsed connection spec into the form's
/// structured fields. The name is only filled in (as `user@address`) while
/// still blank.
pub open spec fn spec_apply(fs: FormStateV, sp: SshSpecV) -> FormStateV {
    let f1 = spec_set_label(fs, "Host / IP"@, sp.address);
    let f2 = match sp.user {
        Some(u) => {
            let a = spec_set_label(f1, "User"@, u);
            let ni = label_index(a.fields, "Name"@);
            if ni != -1 && spec_trim(a.fields[ni].value).len() == 0 {
                spec_set_label(a, "Name"@, u + seq!['@'] + sp.address)
            } else {
                a
            }
        },
        None => spec_set_label(f1, "User"@, Seq::<char>::empty()),
    };
    let f3 = spec_set_label(
        f2,
        "Port"@,
        match sp.port {
            Some(p) => spec_dec(p as nat),
            None => Seq::<char>::empty(),
        },
    );
    let f4 = spec_set_label(
        f3,
        "Key path"@,
        match sp.key_path {
            Some(k) => k,
            None => Seq::<char>::empty(),
        },
    );
    let f5 = spec_set_label(f4, "Options"@, spec_join(sp.options, seq![' ']));
    let f6 = spec_set_label(
        f5,
        "Bastion"@,
        match sp.bastion {
            Some(b) => b,
            None => Seq::<char>::empty(),
        },
    );
    spec_set_label(
        f6,
        "Remote command"@,
        match sp.remote_command {
            Some(rc) => rc,
            None => Seq::<char>::empty(),
        },
    )
}

/// Applying a parsed spec keeps the form well-formed.
pub proof fn lemma_apply_wf(fs: FormStateV, sp: SshSpecV)
    requires
        spec_wf(fs),
    ensures
        spec_wf(spec_apply(fs, sp)),
{
    let f1 = spec_set_label(fs, "Host / IP"@, sp.address);
    lemma_set_label_wf(fs, "Host / IP"@, sp.address);
    let f2 = match sp.user {
        Some(u) => {
            let a = spec_set_label(f1, "User"@, u);
            lemma_set_label_wf(f1, "User"@, u);
            let ni = label_index(a.fields, "Name"@);
            if ni != -1 && spec_trim(a.fields[ni].value).len() == 0 {
                lemma_set_label_wf(a, "Name"@, u + seq!['@'] + sp.address);
                spec_set_label(a, "Name"@, u + seq!['@'] + sp.address)
            } else {
                a
            }
        },
        None => {
            lemma_set_label_wf(f1, "User"@, Seq::<char>::empty());
            spec_set_label(f1, "User"@, Seq::<char>::empty())
        },
    };
    let v3 = match sp.port {
        Some(p) => spec_dec(p as nat),
        None => Seq::<char>::empty(),
    };
    lemma_set_label_wf(f2, "Port"@, v3);
    let f3 = spec_set_label(f2, "Port"@, v3);
    let v4 = match sp.key_path {
        Some(k) => k,
        None => Seq::<char>::empty(),
    };
    lemma_set_label_wf(f3, "Key path"@, v4);
    let f4 = spec_set_label(f3, "Key path"@, v4);
    lemma_set_label_wf(f4, "Options"@, spec_join(sp.options, seq![' ']));
    let f5 = spec_set_label(f4, "Options"@, spec_join(sp.options, seq![' ']));
    let v6 = match sp.bastion {
        Some(b) => b,
        None => Seq::<char>::empty(),
    };
    lemma_set_label_wf(f5, "Bastion"@, v6);
    let f6 = spec_set_label(f5, "Bastion"@, v6);
    let v7 = match sp.remote_command {
        Some(rc) => rc,
        None => Seq::<char>::empty(),
    };
    lemma_set_label_wf(f6, "Remote command"@, v7);
}

impl FormState {
    /// Looks up whether the Name field exists and is blank after trimming.
    fn name_blank(&self) -> (r: bool)
        ensures
            r == ({
                let ni = label_index(self@.fields, "Name"@);
                ni != -1 && spec_trim(self@.fields[ni].value).len() == 0
            }),
    {
        proof {
            lemma_label_index(self@.fields, "Name"@);
        }
        let mut i: usize = 0;
        while i < self.fields.len()
            invariant
                i <= self@.fields.len(),
                forall|j: int| 0 <= j < i ==> self@.fields[j].label != "Name"@,
            decreases self@.fields.len() - i,
        {
            if text::str_eq(self.fields[i].label, "Name") {
                proof {
                    lemma_label_index(self@.fields, "Name"@);
                    assert(self@.fields[i as int] == self.fields@[i as int]@);
                    assert(self@.fields[i as int].label == "Name"@);
                    let r = label_index(self@.fields, "Name"@);
                    if r == -1 {
                        assert(false);
                    } else if r < i as int {
                        assert(self@.fields[r].label != "Name"@);
                        assert(false);
                    } else if r > i as int {
                        assert(self@.fields[i as int].label != "Name"@);
                        assert(false);
                    }
                    assert(label_index(self@.fields, "Name"@) == i as int);
                }
                let t = text::trim_chars(&self.fields[i].value);
                return t.len() == 0;
            }
            i += 1;
        }
        proof {
            lemma_label_index(self@.fields, "Name"@);
        }
        false
    }

    /// Applies a parsed connection spec to the structured fields: the
    /// one-directional raw-text-to-fields sync.
    pub fn apply_spec(&mut self, spec: &SshSpec)
        ensures
            final(self)@ == spec_apply(old(self)@, spec@),
    {
        self.set_field_value("Host / IP", spec.address.clone());
        match &spec.user {
            Some(u) => {
                self.set_field_value("User", u.clone());
                if self.name_blank() {
                    let mut nm = text::chars_of(u.as_str());
                    nm.push('@');
                    let mut ad = text::chars_of(spec.address.as_str());
                    nm.append(&mut ad);
                    proof {
                        assert(nm@ =~= u@ + seq!['@'] + spec.address@);
                    }
                    self.set_field_value("Name", text::string_of(&nm));
                }
            },
            None => {
                self.set_field_value("User", String::new());
            },
        }
        match spec.port {
            Some(p) => {
                self.set_field_value("Port", text::dec_string(p as u128));
            },
            None => {
                self.set_field_value("Port", String::new());
            },
        }
        match &spec.key_path {
            Some(k) => {
                self.set_field_value("Key path", k.clone());
            },
            None => {
                self.set_field_value("Key path", String::new());
            },
        }
        let opts = join_string_vec(&spec.options, ' ');
        self.set_field_value("Options", text::string_of(&opts));
        match &spec.bastion {
            Some(b) => {
                self.set_field_value("Bastion", b.clone());
            },
            None => {
                self.set_field_value("Bastion", String::new());
            },
        }
        match &spec.remote_command {
            Some(rc) => {
                self.set_field_value("Remote command", rc.clone());
            },
            None => {
                self.set_field_value("Remote command", String::new());
            },
        }
    }
}


/// A field with its cursor snapped to the end.
pub open spec fn snap_field(f: FieldV) -> FieldV {
    FieldV { cursor: f.value.len() as int, ..f }
}

/// A field with `c` inserted at the cursor.
pub open spec fn insert_field(f: FieldV, c: char) -> FieldV {
    FieldV { label: f.label, value: f.value.insert(f.cursor, c), cursor: f.cursor + 1 }
}

/// A field with the character before the cursor removed, when there is one.
pub open spec fn delback_field(f: FieldV) -> FieldV {
    if f.cursor > 0 {
        FieldV { label: f.label, value: f.value.remove(f.cursor - 1), cursor: f.cursor - 1 }
    } else {
        f
    }
}

/// The form with field `i` replaced.
pub open spec fn upd_field(fs: FormStateV, i: int, f: FieldV) -> FormStateV {
    FormStateV { fields: fs.fields.update(i, f), ..fs }
}

/// Moving to the next field, wrapping, closing the picker when leaving the
/// bastion field, and snapping the entered field's cursor to its end.
pub open spec fn spec_next_state(fs: FormStateV) -> FormStateV {
    let base = if fs.index == bastion_idx(fs.kind) {
        FormStateV { dropdown: None, ..fs }
    } else {
        fs
    };
    let ni = if fs.index + 1 < fs.fields.len() {
        fs.index + 1
    } else {
        0
    };
    FormStateV { index: ni, fields: base.fields.update(ni, snap_field(base.fields[ni])), ..base }
}

/// Moving to the previous field, wrapping, with the same side effects.
pub open spec fn spec_prev_state(fs: FormStateV) -> FormStateV {
    let base = if fs.index == bastion_idx(fs.kind) {
        FormStateV { dropdown: None, ..fs }
    } else {
        fs
    };
    let ni = if fs.index == 0 {
        if fs.fields.len() > 0 {
            fs.fields.len() - 1
        } else {
            0
        }
    } else {
        fs.index - 1
    };
    FormStateV { index: ni, fields: base.fields.update(ni, snap_field(base.fields[ni])), ..base }
}

/// Which keys the open picker consumes; the rest fall through to the form.
pub open spec fn handled_in_dropdown(k: Key) -> bool {
    match k {
        Key::Esc => true,
        Key::Enter => true,
        Key::Up => true,
        Key::Down => true,
        Key::Backspace => true,
        Key::Char(_) => true,
        _ => false,
    }
}

/// How the open picker reacts to a consumed key: Escape closes it, Enter
/// commits the highlighted name into the bastion field, Up/Down move the
/// highlight with wraparound, editing keys edit the field and re-rank.
pub open spec fn dropdown_step(o: FormStateV, key: KeyInput, cfg: ConfigV, n: FormStateV) -> bool {
    let bi = bastion_idx(o.kind);
    let d = o.dropdown->0;
    match key.code {
        Key::Esc => n == FormStateV { dropdown: None, ..o },
        Key::Enter => {
            if 0 <= d.selected < d.filtered_indices.len() && (
            d.filtered_indices[d.selected] as int) < cfg.hosts.len() {
                let nm = cfg.hosts[d.filtered_indices[d.selected] as int].name;
                n == FormStateV {
                    fields: o.fields.update(bi, field_at_end(o.fields[bi].label, nm)),
                    dropdown: None,
                    ..o
                }
            } else {
                n == FormStateV { dropdown: None, ..o }
            }
        },
        Key::Up => {
            let ns: int = if d.selected > 0 {
                d.selected - 1
            } else if d.filtered_indices.len() > 0 {
                d.filtered_indices.len() - 1
            } else {
                0
            };
            n == FormStateV { dropdown: Some(DropdownV { selected: ns, ..d }), ..o }
        },
        Key::Down => {
            let ns: int = if d.selected + 1 < d.filtered_indices.len() {
                d.selected + 1
            } else {
                0
            };
            n == FormStateV { dropdown: Some(DropdownV { selected: ns, ..d }), ..o }
        },
        Key::Backspace => {
            let f2 = delback_field(o.fields[bi]);
            &&& n.kind == o.kind
            &&& n.index == o.index
            &&& n.editing == o.editing
            &&& n.fields == o.fields.update(bi, f2)
            &&& n.dropdown is Some
            &&& dropdown_rebuilt(n.dropdown->0, f2.value, d.exclude_host, cfg)
        },
        Key::Char(c) => {
            if c == ' ' && key.nomod {
                n == FormStateV { dropdown: None, ..o }
            } else if key.plain {
                let f2 = insert_field(o.fields[bi], c);
                &&& n.kind == o.kind
                &&& n.index == o.index
                &&& n.editing == o.editing
                &&& n.fields == o.fields.update(bi, f2)
                &&& n.dropdown is Some
                &&& dropdown_rebuilt(n.dropdown->0, f2.value, d.exclude_host, cfg)
            } else {
                n == o
            }
        },
        _ => n == o,
    }
}

/// How the form itself reacts to a key: navigation, cursor movement, and
/// character editing of the active field.
pub open spec fn main_arm(o: FormStateV, key: KeyInput) -> FormStateV {
    let f = o.fields[o.index];
    match key.code {
        Key::Tab => spec_next_state(o),
        Key::Down => spec_next_state(o),
        Key::BackTab => spec_prev_state(o),
        Key::Up => spec_prev_state(o),
        Key::Char(c) => upd_field(o, o.index, insert_field(f, c)),
        Key::Left => if f.cursor > 0 {
            upd_field(o, o.index, FieldV { cursor: f.cursor - 1, ..f })
        } else {
            o
        },
        Key::Right => if f.cursor < f.value.len() {
            upd_field(o, o.index, FieldV { cursor: f.cursor + 1, ..f })
        } else {
            o
        },
        Key::Backspace => upd_field(o, o.index, delback_field(f)),
        _ => o,
    }
}

/// One form key preserves well-formedness.
pub proof fn lemma_main_arm_wf(o: FormStateV, key: KeyInput)
    requires
        spec_wf(o),
    ensures
        spec_wf(main_arm(o, key)),
{
    let n = main_arm(o, key);
    match key.code {
        Key::Tab | Key::Down | Key::BackTab | Key::Up => {
            assert forall|i: int| #![auto] 0 <= i < n.fields.len() implies n.fields[i].label
                == labels_of(n.kind)[i] && 0 <= n.fields[i].cursor <= n.fields[i].value.len() by {
                if i != n.index {
                    assert(n.fields[i] == o.fields[i]);
                }
            }
        },
        Key::Char(_) | Key::Left | Key::Right | Key::Backspace => {
            assert forall|i: int| #![auto] 0 <= i < n.fields.len() implies n.fields[i].label
                == labels_of(n.kind)[i] && 0 <= n.fields[i].cursor <= n.fields[i].value.len() by {
                if i != o.index {
                    assert(n.fields[i] == o.fields[i]);
                }
            }
        },
        _ => {},
    }
}

/// The live re-parse of the Add form's command field: after an edit while
/// the command field is active, a parseable command overwrites the
/// structured fields.
pub open spec fn sync_after(m: FormStateV) -> FormStateV {
    if m.kind is Add && m.index == 0 && m.fields.len() > 0 {
        match spec_non_empty(m.fields[0].value) {
            Some(s) => match spec_parse(s) {
                Some(sp) => spec_apply(m, sp),
                None => m,
            },
            None => m,
        }
    } else {
        m
    }
}

/// The whole form-editor transition for one key press.
pub open spec fn form_step(o: FormStateV, key: KeyInput, cfg: ConfigV, n: FormStateV) -> bool {
    let bi = bastion_idx(o.kind);
    if o.index == bi && o.dropdown is Some && handled_in_dropdown(key.code) {
        dropdown_step(o, key, cfg, n)
    } else if key.code == Key::Char(' ') && o.index == bi {
        match o.dropdown {
            Some(_) => n == FormStateV { dropdown: None, ..o },
            None => {
                &&& n.kind == o.kind
                &&& n.index == o.index
                &&& n.editing == o.editing
                &&& n.fields == o.fields
                &&& n.dropdown is Some
                &&& dropdown_rebuilt(n.dropdown->0, o.fields[bi].value, o.editing, cfg)
            },
        }
    } else {
        n == sync_after(main_arm(o, key))
    }
}

fn dup_chars(v: &Vec<char>) -> (r: Vec<char>)
    ensures
        r@ == v@,
{
    let r = text::subvec(v, 0, v.len());
    proof {
        assert(r@ =~= v@);
    }
    r
}

fn copy_usize_vec(v: &Vec<usize>) -> (r: Vec<usize>)
    ensures
        r@ == v@,
{
    let mut out: Vec<usize> = Vec::new();
    let mut i: usize = 0;
    while i < v.len()
        invariant
            i <= v@.len(),
            out@ == v@.take(i as int),
        decreases v@.len() - i,
    {
        out.push(v[i]);
        proof {
            assert(out@ =~= v@.take(i + 1 as int));
        }
        i += 1;
    }
    proof {
        assert(out@ =~= v@);
    }
    out
}

fn field_insert(f: &FormField, c: char) -> (r: FormField)
    requires
        f@.cursor <= f@.value.len(),
    ensures
        r@ == insert_field(f@, c),
{
    let mut v = dup_chars(&f.value);
    v.insert(f.cursor, c);
    let nl = v.len();
    proof {
        assert(nl == f@.value.len() + 1);
    }
    FormField { label: f.label, value: v, cursor: f.cursor + 1 }
}

fn field_delback(f: &FormField) -> (r: FormField)
    requires
        f@.cursor <= f@.value.len(),
    ensures
        r@ == delback_field(f@),
{
    if f.cursor > 0 {
        let mut v = dup_chars(&f.value);
        v.remove(f.cursor - 1);
        FormField { label: f.label, value: v, cursor: f.cursor - 1 }
    } else {
        FormField { label: f.label, value: dup_chars(&f.value), cursor: f.cursor }
    }
}

fn field_with_cursor(f: &FormField, cursor: usize) -> (r: FormField)
    ensures
        r@ == (FieldV { cursor: cursor as int, ..f@ }),
{
    FormField { label: f.label, value: dup_chars(&f.value), cursor }
}

impl FormState {
    /// Moves to the next field, wrapping; entering a field snaps its cursor
    /// to the end, and leaving the bastion field closes the picker.
    pub fn next(&mut self)
        requires
            spec_wf(old(self)@),
        ensures
            spec_wf(final(self)@),
            final(self)@ == spec_next_state(old(self)@),
    {
        let bi: usize = match self.kind {
            FormKind::Add => 6,
            FormKind::Edit => 5,
        };
        if self.index == bi {
            self.bastion_dropdown = None;
        }
        let ni: usize = if self.index + 1 < self.fields.len() {
            self.index + 1
        } else {
            0
        };
        self.index = ni;
        let len = self.fields[ni].value.len();
        let f2 = field_with_cursor(&self.fields[ni], len);
        self.fields[ni] = f2;
        proof {
            assert(final(self)@.fields =~= spec_next_state(old(self)@).fields);
            assert(final(self)@ =~= spec_next_state(old(self)@));
        }
    }

    /// Moves to the previous field, wrapping, with the same side effects.
    pub fn prev(&mut self)
        requires
            spec_wf(old(self)@),
        ensures
            spec_wf(final(self)@),
            final(self)@ == spec_prev_state(old(self)@),
    {
        let bi: usize = match self.kind {
            FormKind::Add => 6,
            FormKind::Edit => 5,
        };
        if self.index == bi {
            self.bastion_dropdown = None;
        }
        let ni: usize = if self.index == 0 {
            if self.fields.len() > 0 {
                self.fields.len() - 1
            } else {
                0
            }
        } else {
            self.index - 1
        };
        self.index = ni;
        let len = self.fields[ni].value.len();
        let f2 = field_with_cursor(&self.fields[ni], len);
        self.fields[ni] = f2;
        proof {
            assert(final(self)@.fields =~= spec_prev_state(old(self)@).fields);
            assert(final(self)@ =~= spec_prev_state(old(self)@));
        }
    }

    /// Opens the bastion picker over the registry, seeded with the bastion
    /// field's current text and excluding the host under edit — which
    /// therefore never appears among the candidates.
    pub fn open_bastion_dropdown(&mut self, config: &Config)
        requires
            spec_wf(old(self)@),
        ensures
            spec_wf(final(self)@),
            final(self)@.kind == old(self)@.kind,
            final(self)@.index == old(self)@.index,
            final(self)@.editing == old(self)@.editing,
            final(self)@.fields == old(self)@.fields,
            final(self)@.dropdown is Some,
            dropdown_rebuilt(
                final(self)@.dropdown->0,
                old(self)@.fields[bastion_idx(old(self)@.kind)].value,
                old(self)@.editing,
                config@,
            ),
    {
        let bi: usize = match self.kind {
            FormKind::Add => 6,
            FormKind::Edit => 5,
        };
        let mut dropdown = BastionDropdownState::new(
            config,
            match &self.editing_host_name {
                Some(s) => Some(s.as_str()),
                None => None,
            },
        );
        dropdown.search_filter = dup_chars(&self.fields[bi].value);
        dropdown.rebuild_filter(config);
        self.bastion_dropdown = Some(dropdown);
    }

    /// Routes one key press through the form editor: the open picker first,
    /// then navigation and text editing, then the Add-mode live re-parse of
    /// the command field.
    #[verifier::rlimit(100)]
    pub fn handle_input(&mut self, key: KeyInput, config: &Config)
        requires
            spec_wf(old(self)@),
        ensures
            spec_wf(final(self)@),
            form_step(old(self)@, key, config@, final(self)@),
    {
        let bi: usize = match self.kind {
            FormKind::Add => 6,
            FormKind::Edit => 5,
        };
        let is_bastion = self.index == bi;
        let in_dropdown = is_bastion && self.bastion_dropdown.is_some() && (match key.code {
            Key::Esc => true,
            Key::Enter => true,
            Key::Up => true,
            Key::Down => true,
            Key::Backspace => true,
            Key::Char(_) => true,
            _ => false,
        });
        if in_dropdown {
            match key.code {
                Key::Esc => {
                    self.bastion_dropdown = None;
                    proof {
                        assert(self@ =~= (FormStateV { dropdown: None, ..old(self)@ }));
                    }
                },
                Key::Enter => {
                    let mut newval: Option<Vec<char>> = None;
                    match &self.bastion_dropdown {
                        Some(dd) => {
                            if dd.selected < dd.filtered_indices.len() {
                                let idx = dd.filtered_indices[dd.selected];
                                proof {
                                    assert(config@.hosts.len() == config.hosts@.len());
                                }
                                if idx < config.hosts.len() {
                                    newval = Some(text::chars_of(config.hosts[idx].name.as_str()));
                                    proof {
                                        assert(config@.hosts[idx as int].name == config.hosts@[
                                            idx as int
                                        ]@.name);
                                    }
                                }
                            }
                        },
                        None => {},
                    }
                    match newval {
                        Some(nv) => {
                            let lab = self.fields[bi].label;
                            self.fields[bi] = mk_field(lab, nv);
                            self.bastion_dropdown = None;
                            proof {
                                let d = old(self)@.dropdown->0;
                                let nm = config@.hosts[d.filtered_indices[d.selected] as int].name;
                                assert(self@.fields =~= old(self)@.fields.update(
                                    bi as int,
                                    field_at_end(old(self)@.fields[bi as int].label, nm),
                                ));
                                assert(self@ =~= (FormStateV {
                                    fields: old(self)@.fields.update(
                                        bi as int,
                                        field_at_end(old(self)@.fields[bi as int].label, nm),
                                    ),
                                    dropdown: None,
                                    ..old(self)@
                                }));
                            }
                        },
                        None => {
                            self.bastion_dropdown = None;
                            proof {
                                assert(self@ =~= (FormStateV { dropdown: None, ..old(self)@ }));
                            }
                        },
                    }
                },
                Key::Up => {
                    match &self.bastion_dropdown {
                        Some(dd) => {
                            let ns: usize = if dd.selected > 0 {
                                dd.selected - 1
                            } else if dd.filtered_indices.len() > 0 {
                                dd.filtered_indices.len() - 1
                            } else {
                                0
                            };
                            let nd = BastionDropdownState {
                                search_filter: dup_chars(&dd.search_filter),
                                filtered_indices: copy_usize_vec(&dd.filtered_indices),
                                selected: ns,
                                exclude_host: crate::model::clone_opt_string(&dd.exclude_host),
                            };
                            proof {
                                assert(nd@ =~= (DropdownV {
                                    selected: ns as int,
                                    ..old(self)@.dropdown->0
                                }));
                            }
                            self.bastion_dropdown = Some(nd);
                            proof {
                                assert(self@ =~= (FormStateV {
                                    dropdown: Some(nd@),
                                    ..old(self)@
                                }));
                            }
                        },
                        None => {},
                    }
                },
                Key::Down => {
                    match &self.bastion_dropdown {
                        Some(dd) => {
                            let n_cand = dd.filtered_indices.len();
                            let ns: usize = if n_cand > 0 && dd.selected < n_cand - 1 {
                                dd.selected + 1
                            } else {
                                0
                            };
                            let nd = BastionDropdownState {
                                search_filter: dup_chars(&dd.search_filter),
                                filtered_indices: copy_usize_vec(&dd.filtered_indices),
                                selected: ns,
                                exclude_host: crate::model::clone_opt_string(&dd.exclude_host),
                            };
                            proof {
                                assert(nd@ =~= (DropdownV {
                                    selected: ns as int,
                                    ..old(self)@.dropdown->0
                                }));
                            }
                            self.bastion_dropdown = Some(nd);
                            proof {
                                assert(self@ =~= (FormStateV {
                                    dropdown: Some(nd@),
                                    ..old(self)@
                                }));
                            }
                        },
                        None => {},
                    }
                },
                Key::Backspace => {
                    let f2 = field_delback(&self.fields[bi]);
                    self.fields[bi] = f2;
                    proof {
                        assert(self@.fields =~= old(self)@.fields.update(
                            bi as int,
                            delback_field(old(self)@.fields[bi as int]),
                        ));
                    }
                    self.resync_dropdown(config, bi);
                },
                Key::Char(c) => {
                    if c == ' ' && key.nomod {
                        self.bastion_dropdown = None;
                        proof {
                            assert(self@ =~= (FormStateV { dropdown: None, ..old(self)@ }));
                        }
                    } else if key.plain {
                        let f2 = field_insert(&self.fields[bi], c);
                        self.fields[bi] = f2;
                        proof {
                            assert(self@.fields =~= old(self)@.fields.update(
                                bi as int,
                                insert_field(old(self)@.fields[bi as int], c),
                            ));
                        }
                        self.resync_dropdown(config, bi);
                    }
                },
                _ => {},
            }
            proof {
                assert(dropdown_step(old(self)@, key, config@, self@));
                assert(spec_wf(self@));
            }
            return ;
        }
        let is_space = match key.code {
            Key::Char(c) => c == ' ',
            _ => false,
        };
        if is_space && is_bastion {
            if self.bastion_dropdown.is_some() {
                self.bastion_dropdown = None;
                proof {
                    assert(self@ =~= (FormStateV { dropdown: None, ..old(self)@ }));
                }
            } else {
                self.open_bastion_dropdown(config);
            }
            return ;
        }
        match key.code {
            Key::Tab => {
                self.next();
            },
            Key::Down => {
                self.next();
            },
            Key::BackTab => {
                self.prev();
            },
            Key::Up => {
                self.prev();
            },
            Key::Char(c) => {
                let f2 = field_insert(&self.fields[self.index], c);
                let i = self.index;
                self.fields[i] = f2;
                proof {
                    assert(self@.fields =~= old(self)@.fields.update(
                        i as int,
                        insert_field(old(self)@.fields[i as int], c),
                    ));
                    assert(self@ =~= main_arm(old(self)@, key));
                }
            },
            Key::Left => {
                let cur = self.fields[self.index].cursor;
                if cur > 0 {
                    let f2 = field_with_cursor(&self.fields[self.index], cur - 1);
                    let i = self.index;
                    self.fields[i] = f2;
                    proof {
                        assert(self@.fields =~= old(self)@.fields.update(i as int, f2@));
                        assert(self@ =~= main_arm(old(self)@, key));
                    }
                } else {
                    proof {
                        assert(self@ =~= main_arm(old(self)@, key));
                    }
                }
            },
            Key::Right => {
                let cur = self.fields[self.index].cursor;
                if cur < self.fields[self.index].value.len() {
                    let f2 = field_with_cursor(&self.fields[self.index], cur + 1);
                    let i = self.index;
                    self.fields[i] = f2;
                    proof {
                        assert(self@.fields =~= old(self)@.fields.update(i as int, f2@));
                        assert(self@ =~= main_arm(old(self)@, key));
                    }
                } else {
                    proof {
                        assert(self@ =~= main_arm(old(self)@, key));
                    }
                }
            },
            Key::Backspace => {
                let f2 = field_delback(&self.fields[self.index]);
                let i = self.index;
                self.fields[i] = f2;
                proof {
                    assert(self@.fields =~= old(self)@.fields.update(
                        i as int,
                        delback_field(old(self)@.fields[i as int]),
                    ));
                    assert(self@ =~= main_arm(old(self)@, key));
                }
            },
            _ => {
                proof {
                    assert(self@ =~= main_arm(old(self)@, key));
                }
            },
        }
        proof {
            assert(self@ == main_arm(old(self)@, key));
            lemma_main_arm_wf(old(self)@, key);
            assert(spec_wf(self@));
        }
        let ghost mid = self@;
        if match self.kind {
            FormKind::Add => true,
            FormKind::Edit => false,
        } && self.index == 0 {
            let t = text::non_empty_chars(&self.fields[0].value);
            match t {
                Some(tv) => {
                    let s = text::string_of(&tv);
                    let parsed = parser::parse_ssh_spec(s.as_str());
                    match parsed {
                        Ok(sp) => {
                            proof {
                                lemma_apply_wf(mid, sp@);
                            }
                            self.apply_spec(&sp);
                        },
                        Err(_) => {},
                    }
                },
                None => {},
            }
        }
        proof {
            assert(self@ == sync_after(mid));
        }
    }

    /// Rebuilds the open picker against the bastion field's current text.
    fn resync_dropdown(&mut self, config: &Config, bi: usize)
        requires
            bi < old(self)@.fields.len(),
            old(self)@.dropdown is Some,
        ensures
            final(self)@.kind == old(self)@.kind,
            final(self)@.index == old(self)@.index,
            final(self)@.editing == old(self)@.editing,
            final(self)@.fields == old(self)@.fields,
            final(self)@.dropdown is Some,
            dropdown_rebuilt(
                final(self)@.dropdown->0,
                old(self)@.fields[bi as int].value,
                old(self)@.dropdown->0.exclude_host,
                config@,
            ),
    {
        match &self.bastion_dropdown {
            Some(dd) => {
                let mut nd = BastionDropdownState {
                    search_filter: dup_chars(&self.fields[bi].value),
                    filtered_indices: Vec::new(),
                    selected: 0,
                    exclude_host: crate::model::clone_opt_string(&dd.exclude_host),
                };
                nd.rebuild_filter(config);
                self.bastion_dropdown = Some(nd);
            },
            None => {},
        }
    }
}


/// How form submission can fail.
pub enum BuildFail {
    /// The command field was set but held no target.
    NoTarget,
    /// Both the name and the host field were blank.
    Empty,
    /// The port field did not read as an unsigned 16-bit number.
    BadPort,
}

/// The comma-separated tag entries, trimmed, with empties dropped.
pub open spec fn spec_filter_tags(parts: Seq<Seq<char>>) -> Seq<Seq<char>>
    decreases parts.len(),
{
    if parts.len() == 0 {
        Seq::empty()
    } else {
        let rest = spec_filter_tags(parts.drop_first());
        let t = spec_trim(parts[0]);
        if t.len() > 0 {
            seq![t] + rest
        } else {
            rest
        }
    }
}

/// What submitting the form yields: all fields trimmed; the name defaults
/// to the host, the host to the parsed command's address; both blank is an
/// error; a non-blank port must parse; every optional field falls back to
/// the parsed command's value when blank.
pub open spec fn spec_build(fs: FormStateV) -> Result<HostV, BuildFail> {
    let base: int = if fs.kind is Add {
        1
    } else {
        0
    };
    let name_f = spec_trim(fs.fields[base].value);
    let host_f = spec_trim(fs.fields[base + 1].value);
    let user_f = spec_trim(fs.fields[base + 2].value);
    let port_f = spec_trim(fs.fields[base + 3].value);
    let key_f = spec_trim(fs.fields[base + 4].value);
    let bastion_f = spec_trim(fs.fields[base + 5].value);
    let tags_f = spec_trim(fs.fields[base + 6].value);
    let opts_f = spec_trim(fs.fields[base + 7].value);
    let remote_f = spec_trim(fs.fields[base + 8].value);
    let desc_f = spec_trim(fs.fields[base + 9].value);
    let raw: Result<Option<SshSpecV>, BuildFail> = if fs.kind is Add && spec_non_empty(
        fs.fields[0].value,
    ) is Some {
        match spec_parse(spec_non_empty(fs.fields[0].value)->0) {
            Some(sp) => Ok(Some(sp)),
            None => Err(BuildFail::NoTarget),
        }
    } else {
        Ok(None)
    };
    match raw {
        Err(e) => Err(e),
        Ok(rs) => {
            let host_str = if host_f.len() > 0 {
                host_f
            } else {
                match rs {
                    Some(sp) => sp.address,
                    None => Seq::empty(),
                }
            };
            let name = if name_f.len() > 0 {
                name_f
            } else {
                host_str
            };
            if name.len() == 0 || host_str.len() == 0 {
                Err(BuildFail::Empty)
            } else {
                let port: Result<Option<u16>, BuildFail> = if port_f.len() > 0 {
                    match spec_parse_u16(port_f) {
                        Some(p) => Ok(Some(p)),
                        None => Err(BuildFail::BadPort),
                    }
                } else {
                    Ok(
                        match rs {
                            Some(sp) => sp.port,
                            None => None,
                        },
                    )
                };
                match port {
                    Err(e) => Err(e),
                    Ok(port) => Ok(
                        HostV {
                            name,
                            address: host_str,
                            user: if user_f.len() > 0 {
                                Some(user_f)
                            } else {
                                match rs {
                                    Some(sp) => sp.user,
                                    None => None,
                                }
                            },
                            port,
                            key_path: if key_f.len() > 0 {
                                Some(key_f)
                            } else {
                                match rs {
                                    Some(sp) => sp.key_path,
                                    None => None,
                                }
                            },
                            tags: spec_filter_tags(text::spec_split_on(tags_f, ',')),
                            options: spec_tokens(opts_f),
                            remote_command: if remote_f.len() > 0 {
                                Some(remote_f)
                            } else {
                                match rs {
                                    Some(sp) => sp.remote_command,
                                    None => None,
                                }
                            },
                            bastion: if bastion_f.len() > 0 {
                                Some(bastion_f)
                            } else {
                                match rs {
                                    Some(sp) => sp.bastion,
                                    None => None,
                                }
                            },
                            description: if desc_f.len() > 0 {
                                Some(desc_f)
                            } else {
                                None
                            },
                        },
                    ),
                }
            }
        },
    }
}

fn opt_from_chars(t: &Vec<char>, fallback: Option<String>) -> (r: Option<String>)
    ensures
        text::opt_view(r) == (if t@.len() > 0 {
            Some(t@)
        } else {
            text::opt_view(fallback)
        }),
{
    if t.len() > 0 {
        Some(text::string_of(t))
    } else {
        fallback
    }
}

impl FormState {
    /// Builds the host this form describes, or the first reason it cannot.
    pub fn build_host(&self) -> (r: Result<Host, AppError>)
        requires
            spec_wf(self@),
        ensures
            ({
                let res = spec_build(self@);
                match res {
                    Ok(hv) => r is Ok && r->Ok_0@ == hv,
                    Err(BuildFail::NoTarget) => r is Err && r->Err_0 == AppError::TargetMissing,
                    Err(BuildFail::Empty) => r is Err && r->Err_0 == AppError::NameHostEmpty,
                    Err(BuildFail::BadPort) => r is Err && r->Err_0 == AppError::PortNotNumeric,
                }
            }),
    {
        let base: usize = match self.kind {
            FormKind::Add => 1,
            FormKind::Edit => 0,
        };
        let name_f = text::trim_chars(&self.fields[base].value);
        let host_f = text::trim_chars(&self.fields[base + 1].value);
        let user_f = text::trim_chars(&self.fields[base + 2].value);
        let port_f = text::trim_chars(&self.fields[base + 3].value);
        let key_f = text::trim_chars(&self.fields[base + 4].value);
        let bastion_f = text::trim_chars(&self.fields[base + 5].value);
        let tags_f = text::trim_chars(&self.fields[base + 6].value);
        let opts_f = text::trim_chars(&self.fields[base + 7].value);
        let remote_f = text::trim_chars(&self.fields[base + 8].value);
        let desc_f = text::trim_chars(&self.fields[base + 9].value);
        let is_add = match self.kind {
            FormKind::Add => true,
            FormKind::Edit => false,
        };
        let raw: Option<SshSpec> = if is_add {
            match text::non_empty_chars(&self.fields[0].value) {
                Some(tv) => {
                    let s = text::string_of(&tv);
                    match parser::parse_ssh_spec(s.as_str()) {
                        Ok(sp) => Some(sp),
                        Err(e) => {
                            proof {
                                assert(spec_build(self@) == Err::<HostV, BuildFail>(
                                    BuildFail::NoTarget,
                                ));
                            }
                            return Err(e);
                        },
                    }
                },
                None => None,
            }
        } else {
            None
        };
        let host_str: Vec<char> = if host_f.len() > 0 {
            host_f
        } else {
            match &raw {
                Some(sp) => text::chars_of(sp.address.as_str()),
                None => Vec::new(),
            }
        };
        let name: Vec<char> = if name_f.len() > 0 {
            name_f
        } else {
            dup_chars(&host_str)
        };
        if name.len() == 0 || host_str.len() == 0 {
            return Err(AppError::NameHostEmpty);
        }
        let port: Option<u16> = if port_f.len() > 0 {
            match text::parse_u16(&port_f) {
                Some(p) => Some(p),
                None => {
                    return Err(AppError::PortNotNumeric);
                },
            }
        } else {
            match &raw {
                Some(sp) => sp.port,
                None => None,
            }
        };
        let user = opt_from_chars(
            &user_f,
            match &raw {
                Some(sp) => crate::model::clone_opt_string(&sp.user),
                None => None,
            },
        );
        let key_path = opt_from_chars(
            &key_f,
            match &raw {
                Some(sp) => crate::model::clone_opt_string(&sp.key_path),
                None => None,
            },
        );
        let bastion = opt_from_chars(
            &bastion_f,
            match &raw {
                Some(sp) => crate::model::clone_opt_string(&sp.bastion),
                None => None,
            },
        );
        let remote_command = opt_from_chars(
            &remote_f,
            match &raw {
                Some(sp) => crate::model::clone_opt_string(&sp.remote_command),
                None => None,
            },
        );
        let description = opt_from_chars(&desc_f, None);
        // Tags: split on commas, trim each entry, drop the empties.
        let tag_parts = text::split_on(&tags_f, ',');
        let ghost pviews = text::views_of(tag_parts@);
        let mut tags: Vec<String> = Vec::new();
        let mut i: usize = 0;
        proof {
            assert(pviews.skip(0) =~= pviews);
            assert(strs_of(tags@) + spec_filter_tags(pviews) =~= spec_filter_tags(pviews));
        }
        while i < tag_parts.len()
            invariant
                i <= tag_parts@.len(),
                pviews == text::views_of(tag_parts@),
                spec_filter_tags(pviews) == strs_of(tags@) + spec_filter_tags(
                    pviews.skip(i as int),
                ),
            decreases tag_parts@.len() - i,
        {
            let t = text::trim_chars(&tag_parts[i]);
            proof {
                assert(pviews.skip(i as int).drop_first() =~= pviews.skip(i + 1 as int));
                assert(pviews.skip(i as int)[0] == pviews[i as int]);
            }
            if t.len() > 0 {
                let ghost oldtags = strs_of(tags@);
                tags.push(text::string_of(&t));
                proof {
                    assert(strs_of(tags@) =~= oldtags.push(t@));
                    assert(oldtags.push(t@) + spec_filter_tags(pviews.skip(i + 1 as int))
                        =~= oldtags + (seq![t@] + spec_filter_tags(pviews.skip(i + 1 as int))));
                }
            }
            i += 1;
        }
        proof {
            assert(pviews.skip(tag_parts@.len() as int) =~= Seq::<Seq<char>>::empty());
            assert(spec_filter_tags(Seq::<Seq<char>>::empty()) =~= Seq::<Seq<char>>::empty());
            assert(strs_of(tags@) + Seq::<Seq<char>>::empty() =~= strs_of(tags@));
            assert(strs_of(tags@) =~= spec_filter_tags(pviews));
        }
        // Options: whitespace-separated tokens.
        let opt_parts = text::tokenize(&opts_f);
        let mut options: Vec<String> = Vec::new();
        let mut j: usize = 0;
        while j < opt_parts.len()
            invariant
                j <= opt_parts@.len(),
                options@.len() == j,
                forall|l: int| 0 <= l < j ==> options@[l]@ == opt_parts@[l]@,
            decreases opt_parts@.len() - j,
        {
            options.push(text::string_of(&opt_parts[j]));
            j += 1;
        }
        proof {
            assert(strs_of(options@) =~= text::views_of(opt_parts@));
        }
        let h = Host {
            name: text::string_of(&name),
            address: text::string_of(&host_str),
            user,
            port,
            key_path,
            tags,
            options,
            remote_command,
            bastion,
            description,
        };
        proof {
            assert(h@ =~= spec_build(self@)->Ok_0);
        }
        Ok(h)
    }
}

} // verus!



