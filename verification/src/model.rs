//! The registry data model: hosts and the configuration that holds them.

use vstd::prelude::*;

use crate::text;

verus! {

/// One named record describing a remote connection target.
#[derive(Clone, Debug, PartialEq)]
pub struct Host {
    pub name: String,
    pub address: String,
    pub user: Option<String>,
    pub port: Option<u16>,
    pub key_path: Option<String>,
    pub tags: Vec<String>,
    pub options: Vec<String>,
    pub remote_command: Option<String>,
    pub bastion: Option<String>,
    pub description: Option<String>,
}

/// The mathematical value of a [`Host`].
pub struct HostV {
    pub name: Seq<char>,
    pub address: Seq<char>,
    pub user: Option<Seq<char>>,
    pub port: Option<u16>,
    pub key_path: Option<Seq<char>>,
    pub tags: Seq<Seq<char>>,
    pub options: Seq<Seq<char>>,
    pub remote_command: Option<Seq<char>>,
    pub bastion: Option<Seq<char>>,
    pub description: Option<Seq<char>>,
}

impl View for Host {
    type V = HostV;

    open spec fn view(&self) -> HostV {
        HostV {
            name: self.name@,
            address: self.address@,
            user: text::opt_view(self.user),
            port: self.port,
            key_path: text::opt_view(self.key_path),
            tags: text::strs_of(self.tags@),
            options: text::strs_of(self.options@),
            remote_command: text::opt_view(self.remote_command),
            bastion: text::opt_view(self.bastion),
            description: text::opt_view(self.description),
        }
    }
}

/// Copies an optional string, keeping its value.
pub fn clone_opt_string(o: &Option<String>) -> (r: Option<String>)
    ensures
        text::opt_view(r) == text::opt_view(*o),
{
    match o {
        Some(s) => Some(s.clone()),
        None => None,
    }
}

/// Copies a vector of strings, keeping its values.
pub fn clone_string_vec(v: &Vec<String>) -> (r: Vec<String>)
    ensures
        text::strs_of(r@) == text::strs_of(v@),
{
    let mut out: Vec<String> = Vec::new();
    let mut i: usize = 0;
    while i < v.len()
        invariant
            i <= v@.len(),
            out@.len() == i,
            forall|j: int| 0 <= j < i ==> out@[j]@ == v@[j]@,
        decreases v@.len() - i,
    {
        out.push(v[i].clone());
        i += 1;
    }
    proof {
        assert(text::strs_of(out@) =~= text::strs_of(v@));
    }
    out
}

/// The label shown for a host in lists: `user@address`, or the bare address.
pub open spec fn spec_display_label(h: HostV) -> Seq<char> {
    match h.user {
        Some(u) => u + seq!['@'] + h.address,
        None => h.address,
    }
}

impl Host {
    /// A deep copy whose value equals this host's value.
    pub fn duplicate(&self) -> (r: Host)
        ensures
            r@ == self@,
    {
        let r = Host {
            name: self.name.clone(),
            address: self.address.clone(),
            user: clone_opt_string(&self.user),
            port: self.port,
            key_path: clone_opt_string(&self.key_path),
            tags: clone_string_vec(&self.tags),
            options: clone_string_vec(&self.options),
            remote_command: clone_opt_string(&self.remote_command),
            bastion: clone_opt_string(&self.bastion),
            description: clone_opt_string(&self.description),
        };
        r
    }

    pub fn display_label(&self) -> (r: String)
        ensures
            r@ == spec_display_label(self@),
    {
        match &self.user {
            Some(u) => {
                let mut v = crate::text::chars_of(u.as_str());
                v.push('@');
                let mut a = crate::text::chars_of(self.address.as_str());
                v.append(&mut a);
                proof {
                    assert(v@ =~= spec_display_label(self@));
                }
                crate::text::string_of(&v)
            },
            None => self.address.clone(),
        }
    }
}

/// The persisted registry: format version, default key, ordered hosts.
#[derive(Clone, Debug)]
pub struct Config {
    pub version: u8,
    pub default_key: Option<String>,
    pub hosts: Vec<Host>,
}

/// The mathematical value of a [`Config`].
pub struct ConfigV {
    pub version: u8,
    pub default_key: Option<Seq<char>>,
    pub hosts: Seq<HostV>,
}

impl View for Config {
    type V = ConfigV;

    open spec fn view(&self) -> ConfigV {
        ConfigV {
            version: self.version,
            default_key: text::opt_view(self.default_key),
            hosts: self.hosts@.map_values(|h: Host| h@),
        }
    }
}

impl Default for Config {
    /// An empty registry at format version 1.
    fn default() -> (r: Config)
        ensures
            r@.version == 1,
            r@.default_key is None,
            r@.hosts.len() == 0,
    {
        let r = Config { version: 1, default_key: None, hosts: Vec::new() };
        proof {
            assert(r@.hosts =~= Seq::<HostV>::empty());
        }
        r
    }
}

/// The index of the first host named `name`, or `-1` when none is.
pub open spec fn spec_host_index(hosts: Seq<HostV>, name: Seq<char>) -> int
    decreases hosts.len(),
{
    if hosts.len() == 0 {
        -1
    } else if hosts[0].name == name {
        0
    } else {
        let r = spec_host_index(hosts.drop_first(), name);
        if r == -1 {
            -1
        } else {
            r + 1
        }
    }
}

/// What `spec_host_index` finds: the first index whose host bears the name.
pub proof fn lemma_host_index(hosts: Seq<HostV>, name: Seq<char>)
    ensures
        spec_host_index(hosts, name) == -1 ==> forall|i: int|
            0 <= i < hosts.len() ==> hosts[i].name != name,
        spec_host_index(hosts, name) != -1 ==> {
            let r = spec_host_index(hosts, name);
            &&& 0 <= r < hosts.len()
            &&& hosts[r].name == name
            &&& forall|i: int| 0 <= i < r ==> hosts[i].name != name
        },
    decreases hosts.len(),
{
    if hosts.len() == 0 {
    } else if hosts[0].name == name {
    } else {
        lemma_host_index(hosts.drop_first(), name);
        let r = spec_host_index(hosts.drop_first(), name);
        if r == -1 {
            assert forall|i: int| 0 <= i < hosts.len() implies hosts[i].name != name by {
                if i > 0 {
                    assert(hosts.drop_first()[i - 1] == hosts[i]);
                }
            }
        } else {
            assert(hosts.drop_first()[r] == hosts[r + 1]);
            assert forall|i: int| 0 <= i < r + 1 implies hosts[i].name != name by {
                if i > 0 {
                    assert(hosts.drop_first()[i - 1] == hosts[i]);
                }
            }
        }
    }
}

impl Config {
    /// A deep copy whose value equals this registry's value.
    pub fn duplicate(&self) -> (r: Config)
        ensures
            r@ == self@,
    {
        let mut hosts: Vec<Host> = Vec::new();
        let mut i: usize = 0;
        while i < self.hosts.len()
            invariant
                i <= self.hosts@.len(),
                hosts@.len() == i,
                forall|j: int| 0 <= j < i ==> hosts@[j]@ == self.hosts@[j]@,
            decreases self.hosts@.len() - i,
        {
            hosts.push(self.hosts[i].duplicate());
            i += 1;
        }
        let r = Config {
            version: self.version,
            default_key: clone_opt_string(&self.default_key),
            hosts,
        };
        proof {
            assert(r@.hosts =~= self@.hosts);
        }
        r
    }

    /// Looks a host up by name; the first host with that name, if any.
    pub fn find_host(&self, name: &str) -> (r: Option<&Host>)
        ensures
            r is Some <==> spec_host_index(self@.hosts, name@) != -1,
            r is Some ==> r->0@ == self@.hosts[spec_host_index(self@.hosts, name@)],
    {
        proof {
            lemma_host_index(self@.hosts, name@);
        }
        let mut i: usize = 0;
        while i < self.hosts.len()
            invariant
                i <= self.hosts@.len(),
                forall|j: int| 0 <= j < i ==> self@.hosts[j].name != name@,
            decreases self.hosts@.len() - i,
        {
            if text::str_eq(self.hosts[i].name.as_str(), name) {
                proof {
                    lemma_host_index(self@.hosts, name@);
                    let r = spec_host_index(self@.hosts, name@);
                    assert(self@.hosts[i as int].name == name@);
                    assert(r != -1);
                    assert(r == i as int);
                }
                return Some(&self.hosts[i]);
            }
            i += 1;
        }
        proof {
            lemma_host_index(self@.hosts, name@);
            let r = spec_host_index(self@.hosts, name@);
            if r != -1 {
                assert(self@.hosts[r].name == name@);
            }
        }
        None
    }

    /// A small fixture registry with three hosts.
    pub fn sample() -> (r: Config)
        ensures
            r@.version == 1,
            r@.hosts.len() == 3,
    {
        let h0 = Host {
            name: "prod-web".to_owned(),
            address: "52.14.33.10".to_owned(),
            user: Some("deploy".to_owned()),
            port: Some(22),
            key_path: Some("~/.ssh/prod_id_ed25519".to_owned()),
            tags: vec!["web".to_owned(), "blue".to_owned()],
            options: Vec::new(),
            remote_command: None,
            bastion: None,
            description: Some("Payment frontend".to_owned()),
        };
        let h1 = Host {
            name: "staging-db".to_owned(),
            address: "35.12.2.4".to_owned(),
            user: Some("db".to_owned()),
            port: Some(2222),
            key_path: None,
            tags: vec!["db".to_owned(), "green".to_owned()],
            options: Vec::new(),
            remote_command: None,
            bastion: Some("jump-eu".to_owned()),
            description: Some("Staging database".to_owned()),
        };
        let h2 = Host {
            name: "jump-eu".to_owned(),
            address: "52.17.9.3".to_owned(),
            user: Some("ops".to_owned()),
            port: None,
            key_path: Some("~/.ssh/jump".to_owned()),
            tags: vec!["jump".to_owned()],
            options: Vec::new(),
            remote_command: None,
            bastion: None,
            description: Some("Jump host EU".to_owned()),
        };
        Config {
            version: 1,
            default_key: Some("~/.ssh/id_ed25519".to_owned()),
            hosts: vec![h0, h1, h2],
        }
    }
}

} // verus!
