//! Docker container settings for an OpenCode instance: name, command, mounts,
//! port mapping and environment.

use vstd::prelude::*;
use crate::text::{
    char_vecs_view, chars_of, decimal, owned, push_chars, push_decimal, push_str, slice_chars, split_chars, split_on,
    str_eq, string_from_chars, trim, trim_bounds,
};
use crate::worktree::path_exists;

verus! {

/// Lifecycle state of a container as the runtime reports it.
#[derive(Debug, Clone, PartialEq)]
pub enum ContainerState {
    Running,
    Exited(i64),
    Created,
    Unknown(String),
}

/// What the runtime reports of one container.
#[derive(Debug, Clone)]
pub struct ContainerInfo {
    pub id: String,
    pub name: String,
    pub state: ContainerState,
}

/// How to create the container of one instance.
#[derive(Debug, Clone)]
pub struct ContainerConfig {
    pub instance_id: String,
    pub image: String,
    pub host_port: u16,
    pub container_port: u16,
    pub worktree_path: String,
    pub config_mount_path: String,
    pub env_vars: Vec<String>,
}

/// A host address and port that a container port is published on.
#[derive(Debug, Clone)]
pub struct PortBinding {
    pub host_ip: String,
    pub host_port: String,
}

/// Container ports (`"{port}/tcp"`) with the host bindings of each.
#[derive(Debug, Clone)]
pub struct PortMap {
    entries: Vec<(String, Vec<PortBinding>)>,
}

/// A binding as a pair of host address and host port.
pub open spec fn binding_view(b: PortBinding) -> (Seq<char>, Seq<char>) {
    (b.host_ip@, b.host_port@)
}

/// The bindings of one container port.
pub open spec fn bindings_view(v: Seq<PortBinding>) -> Seq<(Seq<char>, Seq<char>)> {
    v.map_values(|b: PortBinding| binding_view(b))
}

/// The views of a list of strings.
pub open spec fn strings_view(v: Seq<String>) -> Seq<Seq<char>> {
    v.map_values(|s: String| s@)
}

/// The trimmed, non-blank pieces of a list, in order.
pub open spec fn listed_names(pieces: Seq<Seq<char>>) -> Seq<Seq<char>>
    decreases pieces.len(),
{
    if pieces.len() == 0 {
        Seq::empty()
    } else {
        let rest = listed_names(pieces.drop_last());
        let t = trim(pieces.last());
        if t.len() == 0 { rest } else { rest.push(t) }
    }
}

/// The variable names of a comma-separated list such as `A, B,,C`: each entry
/// trimmed, blank entries left out.
pub fn parse_name_list(s: &str) -> (r: Vec<String>)
    ensures
        strings_view(r@) == listed_names(split_on(s@, ',')),
{
    let parts = split_chars(&chars_of(s), ',');
    let ghost pieces = split_on(s@, ',');
    let mut r: Vec<String> = Vec::new();
    let mut i: usize = 0;
    while i < parts.len()
        invariant
            i <= parts.len(),
            char_vecs_view(parts@) == pieces,
            strings_view(r@) == listed_names(pieces.take(i as int)),
        decreases parts.len() - i,
    {
        let part = &parts[i];
        let (lo, hi) = trim_bounds(part, 0, part.len());
        proof {
            assert(pieces.take(i + 1).drop_last() =~= pieces.take(i as int));
            assert(pieces[i as int] == parts@[i as int]@);
            assert(part@.subrange(0, part@.len() as int) =~= part@);
        }
        if lo < hi {
            let t = slice_chars(part, lo, hi);
            r.push(string_from_chars(&t));
            assert(strings_view(r@) =~= listed_names(pieces.take(i as int)).push(t@));
        } else {
            assert(strings_view(r@) =~= listed_names(pieces.take(i as int)));
        }
        i += 1;
    }
    assert(pieces.take(parts.len() as int) =~= pieces);
    r
}

/// Docker's name for the port `port` over TCP.
pub open spec fn tcp_key(port: u16) -> Seq<char> {
    decimal(port as nat) + "/tcp"@
}

/// The name of the container of instance `id`.
pub open spec fn container_name_of(id: Seq<char>) -> Seq<char> {
    "oc-"@ + id
}

/// The command the container runs.
pub open spec fn cmd_of(container_port: u16) -> Seq<Seq<char>> {
    seq!["opencode"@, "serve"@, "--port"@, decimal(container_port as nat), "--project"@, "/workspace"@]
}

/// The mounts of a container: the worktree read-write, the OpenCode
/// configuration read-only, and `~/.ssh` and `~/.gitconfig` read-only where
/// they exist.
pub open spec fn binds_of(worktree: Seq<char>, config: Seq<char>, home: Seq<char>, ssh: bool, gitconfig: bool) -> Seq<Seq<char>> {
    let base = seq![worktree + ":/workspace"@, config + ":/home/user/.config/opencode/:ro"@];
    let with_ssh = if ssh { base.push(home + "/.ssh"@ + ":/home/user/.ssh/:ro"@) } else { base };
    if gitconfig { with_ssh.push(home + "/.gitconfig"@ + ":/home/user/.gitconfig:ro"@) } else { with_ssh }
}

/// `KEY=value` for each key that has a value, in order.
pub open spec fn passthrough_of(keys: Seq<Seq<char>>, values: Seq<Option<Seq<char>>>) -> Seq<Seq<char>>
    decreases keys.len(),
{
    if keys.len() == 0 || values.len() == 0 {
        Seq::empty()
    } else {
        let rest = passthrough_of(keys.drop_last(), values.take(keys.len() - 1));
        match values[keys.len() - 1] {
            Some(v) => rest.push(keys.last() + "="@ + v),
            None => rest,
        }
    }
}

/// The values of optional strings.
pub open spec fn opt_strings_view(v: Seq<Option<String>>) -> Seq<Option<Seq<char>>> {
    v.map_values(|o: Option<String>| match o { Some(s) => Some(s@), None => None })
}

impl PortMap {
    /// Each container port with its bindings, in order.
    pub closed spec fn entries_view(&self) -> Seq<(Seq<char>, Seq<(Seq<char>, Seq<char>)>)> {
        self.entries@.map_values(|e: (String, Vec<PortBinding>)| (e.0@, bindings_view(e.1@)))
    }

    /// The entries, each container port with its bindings.
    pub fn into_entries(self) -> (r: Vec<(String, Vec<PortBinding>)>)
        ensures
            r@.map_values(|e: (String, Vec<PortBinding>)| (e.0@, bindings_view(e.1@))) == self.entries_view(),
    {
        self.entries
    }

    /// Number of container ports.
    pub fn len(&self) -> (n: usize)
        ensures
            n == self.entries_view().len(),
    {
        self.entries.len()
    }

    /// Whether `key` is one of the container ports.
    pub fn contains_key(&self, key: &str) -> (b: bool)
        ensures
            b == exists|i: int| 0 <= i < self.entries_view().len() && #[trigger] self.entries_view()[i].0 == key@,
    {
        match self.get(key) {
            Some(_) => true,
            None => false,
        }
    }

    /// The bindings of the first entry whose container port is `key`.
    pub fn get(&self, key: &str) -> (r: Option<&Vec<PortBinding>>)
        ensures
            match r {
                Some(v) => exists|i: int|
                    0 <= i < self.entries_view().len() && #[trigger] self.entries_view()[i].0 == key@
                        && self.entries_view()[i].1 == bindings_view(v@),
                None => forall|i: int| 0 <= i < self.entries_view().len() ==> #[trigger] self.entries_view()[i].0 != key@,
            },
    {
        let mut i: usize = 0;
        while i < self.entries.len()
            invariant
                i <= self.entries.len(),
                forall|j: int| 0 <= j < i ==> #[trigger] self.entries_view()[j].0 != key@,
            decreases self.entries.len() - i,
        {
            if str_eq(self.entries[i].0.as_str(), key) {
                assert(self.entries_view()[i as int].0 == key@);
                return Some(&self.entries[i].1);
            }
            i += 1;
        }
        None
    }
}

impl ContainerConfig {
    /// `oc-{instance_id}`.
    pub fn container_name(&self) -> (r: String)
        ensures
            r@ == container_name_of(self.instance_id@),
    {
        let mut v: Vec<char> = Vec::new();
        push_str(&mut v, "oc-");
        push_str(&mut v, self.instance_id.as_str());
        string_from_chars(&v)
    }

    /// `opencode serve --port {container_port} --project /workspace`.
    pub fn cmd(&self) -> (r: Vec<String>)
        ensures
            strings_view(r@) == cmd_of(self.container_port),
    {
        let mut p: Vec<char> = Vec::new();
        push_decimal(&mut p, self.container_port as u64);
        let r = vec![
            owned("opencode"),
            owned("serve"),
            owned("--port"),
            string_from_chars(&p),
            owned("--project"),
            owned("/workspace"),
        ];
        assert(strings_view(r@) =~= cmd_of(self.container_port));
        r
    }

    /// The mounts, given the home directory and whether `~/.ssh` and
    /// `~/.gitconfig` exist there.
    pub fn binds_for(&self, home: &str, ssh_exists: bool, gitconfig_exists: bool) -> (r: Vec<String>)
        ensures
            strings_view(r@) == binds_of(self.worktree_path@, self.config_mount_path@, home@, ssh_exists, gitconfig_exists),
    {
        let mut a: Vec<char> = chars_of(self.worktree_path.as_str());
        push_str(&mut a, ":/workspace");
        let mut b: Vec<char> = chars_of(self.config_mount_path.as_str());
        push_str(&mut b, ":/home/user/.config/opencode/:ro");
        let mut r = vec![string_from_chars(&a), string_from_chars(&b)];
        assert(strings_view(r@) =~= seq![self.worktree_path@ + ":/workspace"@, self.config_mount_path@ + ":/home/user/.config/opencode/:ro"@]);
        if ssh_exists {
            let mut s: Vec<char> = chars_of(home);
            push_str(&mut s, "/.ssh");
            push_str(&mut s, ":/home/user/.ssh/:ro");
            let ghost before = strings_view(r@);
            r.push(string_from_chars(&s));
            assert(strings_view(r@) =~= before.push(home@ + "/.ssh"@ + ":/home/user/.ssh/:ro"@));
        }
        if gitconfig_exists {
            let mut g: Vec<char> = chars_of(home);
            push_str(&mut g, "/.gitconfig");
            push_str(&mut g, ":/home/user/.gitconfig:ro");
            let ghost before = strings_view(r@);
            r.push(string_from_chars(&g));
            assert(strings_view(r@) =~= before.push(home@ + "/.gitconfig"@ + ":/home/user/.gitconfig:ro"@));
        }
        r
    }

    /// The mounts, with `home` as the home directory; whether `~/.ssh` and
    /// `~/.gitconfig` exist is asked of the file system.
    pub fn binds(&self, home: &str) -> (r: Vec<String>)
        ensures
            exists|ssh: bool, gitconfig: bool|
                strings_view(r@) == #[trigger] binds_of(self.worktree_path@, self.config_mount_path@, home@, ssh, gitconfig),
    {
        let mut s: Vec<char> = chars_of(home);
        push_str(&mut s, "/.ssh");
        let ssh = path_exists(string_from_chars(&s).as_str());
        let mut g: Vec<char> = chars_of(home);
        push_str(&mut g, "/.gitconfig");
        let gitconfig = path_exists(string_from_chars(&g).as_str());
        self.binds_for(home, ssh, gitconfig)
    }

    /// `{container_port}/tcp` bound to `127.0.0.1:{host_port}`.
    pub fn port_bindings(&self) -> (r: PortMap)
        ensures
            r.entries_view() == seq![(tcp_key(self.container_port), seq![("127.0.0.1"@, decimal(self.host_port as nat))])],
    {
        let mut k: Vec<char> = Vec::new();
        push_decimal(&mut k, self.container_port as u64);
        push_str(&mut k, "/tcp");
        let mut hp: Vec<char> = Vec::new();
        push_decimal(&mut hp, self.host_port as u64);
        let b = PortBinding { host_ip: owned("127.0.0.1"), host_port: string_from_chars(&hp) };
        let r = PortMap { entries: vec![(string_from_chars(&k), vec![b])] };
        assert(bindings_view(r.entries@[0].1@) =~= seq![("127.0.0.1"@, decimal(self.host_port as nat))]);
        assert(r.entries_view() =~= seq![(tcp_key(self.container_port), seq![("127.0.0.1"@, decimal(self.host_port as nat))])]);
        r
    }

    /// `KEY=value` for each of `env_vars` that has a value; `values[i]` is
    /// the value of `env_vars[i]` in the environment, if it is set.
    pub fn env_passthrough(&self, values: &Vec<Option<String>>) -> (r: Vec<String>)
        requires
            values.len() == self.env_vars.len(),
        ensures
            strings_view(r@) == passthrough_of(strings_view(self.env_vars@), opt_strings_view(values@)),
    {
        let mut r: Vec<String> = Vec::new();
        let mut i: usize = 0;
        while i < values.len()
            invariant
                values.len() == self.env_vars.len(),
                i <= values.len(),
                strings_view(r@) == passthrough_of(
                    strings_view(self.env_vars@).take(i as int),
                    opt_strings_view(values@).take(i as int),
                ),
            decreases values.len() - i,
        {
            let ghost keys = strings_view(self.env_vars@).take(i + 1);
            let ghost vals = opt_strings_view(values@).take(i + 1);
            assert(keys.drop_last() =~= strings_view(self.env_vars@).take(i as int));
            assert(vals.take(keys.len() - 1) =~= opt_strings_view(values@).take(i as int));
            match &values[i] {
                Some(v) => {
                    let mut e: Vec<char> = chars_of(self.env_vars[i].as_str());
                    push_str(&mut e, "=");
                    push_str(&mut e, v.as_str());
                    r.push(string_from_chars(&e));
                },
                None => {},
            }
            i += 1;
            assert(strings_view(r@) =~= passthrough_of(keys, vals));
        }
        assert(strings_view(self.env_vars@).take(i as int) =~= strings_view(self.env_vars@));
        assert(opt_strings_view(values@).take(i as int) =~= opt_strings_view(values@));
        r
    }
}

} // verus!
