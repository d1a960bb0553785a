//! Environment descriptors and the environments of the running session.

use vstd::prelude::*;
use crate::bytes::{
    bytes_eq, bytes_lt, copy_bytes, lemma_lex_irreflexive, lemma_lex_total,
    lemma_lex_transitive, lex_lt,
};

verus! {

/// What tells one environment from another: its name and, for a local one,
/// its canonical path. A remote environment has no path.
pub ghost struct EnvIdentity {
    pub name: Seq<u8>,
    pub path: Option<Seq<u8>>,
}

/// The order of paths: no path comes before any path, and paths go by
/// their bytes.
pub open spec fn path_lt(p: Option<Seq<u8>>, q: Option<Seq<u8>>) -> bool {
    match (p, q) {
        (None, Some(_)) => true,
        (Some(a), Some(b)) => lex_lt(a, b),
        _ => false,
    }
}

/// The order of identities: by name, and under one name by path.
pub open spec fn identity_lt(x: EnvIdentity, y: EnvIdentity) -> bool {
    lex_lt(x.name, y.name) || (x.name == y.name && path_lt(x.path, y.path))
}

/// The order of identities is transitive.
pub proof fn lemma_identity_transitive(x: EnvIdentity, y: EnvIdentity, z: EnvIdentity)
    requires
        identity_lt(x, y),
        identity_lt(y, z),
    ensures
        identity_lt(x, z),
{
    if lex_lt(x.name, y.name) && lex_lt(y.name, z.name) {
        lemma_lex_transitive(x.name, y.name, z.name);
    }
    if x.name == y.name && y.name == z.name {
        lemma_lex_irreflexive(x.name);
        if x.path is Some && y.path is Some && z.path is Some {
            lemma_lex_transitive(x.path->Some_0, y.path->Some_0, z.path->Some_0);
        }
    }
}

/// Of two different identities one comes before the other.
pub proof fn lemma_identity_total(x: EnvIdentity, y: EnvIdentity)
    ensures
        x == y || identity_lt(x, y) || identity_lt(y, x),
{
    lemma_lex_total(x.name, y.name);
    if x.path is Some && y.path is Some {
        lemma_lex_total(x.path->Some_0, y.path->Some_0);
    }
}

/// A descriptor file that was read: the name it declares and the canonical
/// path that it was found under.
pub ghost struct DotFloxView {
    pub name: Seq<u8>,
    pub path: Seq<u8>,
}

/// A local environment, as its descriptor file gives it.
#[derive(Debug)]
pub struct DotFlox {
    /// The environment's name.
    pub name: Vec<u8>,
    /// The canonical path of the environment.
    pub path: Vec<u8>,
}

impl View for DotFlox {
    type V = DotFloxView;

    open spec fn view(&self) -> DotFloxView {
        DotFloxView { name: self.name@, path: self.path@ }
    }
}

impl DotFlox {
    /// A copy of this descriptor.
    pub fn duplicate(&self) -> (out: DotFlox)
        ensures
            out@ == self@,
    {
        DotFlox { name: copy_bytes(&self.name), path: copy_bytes(&self.path) }
    }
}

/// An environment that is known but not opened.
#[derive(Debug)]
pub enum UninitializedEnvironment {
    /// A local environment.
    DotFlox(DotFlox),
    /// A remote environment, known by its name alone.
    Remote(Vec<u8>),
}

impl View for UninitializedEnvironment {
    type V = EnvIdentity;

    open spec fn view(&self) -> EnvIdentity {
        match self {
            UninitializedEnvironment::DotFlox(d) => EnvIdentity {
                name: d.name@,
                path: Some(d.path@),
            },
            UninitializedEnvironment::Remote(name) => EnvIdentity { name: name@, path: None },
        }
    }
}

/// The identities of a sequence of descriptors.
pub open spec fn env_views(s: Seq<UninitializedEnvironment>) -> Seq<EnvIdentity> {
    s.map_values(|e: UninitializedEnvironment| e@)
}

/// The views of a sequence of descriptor files.
pub open spec fn dot_flox_views(s: Seq<DotFlox>) -> Seq<DotFloxView> {
    s.map_values(|d: DotFlox| d@)
}

impl UninitializedEnvironment {
    /// The environment's name.
    pub fn name(&self) -> (out: &Vec<u8>)
        ensures
            out@ == self@.name,
    {
        match self {
            UninitializedEnvironment::DotFlox(d) => &d.name,
            UninitializedEnvironment::Remote(name) => name,
        }
    }

    /// The environment's path; `None` for a remote one.
    pub fn path(&self) -> (out: Option<&Vec<u8>>)
        ensures
            match out {
                Some(p) => self@.path == Some(p@),
                None => self@.path is None,
            },
    {
        match self {
            UninitializedEnvironment::DotFlox(d) => Some(&d.path),
            UninitializedEnvironment::Remote(_) => None,
        }
    }

    /// Whether the two descriptors name the same environment.
    pub fn same_identity(&self, other: &UninitializedEnvironment) -> (same: bool)
        ensures
            same == (self@ == other@),
    {
        if !bytes_eq(self.name(), other.name()) {
            return false;
        }
        match (self.path(), other.path()) {
            (Some(p), Some(q)) => bytes_eq(p, q),
            (None, None) => true,
            _ => false,
        }
    }

    /// Whether this descriptor comes before the other in the order of
    /// identities.
    pub fn precedes(&self, other: &UninitializedEnvironment) -> (before: bool)
        ensures
            before == identity_lt(self@, other@),
    {
        if bytes_lt(self.name(), other.name()) {
            return true;
        }
        if !bytes_eq(self.name(), other.name()) {
            return false;
        }
        match (self.path(), other.path()) {
            (None, Some(_)) => true,
            (Some(p), Some(q)) => bytes_lt(p, q),
            _ => false,
        }
    }

    /// A copy of this descriptor.
    pub fn duplicate(&self) -> (out: UninitializedEnvironment)
        ensures
            out@ == self@,
    {
        match self {
            UninitializedEnvironment::DotFlox(d) => UninitializedEnvironment::DotFlox(
                d.duplicate(),
            ),
            UninitializedEnvironment::Remote(name) => UninitializedEnvironment::Remote(
                copy_bytes(name),
            ),
        }
    }
}

/// Copies of the given descriptors, in their order.
pub fn copy_envs(envs: &Vec<UninitializedEnvironment>) -> (out: Vec<UninitializedEnvironment>)
    ensures
        env_views(out@) == env_views(envs@),
{
    let mut out: Vec<UninitializedEnvironment> = Vec::new();
    let mut i: usize = 0;
    while i < envs.len()
        invariant
            i <= envs.len(),
            out@.len() == i,
            forall|j: int| 0 <= j < i ==> (#[trigger] out@[j])@ == envs@[j]@,
        decreases envs.len() - i,
    {
        out.push(envs[i].duplicate());
        i += 1;
    }
    assert(env_views(out@) =~= env_views(envs@));
    out
}

/// Whether `list` holds a descriptor of the same identity as `env`.
pub fn holds(list: &Vec<UninitializedEnvironment>, env: &UninitializedEnvironment) -> (found: bool)
    ensures
        found == env_views(list@).contains(env@),
{
    let mut i: usize = 0;
    while i < list.len()
        invariant
            i <= list.len(),
            forall|j: int| 0 <= j < i ==> (#[trigger] list@[j])@ != env@,
        decreases list.len() - i,
    {
        if list[i].same_identity(env) {
            assert(env_views(list@)[i as int] == env@);
            return true;
        }
        i += 1;
    }
    assert(!env_views(list@).contains(env@)) by {
        if env_views(list@).contains(env@) {
            let j = choose|j: int|
                0 <= j < env_views(list@).len() && env_views(list@)[j] == env@;
            assert(list@[j]@ != env@);
        }
    }
    false
}

/// The environments that are active in the running session, oldest first.
/// They are handed in by whoever knows the session; nothing here changes them.
#[derive(Debug)]
pub struct ActivatedEnvironments {
    envs: Vec<UninitializedEnvironment>,
}

impl View for ActivatedEnvironments {
    type V = Seq<EnvIdentity>;

    closed spec fn view(&self) -> Seq<EnvIdentity> {
        env_views(self.envs@)
    }
}

impl ActivatedEnvironments {
    /// The session with the given active environments, oldest first.
    pub fn new(envs: Vec<UninitializedEnvironment>) -> (out: ActivatedEnvironments)
        ensures
            out@ == env_views(envs@),
    {
        ActivatedEnvironments { envs }
    }

    /// The active environments in the order of their activation.
    pub fn iter(&self) -> (out: &Vec<UninitializedEnvironment>)
        ensures
            env_views(out@) == self@,
    {
        &self.envs
    }

    /// The environment that was activated last; `None` where none is active.
    pub fn last_active(&self) -> (out: Option<&UninitializedEnvironment>)
        ensures
            match out {
                Some(e) => self@.len() > 0 && e@ == self@.last(),
                None => self@.len() == 0,
            },
    {
        let n: usize = self.envs.len();
        if n == 0 {
            None
        } else {
            Some(&self.envs[n - 1])
        }
    }
}

} // verus!
