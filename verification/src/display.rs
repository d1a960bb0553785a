//! The lines of a listing: names in one column, paths in the next.

use vstd::prelude::*;
use crate::bytes::{append_bytes, copy_bytes};
use crate::environment::{copy_envs, env_views, EnvIdentity, UninitializedEnvironment};

verus! {

/// What stands in the place of a path for a remote environment: `(remote)`.
pub open spec fn remote_mark() -> Seq<u8> {
    seq![40u8, 114u8, 101u8, 109u8, 111u8, 116u8, 101u8, 41u8]
}

/// The text shown for a path.
pub open spec fn path_text(path: Option<Seq<u8>>) -> Seq<u8> {
    match path {
        Some(p) => p,
        None => remote_mark(),
    }
}

/// The length of the longest name; zero where there is none.
pub open spec fn widest_name(envs: Seq<EnvIdentity>) -> nat
    decreases envs.len(),
{
    if envs.len() == 0 {
        0
    } else {
        let before = widest_name(envs.drop_last());
        if envs.last().name.len() > before {
            envs.last().name.len()
        } else {
            before
        }
    }
}

/// That many blanks.
pub open spec fn blanks(n: int) -> Seq<u8> {
    Seq::new(
        if n > 0 {
            n as nat
        } else {
            0
        },
        |i: int| 32u8,
    )
}

/// One line: the name, filled up with blanks to `width`, two blanks, and
/// the path's text.
pub open spec fn line_of(env: EnvIdentity, width: nat) -> Seq<u8> {
    env.name + blanks(width - env.name.len()) + blanks(2) + path_text(env.path)
}

/// The lines of the environments, the names filled up to the longest.
pub open spec fn lines_of(envs: Seq<EnvIdentity>) -> Seq<Seq<u8>> {
    Seq::new(envs.len(), |i: int| line_of(envs[i], widest_name(envs)))
}

/// The contents of a sequence of lines.
pub open spec fn line_views(lines: Seq<Vec<u8>>) -> Seq<Seq<u8>> {
    lines.map_values(|l: Vec<u8>| l@)
}

/// The text shown for a path: the path itself, or `(remote)` without one.
pub fn format_path(path: Option<&Vec<u8>>) -> (out: Vec<u8>)
    ensures
        out@ == match path {
            Some(p) => p@,
            None => remote_mark(),
        },
{
    match path {
        Some(p) => copy_bytes(p),
        None => {
            let out: Vec<u8> = vec![40u8, 114u8, 101u8, 109u8, 111u8, 116u8, 101u8, 41u8];
            assert(out@ =~= remote_mark());
            out
        },
    }
}

fn push_blanks(out: &mut Vec<u8>, n: usize)
    ensures
        final(out)@ == old(out)@ + blanks(n as int),
{
    let ghost before = out@;
    let mut i: usize = 0;
    assert(out@ =~= before + blanks(0));
    while i < n
        invariant
            i <= n,
            out@ == before + blanks(i as int),
        decreases n - i,
    {
        out.push(32u8);
        i += 1;
        assert(before + blanks(i as int) =~= (before + blanks(i - 1)).push(32u8));
    }
}

fn widest(envs: &Vec<UninitializedEnvironment>) -> (out: usize)
    ensures
        out == widest_name(env_views(envs@)),
{
    let ghost all = env_views(envs@);
    let mut out: usize = 0;
    let mut i: usize = 0;
    while i < envs.len()
        invariant
            i <= envs.len(),
            all == env_views(envs@),
            out == widest_name(all.take(i as int)),
        decreases envs.len() - i,
    {
        assert(all.take(i + 1).drop_last() =~= all.take(i as int));
        assert(all.take(i + 1).last() == envs@[i as int]@);
        let n: usize = envs[i].name().len();
        if n > out {
            out = n;
        }
        i += 1;
    }
    assert(all.take(all.len() as int) =~= all);
    out
}

proof fn lemma_widest_bounds(envs: Seq<EnvIdentity>, i: int)
    requires
        0 <= i < envs.len(),
    ensures
        envs[i].name.len() <= widest_name(envs),
    decreases envs.len(),
{
    if i < envs.len() - 1 {
        lemma_widest_bounds(envs.drop_last(), i);
    }
}

/// Environments to be shown, and whether they are the active ones.
#[derive(Debug)]
pub struct DisplayEnvironments {
    envs: Vec<UninitializedEnvironment>,
    format_active: bool,
}

impl DisplayEnvironments {
    /// The environments shown.
    pub closed spec fn envs(&self) -> Seq<EnvIdentity> {
        env_views(self.envs@)
    }

    /// Whether they are shown as the active ones.
    pub closed spec fn active(&self) -> bool {
        self.format_active
    }

    /// The given environments, to be shown as the active ones or not.
    pub fn new(envs: &Vec<UninitializedEnvironment>, format_active: bool) -> (out:
        DisplayEnvironments)
        ensures
            out.envs() == env_views(envs@),
            out.active() == format_active,
    {
        DisplayEnvironments { envs: copy_envs(envs), format_active }
    }

    /// Whether the first line is set off from the rest: it is among the
    /// active environments, where there is one.
    pub fn sets_off_first(&self) -> (out: bool)
        ensures
            out == (self.active() && self.envs().len() > 0),
    {
        self.format_active && self.envs.len() > 0
    }

    /// One line for each environment, in their order.
    pub fn lines(&self) -> (out: Vec<Vec<u8>>)
        ensures
            line_views(out@) == lines_of(self.envs()),
    {
        let ghost all = env_views(self.envs@);
        let width = widest(&self.envs);
        let mut out: Vec<Vec<u8>> = Vec::new();
        let mut i: usize = 0;
        while i < self.envs.len()
            invariant
                i <= self.envs.len(),
                all == env_views(self.envs@),
                width == widest_name(all),
                out@.len() == i,
                forall|j: int| 0 <= j < i ==> (#[trigger] out@[j])@ == line_of(all[j], width as nat),
            decreases self.envs.len() - i,
        {
            let env = &self.envs[i];
            proof {
                lemma_widest_bounds(all, i as int);
            }
            let mut line: Vec<u8> = copy_bytes(env.name());
            push_blanks(&mut line, width - env.name().len());
            push_blanks(&mut line, 2);
            let text = format_path(env.path());
            append_bytes(&mut line, &text);
            assert(line@ == line_of(all[i as int], width as nat));
            out.push(line);
            i += 1;
        }
        assert(line_views(out@) =~= lines_of(all));
        out
    }
}

} // verus!
