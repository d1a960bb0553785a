//! The registry of environments: registry entries read as descriptors.

use vstd::prelude::*;
use crate::bytes::bytes_eq;
use crate::environment::{
    dot_flox_views, env_views, DotFlox, DotFloxView, EnvIdentity, UninitializedEnvironment,
};
use crate::error::RegistryError;
use crate::key::{key_of, CanonicalPath, RegistryKey};
use crate::registry::{
    distinct_names, entry_views, has_name, live, record_views, register_spec, unregister_spec,
    EntryView, LinkRegistry, RawRecord, RecordView, Registration, RegistryEntry,
};

verus! {

/// The first descriptor file that was found under `path`.
pub open spec fn find_descriptor(parsed: Seq<DotFloxView>, path: Seq<u8>) -> Option<DotFloxView>
    decreases parsed.len(),
{
    if parsed.len() == 0 {
        None
    } else if parsed.first().path == path {
        Some(parsed.first())
    } else {
        find_descriptor(parsed.drop_first(), path)
    }
}

/// The descriptors of the entries whose descriptor file was read, in the
/// entries' order. An entry without one is passed over.
pub open spec fn descriptors(entries: Seq<EntryView>, parsed: Seq<DotFloxView>) -> Seq<
    EnvIdentity,
>
    decreases entries.len(),
{
    if entries.len() == 0 {
        Seq::empty()
    } else {
        match find_descriptor(parsed, entries.last().path) {
            Some(d) => descriptors(entries.drop_last(), parsed).push(
                EnvIdentity { name: d.name, path: Some(d.path) },
            ),
            None => descriptors(entries.drop_last(), parsed),
        }
    }
}

/// The descriptors of entries laid end to end are those of the first part
/// followed by those of the second.
pub proof fn lemma_descriptors_concat(
    a: Seq<EntryView>,
    b: Seq<EntryView>,
    parsed: Seq<DotFloxView>,
)
    ensures
        descriptors(a + b, parsed) == descriptors(a, parsed) + descriptors(b, parsed),
    decreases b.len(),
{
    if b.len() == 0 {
        assert(a + b =~= a);
        assert(descriptors(a, parsed) + descriptors(b, parsed) =~= descriptors(a, parsed));
    } else {
        assert((a + b).drop_last() =~= a + b.drop_last());
        assert((a + b).last() == b.last());
        lemma_descriptors_concat(a, b.drop_last(), parsed);
        if find_descriptor(parsed, b.last().path) is Some {
            assert(descriptors(a + b, parsed) =~= descriptors(a, parsed) + descriptors(
                b,
                parsed,
            ));
        }
    }
}

/// An entry whose descriptor file could not be read, wherever it stands
/// among the others, is passed over: the environments are those of the
/// entries around it.
pub proof fn law_unread_entry_skipped(
    a: Seq<EntryView>,
    e: EntryView,
    b: Seq<EntryView>,
    parsed: Seq<DotFloxView>,
)
    requires
        find_descriptor(parsed, e.path) is None,
    ensures
        descriptors(a.push(e) + b, parsed) == descriptors(a, parsed) + descriptors(b, parsed),
{
    lemma_descriptors_concat(a.push(e), b, parsed);
    assert(a.push(e).drop_last() =~= a);
}

fn lookup<'a>(parsed: &'a Vec<DotFlox>, path: &Vec<u8>) -> (out: Option<&'a DotFlox>)
    ensures
        match out {
            Some(d) => find_descriptor(dot_flox_views(parsed@), path@) == Some(d@),
            None => find_descriptor(dot_flox_views(parsed@), path@) is None,
        },
{
    let ghost all = dot_flox_views(parsed@);
    let mut i: usize = 0;
    assert(all.skip(0) =~= all);
    while i < parsed.len()
        invariant
            i <= parsed.len(),
            all == dot_flox_views(parsed@),
            find_descriptor(all, path@) == find_descriptor(all.skip(i as int), path@),
        decreases parsed.len() - i,
    {
        assert(all.skip(i as int).drop_first() =~= all.skip(i + 1));
        assert(all.skip(i as int).first() == parsed@[i as int]@);
        if bytes_eq(&parsed[i].path, path) {
            return Some(&parsed[i]);
        }
        i += 1;
    }
    None
}

/// The environments that the registry knows.
#[derive(Debug)]
pub struct RegisteredEnvironments {
    registry: LinkRegistry,
}

impl View for RegisteredEnvironments {
    type V = Seq<RecordView>;

    closed spec fn view(&self) -> Seq<RecordView> {
        self.registry@
    }
}

impl RegisteredEnvironments {
    /// Every record has a name of its own.
    pub open spec fn wf(&self) -> bool {
        distinct_names(self@)
    }

    /// Opens the registry of environments on what reading its directory
    /// gave. Fails where the directory could not be read, or where the
    /// listing names a record twice.
    pub fn new(listing: Option<Vec<RawRecord>>) -> (out: Result<
        RegisteredEnvironments,
        RegistryError,
    >)
        ensures
            match listing {
                Some(l) => if distinct_names(record_views(l@)) {
                    out is Ok && out->Ok_0@ == record_views(l@) && out->Ok_0.wf()
                } else {
                    out == Err::<RegisteredEnvironments, RegistryError>(RegistryError::Io)
                },
                None => out == Err::<RegisteredEnvironments, RegistryError>(RegistryError::Io),
            },
    {
        match LinkRegistry::open(listing) {
            Ok(registry) => Ok(RegisteredEnvironments { registry }),
            Err(e) => Err(e),
        }
    }

    /// Registers an environment. A remote one is not registered. For a local
    /// one `resolved` is what resolving its path gave: where that is nothing
    /// the call fails, otherwise the canonical path is registered.
    pub fn register(&mut self, env: &UninitializedEnvironment, resolved: Option<Vec<u8>>) -> (out:
        Result<Option<Registration>, RegistryError>)
        requires
            old(self).wf(),
        ensures
            final(self).wf(),
            match (env@.path, resolved) {
                (None, _) => {
                    &&& out == Ok::<Option<Registration>, RegistryError>(None)
                    &&& final(self)@ == old(self)@
                },
                (Some(_), None) => {
                    &&& out == Err::<Option<Registration>, RegistryError>(RegistryError::NotFound)
                    &&& final(self)@ == old(self)@
                },
                (Some(_), Some(c)) => {
                    &&& out is Ok
                    &&& out->Ok_0 is Some
                    &&& out->Ok_0->Some_0.key@ == key_of(c@)
                    &&& out->Ok_0->Some_0.created == !has_name(old(self)@, key_of(c@))
                    &&& final(self)@ == register_spec(old(self)@, c@)
                    &&& has_name(final(self)@, key_of(c@))
                },
            },
    {
        if env.path().is_none() {
            return Ok(None);
        }
        match CanonicalPath::new(resolved) {
            Err(e) => Err(e),
            Ok(canonical) => {
                let registration = self.registry.register(&canonical);
                Ok(Some(registration))
            },
        }
    }

    /// Unregisters a key. A key that no record bears is no failure: nothing
    /// changes then, and the result says so.
    pub fn unregister(&mut self, key: RegistryKey) -> (removed: bool)
        requires
            old(self).wf(),
        ensures
            final(self).wf(),
            final(self)@ == unregister_spec(old(self)@, key@),
            removed == has_name(old(self)@, key@),
            !has_name(final(self)@, key@),
    {
        self.registry.unregister(&key)
    }

    /// The registry's well-formed entries, for the caller to read the
    /// descriptor file of each.
    pub fn entries(&self) -> (out: Vec<RegistryEntry>)
        ensures
            entry_views(out@) == live(self@),
    {
        self.registry.try_iter()
    }

    /// The registered environments: for each well-formed entry the
    /// descriptor that was read under its path. `parsed` holds the descriptor
    /// files that could be read; an entry without one is passed over.
    pub fn try_iter(&self, parsed: &Vec<DotFlox>) -> (out: Vec<UninitializedEnvironment>)
        ensures
            env_views(out@) == descriptors(live(self@), dot_flox_views(parsed@)),
    {
        let entries = self.registry.try_iter();
        let ghost all = entry_views(entries@);
        let ghost files = dot_flox_views(parsed@);
        let mut out: Vec<UninitializedEnvironment> = Vec::new();
        let mut i: usize = 0;
        assert(env_views(out@) =~= descriptors(all.take(0), files));
        while i < entries.len()
            invariant
                i <= entries.len(),
                all == entry_views(entries@),
                files == dot_flox_views(parsed@),
                env_views(out@) == descriptors(all.take(i as int), files),
            decreases entries.len() - i,
        {
            assert(all.take(i + 1).drop_last() =~= all.take(i as int));
            assert(all.take(i + 1).last() == entries@[i as int]@);
            let found = lookup(parsed, entries[i].path().as_bytes());
            if let Some(d) = found {
                let ghost earlier = out@;
                let env = UninitializedEnvironment::DotFlox(d.duplicate());
                out.push(env);
                assert(env_views(out@) =~= env_views(earlier).push(env@));
            }
            i += 1;
        }
        assert(all.take(all.len() as int) =~= all);
        out
    }
}

} // verus!
