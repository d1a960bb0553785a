//! The link registry: one record per registered path, named by the path's key.
//!
//! A `LinkRegistry` is a snapshot of the registry directory. Its operations
//! decide what changes; the caller carries the change out on disk, one record
//! at a time, so that no record is ever seen half written.

use vstd::prelude::*;
use crate::bytes::{bytes_eq, copy_bytes};
use crate::error::RegistryError;
use crate::key::{key_bytes, key_of, CanonicalPath, RegistryKey};

verus! {

/// What a stored record holds: its name and, where its link still resolves,
/// the canonical path that it leads to.
pub ghost struct RecordView {
    pub name: Seq<u8>,
    pub target: Option<Seq<u8>>,
}

/// A decoded record: a key and the path that it stands for.
pub ghost struct EntryView {
    pub key: Seq<u8>,
    pub path: Seq<u8>,
}

/// A record as it was read from the registry directory.
#[derive(Debug)]
pub struct RawRecord {
    /// The record's file name.
    pub name: Vec<u8>,
    /// The canonical path of the record's target; `None` where it is gone.
    pub target: Option<Vec<u8>>,
}

impl View for RawRecord {
    type V = RecordView;

    open spec fn view(&self) -> RecordView {
        RecordView {
            name: self.name@,
            target: match self.target {
                Some(t) => Some(t@),
                None => None,
            },
        }
    }
}

/// Why a record does not decode, if it does not: its target is gone, or its
/// name is not the key of its target.
pub open spec fn decode_failure(r: RecordView) -> Option<RegistryError> {
    match r.target {
        None => Some(RegistryError::NotFound),
        Some(p) => if r.name == key_of(p) {
            None
        } else {
            Some(RegistryError::Decode)
        },
    }
}

impl RawRecord {
    /// The entry that the record stands for, or why it stands for none.
    pub fn decode(&self) -> (out: Result<RegistryEntry, RegistryError>)
        ensures
            match out {
                Ok(e) => decode(self@) == Some(e@),
                Err(e) => decode(self@) is None && decode_failure(self@) == Some(e),
            },
    {
        match &self.target {
            None => Err(RegistryError::NotFound),
            Some(target) => {
                let key = key_bytes(target);
                if bytes_eq(&key, &self.name) {
                    Ok(
                        RegistryEntry {
                            key: RegistryKey::from_name(key),
                            path: CanonicalPath::from_bytes(copy_bytes(target)),
                        },
                    )
                } else {
                    Err(RegistryError::Decode)
                }
            },
        }
    }
}

/// A well-formed record of the registry.
#[derive(Debug)]
pub struct RegistryEntry {
    key: RegistryKey,
    path: CanonicalPath,
}

impl View for RegistryEntry {
    type V = EntryView;

    closed spec fn view(&self) -> EntryView {
        EntryView { key: self.key@, path: self.path@ }
    }
}

impl RegistryEntry {
    /// The key under which the entry is stored.
    pub fn key(&self) -> (out: &RegistryKey)
        ensures
            out@ == self@.key,
    {
        &self.key
    }

    /// The path that the entry stands for.
    pub fn path(&self) -> (out: &CanonicalPath)
        ensures
            out@ == self@.path,
    {
        &self.path
    }
}

/// The views of a sequence of records.
pub open spec fn record_views(s: Seq<RawRecord>) -> Seq<RecordView> {
    s.map_values(|r: RawRecord| r@)
}

/// The views of a sequence of entries.
pub open spec fn entry_views(s: Seq<RegistryEntry>) -> Seq<EntryView> {
    s.map_values(|e: RegistryEntry| e@)
}

/// The entry that a record decodes to: its target must resolve, and its name
/// must be that target's key.
pub open spec fn decode(r: RecordView) -> Option<EntryView> {
    match r.target {
        Some(p) => if r.name == key_of(p) {
            Some(EntryView { key: r.name, path: p })
        } else {
            None
        },
        None => None,
    }
}

/// The entries of the records that decode, in the records' order.
pub open spec fn live(s: Seq<RecordView>) -> Seq<EntryView>
    decreases s.len(),
{
    if s.len() == 0 {
        Seq::empty()
    } else {
        match decode(s.last()) {
            Some(e) => live(s.drop_last()).push(e),
            None => live(s.drop_last()),
        }
    }
}

/// Whether some record bears the name `k`.
pub open spec fn has_name(s: Seq<RecordView>, k: Seq<u8>) -> bool {
    exists|i: int| 0 <= i < s.len() && (#[trigger] s[i]).name == k
}

/// No two records bear the same name.
pub open spec fn distinct_names(s: Seq<RecordView>) -> bool {
    forall|i: int, j: int|
        0 <= i < j < s.len() ==> (#[trigger] s[i]).name != (#[trigger] s[j]).name
}

/// The records after registering `p`: unchanged where `p`'s key is taken,
/// else with one new record at the end.
pub open spec fn register_spec(s: Seq<RecordView>, p: Seq<u8>) -> Seq<RecordView> {
    if has_name(s, key_of(p)) {
        s
    } else {
        s.push(RecordView { name: key_of(p), target: Some(p) })
    }
}

/// The records after unregistering `k`: without the record named `k`, if
/// there is one.
pub open spec fn unregister_spec(s: Seq<RecordView>, k: Seq<u8>) -> Seq<RecordView> {
    if has_name(s, k) {
        s.remove(choose|i: int| 0 <= i < s.len() && (#[trigger] s[i]).name == k)
    } else {
        s
    }
}

/// What a registration decided.
#[derive(Debug)]
pub struct Registration {
    /// The key of the registered path.
    pub key: RegistryKey,
    /// Whether a new record has to be written; `false` where one was there.
    pub created: bool,
}

impl Registration {
    /// The outcome of the registration once the caller has tried to write the
    /// new record: the key, unless a record had to be written and was not.
    pub fn settle(self, persisted: bool) -> (out: Result<RegistryKey, RegistryError>)
        ensures
            (!self.created || persisted) ==> out is Ok && out->Ok_0@ == self.key@,
            (self.created && !persisted) ==> out == Err::<RegistryKey, RegistryError>(
                RegistryError::Registration,
            ),
    {
        if self.created && !persisted {
            Err(RegistryError::Registration)
        } else {
            Ok(self.key)
        }
    }
}

/// The first of the first `upto` records that bears `name`.
fn find_name(records: &Vec<RawRecord>, upto: usize, name: &Vec<u8>) -> (out: Option<usize>)
    requires
        upto <= records.len(),
    ensures
        match out {
            Some(i) => i < upto && records@[i as int]@.name == name@,
            None => forall|j: int| 0 <= j < upto ==> (#[trigger] records@[j])@.name != name@,
        },
{
    let mut i: usize = 0;
    while i < upto
        invariant
            i <= upto <= records.len(),
            forall|j: int| 0 <= j < i ==> (#[trigger] records@[j])@.name != name@,
        decreases upto - i,
    {
        if bytes_eq(&records[i].name, name) {
            return Some(i);
        }
        i += 1;
    }
    None
}

/// A snapshot of the registry directory.
#[derive(Debug)]
pub struct LinkRegistry {
    records: Vec<RawRecord>,
}

impl View for LinkRegistry {
    type V = Seq<RecordView>;

    closed spec fn view(&self) -> Seq<RecordView> {
        record_views(self.records@)
    }
}

impl LinkRegistry {
    /// Every record has a name of its own, as files in one directory do.
    pub open spec fn wf(&self) -> bool {
        distinct_names(self@)
    }

    /// Opens the registry on what reading its root gave. Fails where the root
    /// could not be read, or where the listing names a record twice.
    pub fn open(listing: Option<Vec<RawRecord>>) -> (out: Result<LinkRegistry, RegistryError>)
        ensures
            match listing {
                Some(l) => if distinct_names(record_views(l@)) {
                    out is Ok && out->Ok_0@ == record_views(l@) && out->Ok_0.wf()
                } else {
                    out == Err::<LinkRegistry, RegistryError>(RegistryError::Io)
                },
                None => out == Err::<LinkRegistry, RegistryError>(RegistryError::Io),
            },
    {
        match listing {
            None => Err(RegistryError::Io),
            Some(records) => {
                let ghost views = record_views(records@);
                let mut i: usize = 0;
                while i < records.len()
                    invariant
                        i <= records.len(),
                        listing == Some(records),
                        views == record_views(records@),
                        forall|a: int, b: int|
                            0 <= a < b < i ==> (#[trigger] views[a]).name != (
                            #[trigger] views[b]).name,
                    decreases records.len() - i,
                {
                    let hit = find_name(&records, i, &records[i].name);
                    if let Some(j) = hit {
                        assert(views[j as int].name == views[i as int].name);
                        assert(!distinct_names(views));
                        return Err(RegistryError::Io);
                    }
                    assert forall|a: int, b: int| 0 <= a < b < i + 1 implies (
                    #[trigger] views[a]).name != (#[trigger] views[b]).name by {
                        if b == i {
                            assert(records@[a]@.name != records@[i as int]@.name);
                        }
                    }
                    i += 1;
                }
                Ok(LinkRegistry { records })
            },
        }
    }

    /// Registers a path. Where its key is already taken nothing changes;
    /// otherwise a record for it is added, which the caller has to write.
    pub fn register(&mut self, path: &CanonicalPath) -> (out: Registration)
        requires
            old(self).wf(),
        ensures
            final(self).wf(),
            final(self)@ == register_spec(old(self)@, path@),
            out.key@ == key_of(path@),
            out.created == !has_name(old(self)@, key_of(path@)),
            has_name(final(self)@, key_of(path@)),
    {
        let key = RegistryKey::of(path);
        let n: usize = self.records.len();
        let hit = find_name(&self.records, n, key.as_bytes());
        match hit {
            Some(i) => {
                assert(self@[i as int].name == key_of(path@));
                Registration { key, created: false }
            },
            None => {
                let ghost before = self@;
                assert(!has_name(before, key_of(path@))) by {
                    if has_name(before, key_of(path@)) {
                        let j = choose|j: int|
                            0 <= j < before.len() && (#[trigger] before[j]).name == key_of(path@);
                        assert(self.records@[j]@.name != key@);
                    }
                }
                let record = RawRecord {
                    name: copy_bytes(key.as_bytes()),
                    target: Some(copy_bytes(path.as_bytes())),
                };
                self.records.push(record);
                assert(self@ =~= before.push(
                    RecordView { name: key_of(path@), target: Some(path@) },
                ));
                assert(self@[before.len() as int].name == key_of(path@));
                Registration { key, created: true }
            },
        }
    }

    /// Unregisters a key. Where no record bears it nothing changes; otherwise
    /// that record leaves, and the caller has to delete it.
    pub fn unregister(&mut self, key: &RegistryKey) -> (removed: bool)
        requires
            old(self).wf(),
        ensures
            final(self).wf(),
            final(self)@ == unregister_spec(old(self)@, key@),
            removed == has_name(old(self)@, key@),
            !has_name(final(self)@, key@),
    {
        let n: usize = self.records.len();
        let ghost before = self@;
        let hit = find_name(&self.records, n, key.as_bytes());
        match hit {
            Some(i) => {
                assert(before[i as int].name == key@);
                let ghost c = choose|c: int|
                    0 <= c < before.len() && (#[trigger] before[c]).name == key@;
                assert(c == i) by {
                    if c < i {
                        assert(before[c].name != before[i as int].name);
                    } else if i < c {
                        assert(before[i as int].name != before[c].name);
                    }
                }
                let _ = self.records.remove(i);
                assert(self@ =~= before.remove(i as int));
                assert forall|a: int, b: int| 0 <= a < b < self@.len() implies (
                #[trigger] self@[a]).name != (#[trigger] self@[b]).name by {
                    let a0 = if a < i { a } else { a + 1 };
                    let b0 = if b < i { b } else { b + 1 };
                    assert(before[a0].name != before[b0].name);
                }
                assert forall|a: int| 0 <= a < self@.len() implies (#[trigger] self@[a]).name
                    != key@ by {
                    if a < i {
                        assert(before[a].name != before[i as int].name);
                    } else {
                        assert(before[i as int].name != before[a + 1].name);
                    }
                }
                true
            },
            None => {
                assert(!has_name(before, key@)) by {
                    if has_name(before, key@) {
                        let j = choose|j: int|
                            0 <= j < before.len() && (#[trigger] before[j]).name == key@;
                        assert(self.records@[j]@.name != key@);
                    }
                }
                false
            },
        }
    }

    /// The entries of the records that decode, in the records' order. A
    /// record whose target is gone, or whose name is not its target's key, is
    /// passed over.
    pub fn try_iter(&self) -> (out: Vec<RegistryEntry>)
        ensures
            entry_views(out@) == live(self@),
    {
        let mut out: Vec<RegistryEntry> = Vec::new();
        let mut i: usize = 0;
        assert(entry_views(out@) =~= live(self@.take(0)));
        while i < self.records.len()
            invariant
                i <= self.records.len(),
                self@.len() == self.records.len(),
                entry_views(out@) == live(self@.take(i as int)),
            decreases self.records.len() - i,
        {
            let record = &self.records[i];
            let ghost prefix = self@.take(i as int);
            let ghost next = self@.take(i + 1);
            assert(next.drop_last() =~= prefix);
            assert(next.last() == record@);
            if let Ok(entry) = record.decode() {
                let ghost earlier = out@;
                out.push(entry);
                assert(entry_views(out@) =~= entry_views(earlier).push(entry@));
            }
            i += 1;
        }
        assert(self@.take(self@.len() as int) =~= self@);
        out
    }

    /// How many records the snapshot holds, decodable or not.
    pub fn len(&self) -> (n: usize)
        ensures
            n == self@.len(),
    {
        self.records.len()
    }
}

} // verus!
