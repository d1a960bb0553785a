//! What holds of registering, unregistering and enumerating, whatever the
//! records and the paths.

use vstd::prelude::*;
use crate::key::{key_of, lemma_key_injective};
use crate::registry::{
    decode, distinct_names, has_name, live, register_spec, unregister_spec, EntryView,
    RecordView,
};

verus! {

/// How many of the entries stand for the path `p`.
pub open spec fn count_path(e: Seq<EntryView>, p: Seq<u8>) -> nat
    decreases e.len(),
{
    if e.len() == 0 {
        0
    } else {
        count_path(e.drop_last(), p) + if e.last().path == p {
            1nat
        } else {
            0nat
        }
    }
}

/// Any record that bears `p`'s key decodes. It fails where a record under
/// that name has lost its target.
pub open spec fn key_is_sound(s: Seq<RecordView>, p: Seq<u8>) -> bool {
    forall|i: int|
        0 <= i < s.len() && (#[trigger] s[i]).name == key_of(p) ==> decode(s[i]) is Some
}

/// The records after registering `p` again and again, `n` times.
pub open spec fn register_times(s: Seq<RecordView>, p: Seq<u8>, n: nat) -> Seq<RecordView>
    decreases n,
{
    if n == 0 {
        s
    } else {
        register_spec(register_times(s, p, (n - 1) as nat), p)
    }
}

proof fn lemma_live_step(s: Seq<RecordView>, p: Seq<u8>)
    requires
        s.len() > 0,
    ensures
        count_path(live(s), p) == count_path(live(s.drop_last()), p) + if decode(s.last())
            == Some(EntryView { key: key_of(p), path: p }) {
            1nat
        } else {
            0nat
        },
{
    match decode(s.last()) {
        Some(e) => {
            assert(live(s).drop_last() =~= live(s.drop_last()));
            assert(live(s).last() == e);
            assert(e.key == key_of(e.path));
        },
        None => {},
    }
}

proof fn lemma_prefix_names(s: Seq<RecordView>, k: Seq<u8>)
    requires
        s.len() > 0,
        !has_name(s, k),
    ensures
        !has_name(s.drop_last(), k),
        s.last().name != k,
{
    let t = s.drop_last();
    if has_name(t, k) {
        let j = choose|j: int| 0 <= j < t.len() && (#[trigger] t[j]).name == k;
        assert(s[j].name == k);
    }
    assert(s[s.len() - 1].name != k);
}

proof fn lemma_absent_not_live(s: Seq<RecordView>, p: Seq<u8>)
    requires
        !has_name(s, key_of(p)),
    ensures
        count_path(live(s), p) == 0,
    decreases s.len(),
{
    if s.len() > 0 {
        lemma_prefix_names(s, key_of(p));
        lemma_absent_not_live(s.drop_last(), p);
        lemma_live_step(s, p);
    }
}

proof fn lemma_present_live_once(s: Seq<RecordView>, p: Seq<u8>, i: int)
    requires
        distinct_names(s),
        0 <= i < s.len(),
        s[i].name == key_of(p),
        decode(s[i]) is Some,
    ensures
        count_path(live(s), p) == 1,
    decreases s.len(),
{
    let t = s.drop_last();
    let n = s.len() - 1;
    lemma_live_step(s, p);
    if i == n {
        lemma_key_injective(s[i].target->Some_0, p);
        assert(!has_name(t, key_of(p))) by {
            if has_name(t, key_of(p)) {
                let j = choose|j: int| 0 <= j < t.len() && (#[trigger] t[j]).name == key_of(p);
                assert(s[j].name != s[n].name);
            }
        }
        lemma_absent_not_live(t, p);
    } else {
        assert(s[i].name != s[n].name);
        assert(distinct_names(t)) by {
            assert forall|a: int, b: int| 0 <= a < b < t.len() implies (#[trigger] t[a]).name != (
            #[trigger] t[b]).name by {
                assert(s[a].name != s[b].name);
            }
        }
        assert(t[i] == s[i]);
        lemma_present_live_once(t, p, i);
    }
}

/// Registering a path a second time changes nothing, and afterwards the
/// enumeration holds exactly one entry for that path.
pub proof fn law_register_idempotent(s: Seq<RecordView>, p: Seq<u8>)
    requires
        distinct_names(s),
        key_is_sound(s, p),
    ensures
        register_spec(register_spec(s, p), p) == register_spec(s, p),
        distinct_names(register_spec(s, p)),
        count_path(live(register_spec(s, p)), p) == 1,
{
    let r = register_spec(s, p);
    if has_name(s, key_of(p)) {
        let i = choose|i: int| 0 <= i < s.len() && (#[trigger] s[i]).name == key_of(p);
        lemma_present_live_once(s, p, i);
    } else {
        let n = s.len() as int;
        assert(r[n].name == key_of(p));
        assert(has_name(r, key_of(p)));
        assert forall|a: int, b: int| 0 <= a < b < r.len() implies (#[trigger] r[a]).name != (
        #[trigger] r[b]).name by {
            if b == n {
                assert(s[a].name != key_of(p));
            } else {
                assert(s[a].name != s[b].name);
            }
        }
        lemma_present_live_once(r, p, n);
    }
}

/// However often one path is registered, by however many callers in turn,
/// the records are those after one registration, with one entry for it.
pub proof fn law_register_converges(s: Seq<RecordView>, p: Seq<u8>, n: nat)
    requires
        distinct_names(s),
        key_is_sound(s, p),
        n >= 1,
    ensures
        register_times(s, p, n) == register_spec(s, p),
        count_path(live(register_times(s, p, n)), p) == 1,
    decreases n,
{
    law_register_idempotent(s, p);
    if n > 1 {
        law_register_converges(s, p, (n - 1) as nat);
    } else {
        assert(register_times(s, p, 0) == s);
    }
}

/// Unregistering a key leaves no record under it, so that unregistering it
/// once more changes nothing.
pub proof fn law_unregister_twice(s: Seq<RecordView>, k: Seq<u8>)
    requires
        distinct_names(s),
    ensures
        !has_name(unregister_spec(s, k), k),
        distinct_names(unregister_spec(s, k)),
        unregister_spec(unregister_spec(s, k), k) == unregister_spec(s, k),
{
    let u = unregister_spec(s, k);
    if has_name(s, k) {
        let i = choose|i: int| 0 <= i < s.len() && (#[trigger] s[i]).name == k;
        assert(u == s.remove(i));
        assert forall|a: int| 0 <= a < u.len() implies (#[trigger] u[a]).name != k by {
            if a < i {
                assert(s[a].name != s[i].name);
            } else {
                assert(s[i].name != s[a + 1].name);
            }
        }
        assert forall|a: int, b: int| 0 <= a < b < u.len() implies (#[trigger] u[a]).name != (
        #[trigger] u[b]).name by {
            let a0 = if a < i { a } else { a + 1 };
            let b0 = if b < i { b } else { b + 1 };
            assert(s[a0].name != s[b0].name);
        }
    }
}

/// The enumeration of records laid end to end is that of the first part
/// followed by that of the second.
pub proof fn lemma_live_concat(a: Seq<RecordView>, b: Seq<RecordView>)
    ensures
        live(a + b) == live(a) + live(b),
    decreases b.len(),
{
    if b.len() == 0 {
        assert(a + b =~= a);
        assert(live(a) + live(b) =~= live(a));
    } else {
        assert((a + b).drop_last() =~= a + b.drop_last());
        assert((a + b).last() == b.last());
        lemma_live_concat(a, b.drop_last());
        match decode(b.last()) {
            Some(e) => {
                assert(live(a + b) =~= live(a) + live(b));
            },
            None => {},
        }
    }
}

/// A record that does not decode, wherever it stands among the others, is
/// passed over: the enumeration is that of the records around it.
pub proof fn law_bad_record_skipped(a: Seq<RecordView>, r: RecordView, b: Seq<RecordView>)
    requires
        r.target is None || r.name != key_of(r.target->Some_0),
    ensures
        live(a.push(r) + b) == live(a) + live(b),
{
    lemma_live_concat(a.push(r), b);
    assert(a.push(r).drop_last() =~= a);
}

proof fn lemma_live_sound(s: Seq<RecordView>, j: int)
    requires
        0 <= j < live(s).len(),
    ensures
        live(s)[j].key == key_of(live(s)[j].path),
    decreases s.len(),
{
    if s.len() > 0 {
        match decode(s.last()) {
            Some(e) => {
                if j < live(s.drop_last()).len() {
                    lemma_live_sound(s.drop_last(), j);
                }
            },
            None => {
                lemma_live_sound(s.drop_last(), j);
            },
        }
    }
}

proof fn lemma_counted_is_there(e: Seq<EntryView>, p: Seq<u8>)
    requires
        count_path(e, p) > 0,
    ensures
        exists|j: int| 0 <= j < e.len() && (#[trigger] e[j]).path == p,
    decreases e.len(),
{
    if e.len() > 0 {
        if e.last().path == p {
            assert(e[e.len() - 1].path == p);
        } else {
            lemma_counted_is_there(e.drop_last(), p);
            let j = choose|j: int|
                0 <= j < e.drop_last().len() && (#[trigger] e.drop_last()[j]).path == p;
            assert(e[j].path == p);
        }
    }
}

/// After a path is registered the enumeration holds it under its key, and
/// whatever entry bears that key gives the same path back.
pub proof fn law_round_trip(s: Seq<RecordView>, p: Seq<u8>)
    requires
        distinct_names(s),
        key_is_sound(s, p),
    ensures
        live(register_spec(s, p)).contains(EntryView { key: key_of(p), path: p }),
        forall|j: int|
            0 <= j < live(register_spec(s, p)).len() && (#[trigger] live(
                register_spec(s, p),
            )[j]).key == key_of(p) ==> live(register_spec(s, p))[j].path == p,
{
    let e = live(register_spec(s, p));
    law_register_idempotent(s, p);
    lemma_counted_is_there(e, p);
    let j = choose|j: int| 0 <= j < e.len() && (#[trigger] e[j]).path == p;
    lemma_live_sound(register_spec(s, p), j);
    assert(e[j] == EntryView { key: key_of(p), path: p });
    assert forall|i: int| 0 <= i < e.len() && (#[trigger] e[i]).key == key_of(p) implies e[i].path
        == p by {
        lemma_live_sound(register_spec(s, p), i);
        lemma_key_injective(e[i].path, p);
    }
}

} // verus!
