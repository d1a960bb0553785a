//! Canonical paths and the registry keys derived from them.
//!
//! A key is the lower-case hexadecimal spelling of the path's bytes. It is a
//! valid file name whatever the path holds, and two paths never share a key.

use vstd::prelude::*;
use crate::bytes::copy_bytes;
use crate::error::RegistryError;

verus! {

/// The hexadecimal digit for a value below sixteen.
pub open spec fn hex_digit(n: int) -> u8 {
    if n < 10 {
        (48 + n) as u8
    } else {
        (87 + n) as u8
    }
}

/// The key of a path: two hexadecimal digits for each byte, high digit first.
pub open spec fn key_of(path: Seq<u8>) -> Seq<u8>
    decreases path.len(),
{
    if path.len() == 0 {
        Seq::empty()
    } else {
        key_of(path.drop_last()).push(hex_digit(path.last() as int / 16)).push(
            hex_digit(path.last() as int % 16),
        )
    }
}

/// A key is twice as long as its path.
pub proof fn lemma_key_len(path: Seq<u8>)
    ensures
        key_of(path).len() == 2 * path.len(),
    decreases path.len(),
{
    if path.len() > 0 {
        lemma_key_len(path.drop_last());
    }
}

/// Different paths have different keys.
pub proof fn lemma_key_injective(a: Seq<u8>, b: Seq<u8>)
    requires
        key_of(a) == key_of(b),
    ensures
        a == b,
    decreases a.len(),
{
    lemma_key_len(a);
    lemma_key_len(b);
    if a.len() > 0 {
        let ka = key_of(a.drop_last());
        let kb = key_of(b.drop_last());
        lemma_key_len(a.drop_last());
        lemma_key_len(b.drop_last());
        let x = a.last() as int;
        let y = b.last() as int;
        let n = key_of(a).len() as int;
        assert(key_of(a)[n - 2] == hex_digit(x / 16));
        assert(key_of(a)[n - 1] == hex_digit(x % 16));
        assert(key_of(b)[n - 2] == hex_digit(y / 16));
        assert(key_of(b)[n - 1] == hex_digit(y % 16));
        assert(x / 16 == y / 16);
        assert(x % 16 == y % 16);
        assert(x == y);
        assert(ka =~= key_of(a).take(n - 2));
        assert(kb =~= key_of(b).take(n - 2));
        lemma_key_injective(a.drop_last(), b.drop_last());
        assert(a =~= a.drop_last().push(a.last()));
        assert(b =~= b.drop_last().push(b.last()));
    } else {
        assert(a =~= b);
    }
}

/// An absolute, symlink-free path: the identity of an environment's location.
#[derive(Debug)]
pub struct CanonicalPath {
    bytes: Vec<u8>,
}

impl View for CanonicalPath {
    type V = Seq<u8>;

    closed spec fn view(&self) -> Seq<u8> {
        self.bytes@
    }
}

impl CanonicalPath {
    /// Takes what resolving a path gave: the canonical bytes, or nothing
    /// where the path does not exist.
    pub fn new(resolved: Option<Vec<u8>>) -> (out: Result<CanonicalPath, RegistryError>)
        ensures
            match resolved {
                Some(bytes) => out is Ok && out->Ok_0@ == bytes@,
                None => out == Err::<CanonicalPath, RegistryError>(RegistryError::NotFound),
            },
    {
        match resolved {
            Some(bytes) => Ok(CanonicalPath { bytes }),
            None => Err(RegistryError::NotFound),
        }
    }

    /// The canonical path with the given bytes.
    pub(crate) fn from_bytes(bytes: Vec<u8>) -> (out: CanonicalPath)
        ensures
            out@ == bytes@,
    {
        CanonicalPath { bytes }
    }

    /// The path's bytes.
    pub fn as_bytes(&self) -> (out: &Vec<u8>)
        ensures
            out@ == self@,
    {
        &self.bytes
    }

    /// A copy of this path.
    pub fn duplicate(&self) -> (out: CanonicalPath)
        ensures
            out@ == self@,
    {
        CanonicalPath { bytes: copy_bytes(&self.bytes) }
    }
}

/// The name under which a path is stored in the registry.
#[derive(Debug)]
pub struct RegistryKey {
    digits: Vec<u8>,
}

impl View for RegistryKey {
    type V = Seq<u8>;

    closed spec fn view(&self) -> Seq<u8> {
        self.digits@
    }
}

fn digit_of(n: u8) -> (d: u8)
    requires
        n < 16,
    ensures
        d == hex_digit(n as int),
{
    if n < 10 {
        48 + n
    } else {
        87 + n
    }
}

/// The key bytes of a path.
pub fn key_bytes(path: &Vec<u8>) -> (out: Vec<u8>)
    ensures
        out@ == key_of(path@),
{
    let mut out: Vec<u8> = Vec::new();
    let mut i: usize = 0;
    while i < path.len()
        invariant
            i <= path.len(),
            out@ == key_of(path@.take(i as int)),
        decreases path.len() - i,
    {
        let b: u8 = path[i];
        out.push(digit_of(b / 16));
        out.push(digit_of(b % 16));
        i += 1;
        assert(path@.take(i as int).drop_last() =~= path@.take(i - 1));
    }
    assert(path@.take(path@.len() as int) =~= path@);
    out
}

impl RegistryKey {
    /// The key of a canonical path. The same path always gives the same key.
    pub fn of(path: &CanonicalPath) -> (out: RegistryKey)
        ensures
            out@ == key_of(path@),
    {
        RegistryKey { digits: key_bytes(path.as_bytes()) }
    }

    /// The key that a stored record's name spells.
    pub fn from_name(name: Vec<u8>) -> (out: RegistryKey)
        ensures
            out@ == name@,
    {
        RegistryKey { digits: name }
    }

    /// The key's bytes, usable as a file name.
    pub fn as_bytes(&self) -> (out: &Vec<u8>)
        ensures
            out@ == self@,
    {
        &self.digits
    }

    /// A copy of this key.
    pub fn duplicate(&self) -> (out: RegistryKey)
        ensures
            out@ == self@,
    {
        RegistryKey { digits: copy_bytes(&self.digits) }
    }
}

} // verus!
