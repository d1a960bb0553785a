//! The context that one run of the tool works in.

use vstd::prelude::*;
use crate::bytes::append_bytes;

verus! {

/// The directories and settings of one run.
#[derive(Clone, Debug)]
pub struct Flox {
    /// The user's configuration directory.
    pub config_dir: Vec<u8>,
    pub cache_dir: Vec<u8>,
    pub data_dir: Vec<u8>,
    pub temp_dir: Vec<u8>,
    /// Whether to collect metrics of any kind.
    pub collect_metrics: bool,
    pub system: Vec<u8>,
}

/// The name of the registry's directory below the cache directory.
pub open spec fn registry_dir_name() -> Seq<u8> {
    seq![
        114u8, 101u8, 103u8, 105u8, 115u8, 116u8, 101u8, 114u8, 101u8, 100u8, 95u8, 101u8, 110u8,
        118u8, 105u8, 114u8, 111u8, 110u8, 109u8, 101u8, 110u8, 116u8, 115u8,
    ]
}

/// A directory's path with a relative name below it: a separator stands
/// between the two unless the directory's path is empty or ends in one.
pub open spec fn joined(base: Seq<u8>, name: Seq<u8>) -> Seq<u8> {
    if base.len() == 0 || base.last() == 47u8 {
        base + name
    } else {
        base.push(47u8) + name
    }
}

/// The path of `name` below the directory `base`.
pub fn join_path(base: &Vec<u8>, name: &Vec<u8>) -> (out: Vec<u8>)
    ensures
        out@ == joined(base@, name@),
{
    let mut out: Vec<u8> = Vec::new();
    append_bytes(&mut out, base);
    assert(out@ =~= base@);
    let n: usize = base.len();
    if n > 0 && base[n - 1] != 47u8 {
        out.push(47u8);
    }
    append_bytes(&mut out, name);
    out
}

impl Flox {
    /// The directory that holds the registry of environments.
    pub fn registry_dir(&self) -> (out: Vec<u8>)
        ensures
            out@ == joined(self.cache_dir@, registry_dir_name()),
    {
        let mut name: Vec<u8> = Vec::new();
        name.push(114u8);
        name.push(101u8);
        name.push(103u8);
        name.push(105u8);
        name.push(115u8);
        name.push(116u8);
        name.push(101u8);
        name.push(114u8);
        name.push(101u8);
        name.push(100u8);
        name.push(95u8);
        name.push(101u8);
        name.push(110u8);
        name.push(118u8);
        name.push(105u8);
        name.push(114u8);
        name.push(111u8);
        name.push(110u8);
        name.push(109u8);
        name.push(101u8);
        name.push(110u8);
        name.push(116u8);
        name.push(115u8);
        assert(name@ =~= registry_dir_name());
        join_path(&self.cache_dir, &name)
    }
}

} // verus!
