//! What the boot loader hands over, as far as it is searched.

use crate::libs::bytes::{contains, contains_bytes};
use crate::libs::text::str_from_utf8;
use vstd::prelude::*;
use vstd::string::StringSliceAdditionalSpecFns;
use vstd::utf8::valid_utf8;

verus! {

/// Whether the module with the path `path` goes by the name `name`: the
/// path is text and holds the name.
pub open spec fn names_module(path: Seq<u8>, name: Seq<u8>) -> bool {
    valid_utf8(path) && contains(path, name)
}

/// The last of the first `n` paths that goes by the name `name`.
pub open spec fn last_module(paths: Seq<Vec<u8>>, name: Seq<u8>, n: int) -> Option<int>
    decreases n,
{
    if n <= 0 || n > paths.len() {
        None
    } else if names_module(paths[n - 1]@, name) {
        Some(n - 1)
    } else {
        last_module(paths, name, n - 1)
    }
}

/// The module that goes by the name `module_name`, among the modules with
/// the paths `paths`: the last one whose path is text and holds the name.
pub fn get_module(paths: &Vec<Vec<u8>>, module_name: &str) -> (r: Option<usize>)
    ensures
        match r {
            Some(i) => last_module(paths@, module_name.spec_bytes(), paths@.len() as int) == Some(
                i as int,
            ),
            None => last_module(paths@, module_name.spec_bytes(), paths@.len() as int) is None,
        },
{
    let mut n: usize = paths.len();
    while n > 0
        invariant
            n <= paths@.len(),
            last_module(paths@, module_name.spec_bytes(), paths@.len() as int) == last_module(
                paths@,
                module_name.spec_bytes(),
                n as int,
            ),
        decreases n,
    {
        let path = paths[n - 1].as_slice();
        if str_from_utf8(path).is_some() && contains_bytes(path, module_name.as_bytes()) {
            return Some(n - 1);
        }
        n -= 1;
    }
    None
}

} // verus!
