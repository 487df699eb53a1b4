//! POSIX paths as byte strings: components separated by `/`.
//!
//! On a POSIX system the functions here give what the methods of the same
//! names on `std::path::Path` give. Paths by the rules of another system, with
//! drives or with `\` as a separator, are not handled.

use vstd::prelude::*;
use vstd::string::*;

use crate::bytes::{after_last, copied, last_index, lemma_last_index_bounds, same, DOT, SLASH};

verus! {

/// Whether a path starts from the root.
pub open spec fn absolute(path: Seq<u8>) -> bool {
    path.len() > 0 && path[0] == SLASH
}

/// `path` as seen from the directory `base`: an absolute path stays as it is,
/// any other is appended to `base`, behind a separator unless `base` is empty
/// or ends in one.
pub open spec fn joined(base: Seq<u8>, path: Seq<u8>) -> Seq<u8> {
    if absolute(path) {
        path
    } else if base.len() == 0 || base.last() == SLASH {
        base + path
    } else {
        base.push(SLASH) + path
    }
}

/// The last component of a path, with trailing separators and `.` components
/// left out. It is empty or `.` where the path has no other component.
pub open spec fn last_component(path: Seq<u8>) -> Seq<u8>
    decreases path.len(),
    via last_component_decreases
{
    let slash = last_index(path, SLASH);
    let tail = path.skip(slash + 1);
    if slash >= 0 && (tail.len() == 0 || tail == ".".spec_bytes()) {
        last_component(path.take(slash))
    } else {
        tail
    }
}

#[via_fn]
proof fn last_component_decreases(path: Seq<u8>) {
    lemma_last_index_bounds(path, SLASH);
}

/// The file name of a path: its last component, unless that is `.` or `..` or
/// there is none.
pub open spec fn file_name(path: Seq<u8>) -> Option<Seq<u8>> {
    let name = last_component(path);
    if name.len() == 0 || name == ".".spec_bytes() || name == "..".spec_bytes() {
        None
    } else {
        Some(name)
    }
}

/// What follows the last `.` of the file name, if the name has one behind its
/// first byte.
pub open spec fn extension_of(path: Seq<u8>) -> Option<Seq<u8>> {
    match file_name(path) {
        Some(name) => {
            let dot = last_index(name, DOT);
            if dot <= 0 {
                None
            } else {
                Some(name.skip(dot + 1))
            }
        },
        None => None,
    }
}

/// Whether a path starts from the root.
pub fn is_absolute(path: &[u8]) -> (r: bool)
    ensures
        r == absolute(path@),
{
    path.len() > 0 && path[0] == SLASH
}

/// `path` as seen from the directory `base`.
pub fn join(base: &[u8], path: &[u8]) -> (r: Vec<u8>)
    ensures
        r@ == joined(base@, path@),
{
    if is_absolute(path) {
        return copied(path);
    }
    let mut r: Vec<u8> = copied(base);
    if base.len() > 0 && base[base.len() - 1] != SLASH {
        r.push(SLASH);
    }
    r.extend_from_slice(path);
    r
}

/// What follows the last `.` of the file name of a path.
pub fn extension(path: &[u8]) -> (r: Option<&[u8]>)
    ensures
        match r {
            Some(ext) => extension_of(path@) == Some(ext@),
            None => extension_of(path@) is None,
        },
{
    let mut end: usize = path.len();
    assert(path@.take(path@.len() as int) == path@);
    loop
        invariant
            end <= path@.len(),
            last_component(path@) == last_component(path@.take(end as int)),
        decreases end,
    {
        let part: &[u8] = vstd::slice::slice_subrange(path, 0, end);
        assert(part@ == path@.take(end as int));
        let start: usize = after_last(part, SLASH);
        let name: &[u8] = vstd::slice::slice_subrange(part, start, end);
        assert(name@ == part@.skip(start as int));
        if start > 0 && (name.len() == 0 || same(name, ".".as_bytes())) {
            assert(part@.take(start - 1) == path@.take(start - 1));
            end = start - 1;
            continue;
        }
        if name.len() == 0 || same(name, ".".as_bytes()) || same(name, "..".as_bytes()) {
            return None;
        }
        let dot: usize = after_last(name, DOT);
        if dot <= 1 {
            return None;
        }
        let ext: &[u8] = vstd::slice::slice_subrange(name, dot, name.len());
        assert(ext@ == name@.skip(dot as int));
        return Some(ext);
    }
}

} // verus!
