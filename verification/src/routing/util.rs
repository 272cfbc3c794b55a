use vstd::prelude::*;
use vstd::string::StringSliceAdditionalSpecFns;

verus! {

/// A path matches a prefix of `prefix_len` bytes only at a segment boundary:
/// the prefix is the root (`prefix_len <= 1`), the whole path, or is followed by `/`.
pub open spec fn spec_prefix_boundary_matches(path: Seq<u8>, prefix_len: int) -> bool {
    ||| prefix_len <= 1
    ||| path.len() == prefix_len
    ||| (0 <= prefix_len < path.len() && path[prefix_len] == 0x2fu8)
}

pub fn prefix_boundary_matches(path: &str, prefix_len: usize) -> (b: bool)
    ensures
        b == spec_prefix_boundary_matches(path.spec_bytes(), prefix_len as int),
{
    if prefix_len <= 1 {
        return true;
    }
    let bytes = path.as_bytes();
    if bytes.len() == prefix_len {
        return true;
    }
    prefix_len < bytes.len() && bytes[prefix_len] == 0x2fu8
}

} // verus!
