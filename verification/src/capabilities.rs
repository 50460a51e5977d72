//! The optional capabilities assets may need, and which of them this
//! library supports.

use vstd::prelude::*;
use std::collections::BTreeSet;

verus! {

/// The capabilities this library supports: none yet.
pub open spec fn supported(capability: Seq<char>) -> bool {
    false
}

/// The first capability of `capabilities`, from `i` on, that is not supported.
pub open spec fn first_unsupported(capabilities: Seq<String>, i: nat) -> Option<nat>
    decreases capabilities.len() - i,
{
    if i >= capabilities.len() {
        None
    } else if !supported(capabilities[i as int]@) {
        Some(i)
    } else {
        first_unsupported(capabilities, i + 1)
    }
}

/// The name of a supported capability, by its name.
pub(crate) fn find_supported(capability: &String) -> (r: Option<&'static str>)
    ensures
        r is None <==> !supported(capability@),
        r matches Some(name) ==> name@ == capability@,
{
    None
}

/// Checks that every capability an asset needs is supported: the set of
/// supported names when they all are (empty, as none is supported yet),
/// otherwise the first one that is not.
pub fn all_supported(capabilities: Vec<String>) -> (r: Result<BTreeSet<&'static str>, String>)
    ensures
        match r {
            Ok(found) => first_unsupported(capabilities@, 0) is None && found@ == Set::<&'static str>::empty(),
            Err(missing) => first_unsupported(capabilities@, 0) matches Some(i) && missing == capabilities@[i as int],
        },
{
    let mut found: BTreeSet<&'static str> = BTreeSet::new();
    let mut i: usize = 0;
    while i < capabilities.len()
        invariant
            i <= capabilities@.len(),
            first_unsupported(capabilities@, 0) == first_unsupported(capabilities@, i as nat),
            found@ == Set::<&'static str>::empty(),
        decreases capabilities@.len() - i,
    {
        match find_supported(&capabilities[i]) {
            Some(name) => {
                found.insert(name);
            },
            None => {
                let mut capabilities = capabilities;
                return Err(capabilities.swap_remove(i));
            },
        }
        i = i + 1;
    }
    Ok(found)
}

} // verus!
