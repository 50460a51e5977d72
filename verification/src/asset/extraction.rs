//! Collecting the identifiers of the assets an asset depends on.

use vstd::prelude::*;
use std::collections::BTreeSet;
use crate::asset::Loaded;

verus! {

/// Anything that depends on other assets and can list them.
pub trait ExtractChildren<S: Ord> {
    /// Adds the identifiers of the assets this depends on to `assets`,
    /// keeping those already there.
    fn extract_children(&self, assets: &mut BTreeSet<S>)
        ensures
            vstd::laws_cmp::obeys_cmp::<S>() ==> old(assets)@.subset_of(final(assets)@),
    ;
}

impl ExtractChildren<String> for String {
    /// An asset identifier depends on the asset it names.
    fn extract_children(&self, assets: &mut BTreeSet<String>)
        ensures
            vstd::laws_cmp::obeys_cmp::<String>() ==> final(assets)@ == old(assets)@.insert(*self),
    {
        assets.insert(self.clone());
    }
}

impl<T: ExtractChildren<String>> ExtractChildren<String> for Loaded<T, String> {
    /// A loaded value depends on the asset it came from and on what the
    /// value itself depends on.
    fn extract_children(&self, assets: &mut BTreeSet<String>)
        ensures
            vstd::laws_cmp::obeys_cmp::<String>() ==> final(assets)@.contains(self.asset_id()),
    {
        assets.insert(self.asset().clone());
        self.get().extract_children(assets);
    }
}

} // verus!
