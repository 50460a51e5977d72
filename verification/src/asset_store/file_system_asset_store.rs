//! An asset store backed by a directory on the file system.

use vstd::prelude::*;
use vstd::string::StringSliceAdditionalSpecFns;
use vstd::utf8::encode_utf8;
use crate::asset_store::{path_components, split_pieces, split_rest, splits_fit, sums_fit};

verus! {

/// An asset store backed by a directory: `root` holds the files, whose
/// paths split an asset's identifier into nested directories.
pub struct FileSystemAssetStore<T> {
    root: T,
    splits: Vec<usize>,
}

impl<T> FileSystemAssetStore<T> {
    /// The directory holding the asset files.
    pub closed spec fn spec_root(&self) -> T {
        self.root
    }

    /// The lengths identifiers are split at.
    pub closed spec fn spec_splits(&self) -> Seq<usize> {
        self.splits@
    }

    /// A store backed by `directory`, splitting identifiers at `splits`: a
    /// split of 4, 2 stores `AAAABBCCCC` as `AAAA/BB/CCCC`.
    pub fn new(directory: T, splits: Vec<usize>) -> (r: Self)
        ensures
            r.spec_root() == directory,
            r.spec_splits() == splits@,
    {
        FileSystemAssetStore { root: directory, splits }
    }

    /// The directory holding the asset files.
    pub fn root(&self) -> (r: &T)
        ensures
            *r == self.spec_root(),
    {
        &self.root
    }

    /// Whether each split the scan of `asset` reaches, added to the length
    /// already taken, fits a `usize`, as `get_path` needs.
    pub fn fits(&self, asset: &str) -> (r: bool)
        ensures
            r == splits_fit(asset.spec_bytes(), 0, self.spec_splits()),
    {
        sums_fit(&self.splits, asset)
    }

    /// The path components of asset `asset` below the root.
    pub fn get_path(&self, asset: &str) -> (r: Vec<String>)
        requires
            splits_fit(asset.spec_bytes(), 0, self.spec_splits()),
        ensures
            r@.len() == split_pieces(asset.spec_bytes(), self.spec_splits()).len() + 1,
            forall|i: int|
                0 <= i < r@.len() - 1 ==> encode_utf8((#[trigger] r@[i])@) == split_pieces(asset.spec_bytes(), self.spec_splits())[i],
            encode_utf8(r@[r@.len() - 1]@) == split_rest(asset.spec_bytes(), self.spec_splits()),
    {
        path_components(&self.splits, asset)
    }
}

} // verus!
