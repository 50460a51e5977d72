//! Stores that hold assets for later access, and how a store on the file
//! system lays its files out.

use vstd::prelude::*;
use vstd::string::StringSliceAdditionalSpecFns;
use vstd::utf8::{encode_utf8, is_char_boundary};

pub mod file_system_asset_store;

verus! {

/// Why an asset could not be pulled from a store.
#[derive(Copy, Clone, Debug, PartialEq, Eq)]
pub enum LoadError {
    /// The asset was found, but cannot be decoded.
    Corrupt,
    /// Some other error occurred accessing the asset.
    InternalError,
    /// The asset was not found in the store.
    Unknown,
}

impl LoadError {
    /// A short description of the error.
    pub fn description(&self) -> (r: &'static str)
        ensures
            r@ == match self {
                LoadError::Corrupt => "asset is corrupt"@,
                LoadError::InternalError => "internal error"@,
                LoadError::Unknown => "unknown problem"@,
            },
    {
        match self {
            LoadError::Corrupt => "asset is corrupt",
            LoadError::InternalError => "internal error",
            LoadError::Unknown => "unknown problem",
        }
    }
}

/// A store whose operations are awaited.
pub struct AsyncStore<T>(pub T);

/// An asset store backed by a directory: `root` holds the files, whose
/// paths split an asset's identifier into nested directories.
pub struct FileSystemStore<T> {
    root: T,
    splits: Vec<usize>,
}

/// The directories an asset identifier is split into: successive pieces of
/// the lengths in `splits`, stopping at the first piece that would be empty,
/// run past the end of the identifier, or end inside a character.
pub open spec fn split_pieces(text: Seq<u8>, splits: Seq<usize>) -> Seq<Seq<u8>>
    decreases splits.len(),
{
    if splits.len() == 0 {
        Seq::empty()
    } else {
        let l = splits[0] as int;
        if 0 < l && l <= text.len() && is_char_boundary(text, l) {
            seq![text.subrange(0, l)] + split_pieces(text.subrange(l, text.len() as int), splits.drop_first())
        } else {
            Seq::empty()
        }
    }
}

/// What is left of the identifier after the pieces `split_pieces` takes.
pub open spec fn split_rest(text: Seq<u8>, splits: Seq<usize>) -> Seq<u8>
    decreases splits.len(),
{
    if splits.len() == 0 {
        text
    } else {
        let l = splits[0] as int;
        if 0 < l && l <= text.len() && is_char_boundary(text, l) {
            split_rest(text.subrange(l, text.len() as int), splits.drop_first())
        } else {
            text
        }
    }
}

/// Each split the scan reaches, added to the length already taken
/// (`offset`), fits a `usize`.
pub open spec fn splits_fit(text: Seq<u8>, offset: int, splits: Seq<usize>) -> bool
    decreases splits.len(),
{
    if splits.len() == 0 {
        true
    } else {
        let l = splits[0] as int;
        &&& offset + l <= usize::MAX
        &&& (0 < l && l <= text.len() && is_char_boundary(text, l)) ==> splits_fit(
            text.subrange(l, text.len() as int),
            offset + l,
            splits.drop_first(),
        )
    }
}

/// Whether every split the scan of `asset` reaches, added to the length
/// already taken, fits a `usize`.
pub fn sums_fit(splits: &Vec<usize>, asset: &str) -> (r: bool)
    ensures
        r == splits_fit(asset.spec_bytes(), 0, splits@),
{
    let total: usize = asset.as_bytes().len();
    let mut rest: &str = asset;
    let mut offset: usize = 0;
    let mut k: usize = 0;
    proof {
        assert(splits@.skip(0) =~= splits@);
    }
    while k < splits.len()
        invariant
            k <= splits@.len(),
            offset + rest.spec_bytes().len() == asset.spec_bytes().len(),
            asset.spec_bytes().len() == total,
            splits_fit(asset.spec_bytes(), 0, splits@) == splits_fit(rest.spec_bytes(), offset as int, splits@.skip(k as int)),
        decreases splits@.len() - k,
    {
        let l = splits[k];
        proof {
            assert(splits@.skip(k as int)[0] == l);
            assert(splits@.skip(k as int).drop_first() =~= splits@.skip(k as int + 1));
        }
        if l > usize::MAX - offset {
            return false;
        }
        if l == 0 || l > rest.len() || !rest.is_char_boundary(l) {
            return true;
        }
        let (_piece, tail) = rest.split_at(l);
        rest = tail;
        offset = offset + l;
        k = k + 1;
    }
    proof {
        assert(splits@.skip(k as int) =~= Seq::<usize>::empty());
    }
    true
}

/// The components of the path of asset `asset` below the store's root: the
/// pieces the identifier is split into, then what is left of it.
pub fn path_components(splits: &Vec<usize>, asset: &str) -> (r: Vec<String>)
    requires
        splits_fit(asset.spec_bytes(), 0, splits@),
    ensures
        r@.len() == split_pieces(asset.spec_bytes(), splits@).len() + 1,
        forall|i: int|
            0 <= i < r@.len() - 1 ==> encode_utf8((#[trigger] r@[i])@) == split_pieces(asset.spec_bytes(), splits@)[i],
        encode_utf8(r@[r@.len() - 1]@) == split_rest(asset.spec_bytes(), splits@),
{
    let ghost pieces = split_pieces(asset.spec_bytes(), splits@);
    let total: usize = asset.as_bytes().len();
    let mut result: Vec<String> = Vec::new();
    let mut rest: &str = asset;
    let mut k: usize = 0;
    let mut splitting = true;
    proof {
        assert(splits@.skip(0) =~= splits@);
        assert(result@.map_values(|s: String| encode_utf8(s@)) =~= Seq::<Seq<u8>>::empty());
        assert(pieces =~= Seq::<Seq<u8>>::empty() + pieces);
    }
    while splitting && k < splits.len()
        invariant
            k <= splits@.len(),
            rest.spec_bytes().len() <= asset.spec_bytes().len(),
            asset.spec_bytes().len() == total,
            pieces == split_pieces(asset.spec_bytes(), splits@),
            splitting ==> pieces == result@.map_values(|s: String| encode_utf8(s@)) + split_pieces(
                rest.spec_bytes(),
                splits@.skip(k as int),
            ),
            splitting ==> split_rest(asset.spec_bytes(), splits@) == split_rest(rest.spec_bytes(), splits@.skip(k as int)),
            !splitting ==> pieces == result@.map_values(|s: String| encode_utf8(s@)),
            !splitting ==> split_rest(asset.spec_bytes(), splits@) == rest.spec_bytes(),
        decreases splits@.len() - k,
    {
        let l = splits[k];
        proof {
            assert(splits@.skip(k as int)[0] == l);
            assert(splits@.skip(k as int).drop_first() =~= splits@.skip(k as int + 1));
        }
        if l == 0 || l > rest.len() || !rest.is_char_boundary(l) {
            proof {
                assert(pieces =~= result@.map_values(|s: String| encode_utf8(s@)));
            }
            splitting = false;
        } else {
            let (piece, tail) = rest.split_at(l);
            let ghost before = result@;
            result.push(piece.to_owned());
            proof {
                assert(result@.map_values(|s: String| encode_utf8(s@)) =~= before.map_values(|s: String| encode_utf8(s@)).push(
                    piece.spec_bytes(),
                ));
                assert(pieces =~= result@.map_values(|s: String| encode_utf8(s@)) + split_pieces(
                    tail.spec_bytes(),
                    splits@.skip(k as int + 1),
                ));
            }
            rest = tail;
        }
        k = k + 1;
    }
    proof {
        if splitting {
            assert(splits@.skip(k as int) =~= Seq::<usize>::empty());
            assert(pieces =~= result@.map_values(|s: String| encode_utf8(s@)));
        }
        assert(forall|i: int|
            0 <= i < result@.len() ==> encode_utf8((#[trigger] result@[i])@) == result@.map_values(|s: String| encode_utf8(s@))[i]);
    }
    result.push(rest.to_owned());
    result
}

impl<T> FileSystemStore<T> {
    /// The directory holding the asset files.
    pub closed spec fn spec_root(&self) -> T {
        self.root
    }

    /// The lengths identifiers are split at.
    pub closed spec fn spec_splits(&self) -> Seq<usize> {
        self.splits@
    }

    /// A store backed by `directory`, splitting identifiers at `splits`: a
    /// split of 4, 2 stores `AAAABBCCCC` as `AAAA/BB/CCCC`.
    pub fn new(directory: T, splits: Vec<usize>) -> (r: Self)
        ensures
            r.spec_root() == directory,
            r.spec_splits() == splits@,
    {
        FileSystemStore { root: directory, splits }
    }

    /// The directory holding the asset files.
    pub fn root(&self) -> (r: &T)
        ensures
            *r == self.spec_root(),
    {
        &self.root
    }

    /// Whether each split the scan of `asset` reaches, added to the length
    /// already taken, fits a `usize`, as `get_path` needs.
    pub fn fits(&self, asset: &str) -> (r: bool)
        ensures
            r == splits_fit(asset.spec_bytes(), 0, self.spec_splits()),
    {
        sums_fit(&self.splits, asset)
    }

    /// The path components of asset `asset` below the root: the pieces the
    /// identifier is split into, then what is left of it.
    pub fn get_path(&self, asset: &str) -> (r: Vec<String>)
        requires
            splits_fit(asset.spec_bytes(), 0, self.spec_splits()),
        ensures
            r@.len() == split_pieces(asset.spec_bytes(), self.spec_splits()).len() + 1,
            forall|i: int|
                0 <= i < r@.len() - 1 ==> encode_utf8((#[trigger] r@[i])@) == split_pieces(asset.spec_bytes(), self.spec_splits())[i],
            encode_utf8(r@[r@.len() - 1]@) == split_rest(asset.spec_bytes(), self.spec_splits()),
    {
        path_components(&self.splits, asset)
    }
}

} // verus!
