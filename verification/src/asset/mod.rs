//! Assets: the definitions of realms and puzzles shared between servers,
//! their licences, and the operations and rules their pieces follow.

use vstd::prelude::*;
use std::sync::Arc;
use vstd::utf8::encode_utf8;
use crate::digest::{hex_encode, hex_text, rfc3339, rfc3339_text, sha3_512, sha3_512_of};
use crate::time::Timestamp;
use crate::reference_converter::{AsReference, Converter, IntoOwned, Referencer};

pub mod compression;
pub mod extraction;
pub mod puzzle;
pub mod rules;

verus! {

/// An asset header, common to all assets.
#[derive(Clone, Debug)]
pub struct Asset<S, B> {
    pub asset_type: S,
    pub author: S,
    pub server: S,
    pub capabilities: Vec<S>,
    pub children: Vec<S>,
    pub compression: Compression,
    pub data: B,
    pub licence: Licence,
    pub name: S,
    pub tags: Vec<S>,
    pub created: Timestamp,
}

/// How an asset's data is encoded.
#[derive(Copy, Clone, Debug, PartialEq, Eq)]
pub enum Compression {
    MessagePack,
    ZstdMessagePack,
}

/// The licence an asset is shared under. Every licence permits copying
/// unmodified and remixing.
#[derive(Copy, Clone, Debug, PartialEq, Eq)]
pub enum Licence {
    CreativeCommons(LicenceUses),
    CreativeCommonsNoDerivatives(LicenceUses),
    CreativeCommonsShareALike(LicenceUses),
    PubDom,
}

/// Whether a licence permits commercial use.
#[derive(Copy, Clone, Debug, PartialEq, Eq)]
pub enum LicenceUses {
    Commercial,
    NonCommercial,
}

/// A loaded asset value and the identifier of the asset it came from;
/// copies share the value.
#[derive(Debug)]
pub struct Loaded<T, S> {
    asset: S,
    value: Arc<T>,
}

/// The parts of a realm description.
#[derive(Clone, Debug)]
pub enum ItemDescription {
    Spray {  },
    Object {  },
    Connection {  },
}

impl Licence {
    /// The short name of a licence.
    pub open spec fn spec_name(self) -> Seq<char> {
        match self {
            Licence::CreativeCommons(LicenceUses::Commercial) => "cc"@,
            Licence::CreativeCommons(LicenceUses::NonCommercial) => "cc-nc"@,
            Licence::CreativeCommonsNoDerivatives(LicenceUses::Commercial) => "cc-nd"@,
            Licence::CreativeCommonsNoDerivatives(LicenceUses::NonCommercial) => "cc-nd-nc"@,
            Licence::CreativeCommonsShareALike(LicenceUses::Commercial) => "cc-sa"@,
            Licence::CreativeCommonsShareALike(LicenceUses::NonCommercial) => "cc-sa-nc"@,
            Licence::PubDom => "public"@,
        }
    }

    /// The short name of this licence.
    pub fn name(&self) -> (r: &'static str)
        ensures
            r@ == self.spec_name(),
    {
        match self {
            Licence::CreativeCommons(u) => match u {
                LicenceUses::Commercial => "cc",
                LicenceUses::NonCommercial => "cc-nc",
            },
            Licence::CreativeCommonsNoDerivatives(u) => match u {
                LicenceUses::Commercial => "cc-nd",
                LicenceUses::NonCommercial => "cc-nd-nc",
            },
            Licence::CreativeCommonsShareALike(u) => match u {
                LicenceUses::Commercial => "cc-sa",
                LicenceUses::NonCommercial => "cc-sa-nc",
            },
            Licence::PubDom => "public",
        }
    }
}

impl<T, S> Loaded<T, S> {
    /// The identifier of the asset the value came from.
    pub closed spec fn asset_id(&self) -> S {
        self.asset
    }

    /// The loaded value.
    pub closed spec fn value(&self) -> T {
        *self.value
    }

    /// Pairs a loaded value with the identifier of its asset.
    pub fn new(asset: S, value: T) -> (r: Self)
        ensures
            r.asset_id() == asset,
            r.value() == value,
    {
        Loaded { asset, value: Arc::new(value) }
    }

    /// The identifier of the asset the value came from.
    pub fn asset(&self) -> (r: &S)
        ensures
            *r == self.asset_id(),
    {
        &self.asset
    }

    /// The loaded value.
    pub fn get(&self) -> (r: &T)
        ensures
            *r == self.value(),
    {
        &*self.value
    }
}

/// Every string of `output` is what `referencer` borrows from the string of
/// `input` at the same place.
pub open spec fn refers_each<'a, S, R: Referencer<S>>(
    referencer: R,
    input: Seq<S>,
    output: Seq<<R as Referencer<S>>::Output<'a>>,
) -> bool {
    &&& output.len() == input.len()
    &&& forall|i: int| 0 <= i < input.len() ==> Referencer::<S>::refers(&referencer, input[i], #[trigger] output[i])
}

/// Every string of `output` is what `converter` makes of the string of
/// `input` at the same place.
pub open spec fn converts_each<S, C: Converter<S>>(converter: C, input: Seq<S>, output: Seq<<C as Converter<S>>::Output>) -> bool {
    &&& output.len() == input.len()
    &&& forall|i: int| 0 <= i < input.len() ==> Converter::<S>::converts(&converter, input[i], #[trigger] output[i])
}

/// Borrows each string of `items` with `referencer`.
fn reference_each<'a, S, R: Referencer<S>>(referencer: &R, items: &'a Vec<S>) -> (r: Vec<<R as Referencer<S>>::Output<'a>>)
    ensures
        refers_each(*referencer, items@, r@),
{
    let mut result: Vec<<R as Referencer<S>>::Output<'a>> = Vec::new();
    let mut i: usize = 0;
    while i < items.len()
        invariant
            i <= items@.len(),
            result@.len() == i,
            forall|k: int| 0 <= k < i ==> Referencer::<S>::refers(referencer, items@[k], #[trigger] result@[k]),
        decreases items@.len() - i,
    {
        result.push(Referencer::<S>::convert(referencer, &items[i]));
        i = i + 1;
    }
    result
}

/// Converts each string of `items` with `converter`, in order.
fn convert_each<S, C: Converter<S>>(converter: &C, items: Vec<S>) -> (r: Vec<<C as Converter<S>>::Output>)
    ensures
        converts_each(*converter, items@, r@),
{
    let mut result: Vec<<C as Converter<S>>::Output> = Vec::new();
    let mut rest = items;
    while rest.len() > 0
        invariant
            rest@ == items@.skip(result@.len() as int),
            result@.len() <= items@.len(),
            forall|k: int| 0 <= k < result@.len() ==> Converter::<S>::converts(converter, items@[k], #[trigger] result@[k]),
        decreases rest@.len(),
    {
        let item = rest.remove(0);
        result.push(Converter::<S>::convert(converter, item));
        proof {
            assert(rest@ =~= items@.skip(result@.len() as int));
        }
    }
    result
}

impl<S, B> Asset<S, B> {
    /// The same asset over strings and data borrowed from this one by `referencer`.
    pub fn reference<'a, R: Referencer<S> + Referencer<B>>(&'a self, referencer: R) -> (r: Asset<
        <R as Referencer<S>>::Output<'a>,
        <R as Referencer<B>>::Output<'a>,
    >)
        ensures
            Referencer::<S>::refers(&referencer, self.asset_type, r.asset_type),
            Referencer::<S>::refers(&referencer, self.author, r.author),
            Referencer::<S>::refers(&referencer, self.server, r.server),
            refers_each(referencer, self.capabilities@, r.capabilities@),
            refers_each(referencer, self.children@, r.children@),
            r.compression == self.compression,
            Referencer::<B>::refers(&referencer, self.data, r.data),
            r.licence == self.licence,
            Referencer::<S>::refers(&referencer, self.name, r.name),
            refers_each(referencer, self.tags@, r.tags@),
            r.created == self.created,
    {
        Asset {
            asset_type: Referencer::<S>::convert(&referencer, &self.asset_type),
            author: Referencer::<S>::convert(&referencer, &self.author),
            server: Referencer::<S>::convert(&referencer, &self.server),
            capabilities: reference_each(&referencer, &self.capabilities),
            children: reference_each(&referencer, &self.children),
            compression: self.compression,
            data: Referencer::<B>::convert(&referencer, &self.data),
            licence: self.licence,
            name: Referencer::<S>::convert(&referencer, &self.name),
            tags: reference_each(&referencer, &self.tags),
            created: self.created,
        }
    }

    /// The same asset over strings and data turned into other types by `converter`.
    pub fn convert<C: Converter<S> + Converter<B>>(self, converter: C) -> (r: Asset<
        <C as Converter<S>>::Output,
        <C as Converter<B>>::Output,
    >)
        ensures
            Converter::<S>::converts(&converter, self.asset_type, r.asset_type),
            Converter::<S>::converts(&converter, self.author, r.author),
            Converter::<S>::converts(&converter, self.server, r.server),
            converts_each(converter, self.capabilities@, r.capabilities@),
            converts_each(converter, self.children@, r.children@),
            r.compression == self.compression,
            Converter::<B>::converts(&converter, self.data, r.data),
            r.licence == self.licence,
            Converter::<S>::converts(&converter, self.name, r.name),
            converts_each(converter, self.tags@, r.tags@),
            r.created == self.created,
    {
        Asset {
            asset_type: Converter::<S>::convert(&converter, self.asset_type),
            author: Converter::<S>::convert(&converter, self.author),
            server: Converter::<S>::convert(&converter, self.server),
            capabilities: convert_each(&converter, self.capabilities),
            children: convert_each(&converter, self.children),
            compression: self.compression,
            data: Converter::<B>::convert(&converter, self.data),
            licence: self.licence,
            name: Converter::<S>::convert(&converter, self.name),
            tags: convert_each(&converter, self.tags),
            created: self.created,
        }
    }
}

/// Two lists of strings that read the same give the same tag bytes.
proof fn lemma_tags_message_by_text(a: Seq<String>, b: Seq<String>)
    requires
        a.len() == b.len(),
        forall|i: int| 0 <= i < a.len() ==> (#[trigger] a[i])@ == b[i]@,
    ensures
        tags_message(a) == tags_message(b),
    decreases a.len(),
{
    if a.len() > 0 {
        lemma_tags_message_by_text(a.drop_last(), b.drop_last());
    }
}

/// Borrowing an asset and copying what was borrowed back into owned strings
/// and bytes gives an asset that reads the same as the first, and so has the
/// same principal hash.
pub proof fn lemma_borrow_then_own(
    asset: Asset<String, Vec<u8>>,
    borrowed: Asset<&str, &[u8]>,
    owned: Asset<String, Vec<u8>>,
)
    requires
        Referencer::<String>::refers(&AsReference, asset.asset_type, borrowed.asset_type),
        Referencer::<String>::refers(&AsReference, asset.author, borrowed.author),
        Referencer::<String>::refers(&AsReference, asset.server, borrowed.server),
        refers_each(AsReference, asset.capabilities@, borrowed.capabilities@),
        refers_each(AsReference, asset.children@, borrowed.children@),
        borrowed.compression == asset.compression,
        Referencer::<Vec<u8>>::refers(&AsReference, asset.data, borrowed.data),
        borrowed.licence == asset.licence,
        Referencer::<String>::refers(&AsReference, asset.name, borrowed.name),
        refers_each(AsReference, asset.tags@, borrowed.tags@),
        borrowed.created == asset.created,
        Converter::<&str>::converts(&IntoOwned, borrowed.asset_type, owned.asset_type),
        Converter::<&str>::converts(&IntoOwned, borrowed.author, owned.author),
        Converter::<&str>::converts(&IntoOwned, borrowed.server, owned.server),
        converts_each(IntoOwned, borrowed.capabilities@, owned.capabilities@),
        converts_each(IntoOwned, borrowed.children@, owned.children@),
        owned.compression == borrowed.compression,
        Converter::<&[u8]>::converts(&IntoOwned, borrowed.data, owned.data),
        owned.licence == borrowed.licence,
        Converter::<&str>::converts(&IntoOwned, borrowed.name, owned.name),
        converts_each(IntoOwned, borrowed.tags@, owned.tags@),
        owned.created == borrowed.created,
    ensures
        owned.asset_type@ == asset.asset_type@,
        owned.author@ == asset.author@,
        owned.server@ == asset.server@,
        owned.capabilities@.len() == asset.capabilities@.len(),
        forall|i: int| 0 <= i < owned.capabilities@.len() ==> (#[trigger] owned.capabilities@[i])@ == asset.capabilities@[i]@,
        owned.children@.len() == asset.children@.len(),
        forall|i: int| 0 <= i < owned.children@.len() ==> (#[trigger] owned.children@[i])@ == asset.children@[i]@,
        owned.compression == asset.compression,
        owned.data@ == asset.data@,
        owned.licence == asset.licence,
        owned.name@ == asset.name@,
        owned.tags@.len() == asset.tags@.len(),
        forall|i: int| 0 <= i < owned.tags@.len() ==> (#[trigger] owned.tags@[i])@ == asset.tags@[i]@,
        owned.created == asset.created,
        principal_message(owned) == principal_message(asset),
{
    assert forall|i: int| 0 <= i < owned.capabilities@.len() implies (#[trigger] owned.capabilities@[i])@ == asset.capabilities@[i]@ by {
        assert(Referencer::<String>::refers(&AsReference, asset.capabilities@[i], borrowed.capabilities@[i]));
        assert(Converter::<&str>::converts(&IntoOwned, borrowed.capabilities@[i], owned.capabilities@[i]));
    }
    assert forall|i: int| 0 <= i < owned.children@.len() implies (#[trigger] owned.children@[i])@ == asset.children@[i]@ by {
        assert(Referencer::<String>::refers(&AsReference, asset.children@[i], borrowed.children@[i]));
        assert(Converter::<&str>::converts(&IntoOwned, borrowed.children@[i], owned.children@[i]));
    }
    assert forall|i: int| 0 <= i < owned.tags@.len() implies (#[trigger] owned.tags@[i])@ == asset.tags@[i]@ by {
        assert(Referencer::<String>::refers(&AsReference, asset.tags@[i], borrowed.tags@[i]));
        assert(Converter::<&str>::converts(&IntoOwned, borrowed.tags@[i], owned.tags@[i]));
    }
    lemma_tags_message_by_text(owned.tags@, asset.tags@);
}

impl<T, S: Clone> Clone for Loaded<T, S> {
    /// Another handle on the same value, with a copy of the identifier.
    fn clone(&self) -> (r: Self)
        ensures
            cloned::<S>(self.asset_id(), r.asset_id()),
            r.value() == self.value(),
    {
        Loaded { asset: self.asset.clone(), value: Arc::clone(&self.value) }
    }
}

impl<T, S> std::ops::Deref for Loaded<T, S> {
    type Target = T;

    /// The loaded value.
    fn deref(&self) -> (r: &T)
        ensures
            *r == self.value(),
    {
        &*self.value
    }
}

/// The children of an asset of an unknown kind: none can be found.
pub fn extract_children(asset_type: &str, asset_data: &[u8]) -> (r: Option<Vec<String>>)
    ensures
        r is None,
{
    None
}

/// The bytes of each tag, each followed by a zero byte.
pub open spec fn tags_message(tags: Seq<String>) -> Seq<u8>
    decreases tags.len(),
{
    if tags.len() == 0 {
        Seq::empty()
    } else {
        tags_message(tags.drop_last()) + encode_utf8(tags.last()@) + seq![0u8]
    }
}

/// What the principal hash of an asset digests: its type, author, name,
/// data, licence and tags, each followed by a zero byte, then the time it
/// was created as RFC 3339 text.
pub open spec fn principal_message(asset: Asset<String, Vec<u8>>) -> Seq<u8> {
    encode_utf8(asset.asset_type@) + seq![0u8] + encode_utf8(asset.author@) + seq![0u8] + encode_utf8(asset.name@) + seq![0u8]
        + asset.data@ + seq![0u8] + encode_utf8(asset.licence.spec_name()) + seq![0u8] + tags_message(asset.tags@) + encode_utf8(
        rfc3339_text(asset.created.seconds, asset.created.nanos),
    )
}

/// Appends the bytes of `text` and, when `terminate`, a zero byte.
fn append_text(message: &mut Vec<u8>, text: &str, terminate: bool)
    ensures
        final(message)@ == old(message)@ + encode_utf8(text@) + if terminate {
            seq![0u8]
        } else {
            Seq::<u8>::empty()
        },
{
    message.extend_from_slice(text.as_bytes());
    if terminate {
        message.push(0u8);
    }
    proof {
        if terminate {
            assert(final(message)@ =~= old(message)@ + encode_utf8(text@) + seq![0u8]);
        } else {
            assert(final(message)@ =~= old(message)@ + encode_utf8(text@) + Seq::<u8>::empty());
        }
    }
}

impl Asset<String, Vec<u8>> {
    /// The hexadecimal SHA3-512 digest that identifies this asset by its
    /// type, author, name, data, licence, tags and creation time.
    pub fn principal_hash(&self) -> (r: String)
        requires
            self.created.valid(),
        ensures
            r@ == hex_text(sha3_512_of(principal_message(*self))),
    {
        let mut message: Vec<u8> = Vec::new();
        append_text(&mut message, self.asset_type.as_str(), true);
        append_text(&mut message, self.author.as_str(), true);
        append_text(&mut message, self.name.as_str(), true);
        let ghost before_data = message@;
        message.extend_from_slice(self.data.as_slice());
        message.push(0u8);
        proof {
            assert(message@ =~= before_data + self.data@ + seq![0u8]);
        }
        append_text(&mut message, self.licence.name(), true);
        let ghost before_tags = message@;
        let mut i: usize = 0;
        while i < self.tags.len()
            invariant
                i <= self.tags@.len(),
                message@ == before_tags + tags_message(self.tags@.take(i as int)),
            decreases self.tags@.len() - i,
        {
            append_text(&mut message, self.tags[i].as_str(), true);
            proof {
                assert(self.tags@.take(i as int + 1).drop_last() =~= self.tags@.take(i as int));
                assert(message@ =~= before_tags + tags_message(self.tags@.take(i as int + 1)));
            }
            i = i + 1;
        }
        proof {
            assert(self.tags@.take(i as int) =~= self.tags@);
        }
        let created = rfc3339(self.created);
        append_text(&mut message, created.as_str(), false);
        proof {
            assert(message@ =~= principal_message(*self));
        }
        let digest = sha3_512(message.as_slice());
        hex_encode(digest.as_slice())
    }
}

} // verus!
