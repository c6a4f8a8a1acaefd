//! Assets and the stores that hold them.

use vstd::prelude::*;
use std::slice::Iter;
use crate::asset_id::AssetId;
use crate::text::{decimal, last_segment, push_decimal, push_last_segment};

verus! {

/// What is known of an asset besides its content.
#[derive(Debug)]
pub struct AssetMetadata {
    /// The name under which the asset is shown.
    pub name: Option<String>,
}

impl Default for AssetMetadata {
    /// Metadata without a name.
    fn default() -> (metadata: AssetMetadata)
        ensures
            metadata.name is None,
    {
        AssetMetadata { name: None }
    }
}

/// The name that an asset gets where it was given none: the last segment of
/// the name of its type, an underscore, and the number of its identifier.
pub open spec fn default_name(kind: Seq<char>, id: u64) -> Seq<char> {
    last_segment(kind) + seq!['_'] + decimal(id as nat)
}

/// The name of an asset: the one it was given, or else its default name.
pub open spec fn asset_name(given: Option<String>, kind: Seq<char>, id: u64) -> Seq<char> {
    match given {
        Some(name) => name@,
        None => default_name(kind, id),
    }
}

/// An asset: its content, with an identifier and metadata.
#[derive(Debug)]
pub struct Asset<T> {
    id: AssetId<T>,
    metadata: AssetMetadata,
    asset: T,
}

impl<T> Asset<T> {
    /// The number of the identifier of the asset.
    pub closed spec fn key(&self) -> u64 {
        self.id@
    }

    /// The content of the asset.
    pub closed spec fn content(&self) -> T {
        self.asset
    }

    /// The name of the asset, where it has one.
    pub closed spec fn name(&self) -> Option<Seq<char>> {
        match self.metadata.name {
            Some(name) => Some(name@),
            None => None,
        }
    }

    /// An asset with the given identifier.  Its name is the one in the
    /// metadata, or, where there is none, its default name.
    pub fn with_id(id: AssetId<T>, asset: T, metadata: AssetMetadata, kind: &str) -> (made:
        Asset<T>)
        ensures
            made.key() == id@,
            made.content() == asset,
            made.name() == Some(asset_name(metadata.name, kind@, id@)),
    {
        let mut metadata = metadata;
        let name = match metadata.name {
            Some(name) => name,
            None => {
                let mut name = String::new();
                push_last_segment(&mut name, kind);
                name.push('_');
                push_decimal(&mut name, id.id().value());
                proof {
                    assert(name@ =~= default_name(kind@, id@));
                }
                name
            },
        };
        metadata.name = Some(name);
        Asset { id, metadata, asset }
    }

    /// An asset with an identifier drawn at random.  Its name is the one in
    /// the metadata, or, where there is none, its default name.
    pub fn new(asset: T, metadata: AssetMetadata, kind: &str) -> (made: Asset<T>)
        ensures
            made.content() == asset,
            made.name() == Some(asset_name(metadata.name, kind@, made.key())),
    {
        Asset::with_id(AssetId::new(), asset, metadata, kind)
    }

    /// The identifier of the asset.
    pub fn id(&self) -> (id: AssetId<T>)
        ensures
            id@ == self.key(),
    {
        self.id
    }

    /// The content of the asset.
    pub fn asset(&self) -> (content: &T)
        ensures
            *content == self.content(),
    {
        &self.asset
    }

    /// The content of the asset, to be changed in place.  Identifier and
    /// name stay.
    pub fn asset_mut(&mut self) -> (content: &mut T)
        ensures
            *content == old(self).content(),
            final(self).content() == *final(content),
            final(self).key() == old(self).key(),
            final(self).name() == old(self).name(),
    {
        &mut self.asset
    }

    /// The metadata of the asset.
    pub fn metadata(&self) -> (metadata: &AssetMetadata)
        ensures
            self.name() == match metadata.name {
                Some(name) => Some(name@),
                None => None,
            },
    {
        &self.metadata
    }

    /// Gives the asset another name.  Identifier and content stay.
    pub fn rename(&mut self, name: String)
        ensures
            final(self).name() == Some(name@),
            final(self).key() == old(self).key(),
            final(self).content() == old(self).content(),
    {
        self.metadata.name = Some(name);
    }
}

/// Where the first asset with the given identifier stands, if there is one.
pub open spec fn first_with_id<T>(assets: Seq<Asset<T>>, id: u64, position: int) -> bool {
    &&& 0 <= position < assets.len()
    &&& assets[position].key() == id
    &&& forall|earlier: int| 0 <= earlier < position ==> (#[trigger] assets[earlier]).key() != id
}

/// No asset has the given identifier.
pub open spec fn none_with_id<T>(assets: Seq<Asset<T>>, id: u64) -> bool {
    forall|position: int| 0 <= position < assets.len() ==> (#[trigger] assets[position]).key() != id
}

/// The assets of one kind, in the order in which they were added.
#[derive(Debug)]
pub struct AssetStore<T> {
    assets: Vec<Asset<T>>,
}

impl<T> View for AssetStore<T> {
    type V = Seq<Asset<T>>;

    /// The assets in the order in which they were added.
    closed spec fn view(&self) -> Seq<Asset<T>> {
        self.assets@
    }
}

impl<T> AssetStore<T> {
    /// A store without assets.
    pub fn new() -> (store: AssetStore<T>)
        ensures
            store@ == Seq::<Asset<T>>::empty(),
    {
        AssetStore { assets: Vec::new() }
    }

    /// Adds an asset behind the others and returns it, to be changed in
    /// place.
    pub fn insert(&mut self, asset: Asset<T>) -> (added: &mut Asset<T>)
        ensures
            *added == asset,
            final(self)@ == old(self)@.push(*final(added)),
    {
        let position = self.assets.len();
        self.assets.push(asset);
        let ghost pushed = self.assets@;
        let added = &mut self.assets[position];
        proof {
            assert(old(self)@.push(*final(added)) =~= pushed.update(
                position as int,
                *final(added),
            ));
        }
        added
    }

    /// Makes an asset of the content, with an identifier drawn at random,
    /// adds it behind the others and returns it, to be changed in place.
    pub fn add(&mut self, asset: T, metadata: AssetMetadata, kind: &str) -> (added: &mut Asset<
        T,
    >)
        ensures
            added.content() == asset,
            added.name() == Some(asset_name(metadata.name, kind@, added.key())),
            final(self)@ == old(self)@.push(*final(added)),
    {
        self.insert(Asset::new(asset, metadata, kind))
    }

    /// Removes the asset at a position; the assets behind it move up.
    pub fn remove_at_index(&mut self, index: usize)
        requires
            index < old(self)@.len(),
        ensures
            final(self)@ == old(self)@.remove(index as int),
    {
        self.assets.remove(index);
    }

    /// The first asset with the given identifier, or `None` where no asset
    /// has it.
    pub fn get(&self, asset_id: &AssetId<T>) -> (found: Option<&Asset<T>>)
        ensures
            match found {
                Some(asset) => exists|position: int|
                    first_with_id(self@, asset_id@, position) && *asset == #[trigger] self@[position],
                None => none_with_id(self@, asset_id@),
            },
    {
        let mut position: usize = 0;
        while position < self.assets.len()
            invariant
                position <= self.assets@.len(),
                forall|earlier: int|
                    0 <= earlier < position ==> (#[trigger] self.assets@[earlier]).key() != asset_id@,
            decreases self.assets@.len() - position,
        {
            if self.assets[position].id() == *asset_id {
                assert(first_with_id(self@, asset_id@, position as int));
                return Some(&self.assets[position]);
            }
            position = position + 1;
        }
        None
    }

    /// The asset at a position, or `None` where the store has none there.
    pub fn get_at_index(&self, index: usize) -> (found: Option<&Asset<T>>)
        ensures
            found == if index < self@.len() {
                Some(&self@[index as int])
            } else {
                None
            },
    {
        if index < self.assets.len() {
            Some(&self.assets[index])
        } else {
            None
        }
    }

    /// The number of assets.
    pub fn len(&self) -> (count: usize)
        ensures
            count == self@.len(),
    {
        self.assets.len()
    }

    /// An iterator over the assets, in the order in which they were added.
    pub fn iter(&self) -> (assets: Iter<'_, Asset<T>>)
        ensures
            vstd::std_specs::slice::into_iter_elts(assets) == self@,
    {
        let assets = self.assets.iter();
        assets
    }
}

impl<T> Default for AssetStore<T> {
    /// A store without assets.
    fn default() -> (store: AssetStore<T>)
        ensures
            store@ == Seq::<Asset<T>>::empty(),
    {
        AssetStore::new()
    }
}

} // verus!
