//! What has been prepared for rendering, by asset, and what is still to be
//! prepared.

use vstd::prelude::*;
use std::collections::BTreeMap;
use crate::asset_id::AssetId;
use crate::pool::Handle;

verus! {

broadcast use vstd::std_specs::btree::group_btree_axioms;

/// Where the vertices and indices of a mesh lie in the buffers of the
/// renderer.  `B` is the kind of buffer.
#[derive(Debug)]
pub struct RenderMesh<B> {
    pub vertex_buffer_handle: Handle<B>,
    pub vertex_offset: usize,
    pub vertex_count: usize,
    pub index_buffer_handle: Handle<B>,
    pub index_offset: usize,
    pub index_count: usize,
}

impl<B> RenderMesh<B> {
    /// A mesh that begins at the start of both its buffers.
    pub fn new(
        vertex_buffer_handle: Handle<B>,
        vertex_count: usize,
        index_buffer_handle: Handle<B>,
        index_count: usize,
    ) -> (mesh: RenderMesh<B>)
        ensures
            mesh.vertex_buffer_handle == vertex_buffer_handle,
            mesh.vertex_offset == 0,
            mesh.vertex_count == vertex_count,
            mesh.index_buffer_handle == index_buffer_handle,
            mesh.index_offset == 0,
            mesh.index_count == index_count,
    {
        RenderMesh {
            vertex_buffer_handle,
            vertex_offset: 0,
            vertex_count,
            index_buffer_handle,
            index_offset: 0,
            index_count,
        }
    }
}

/// The prepared form `R` of assets of kind `T`, by identifier, and the
/// identifiers that were asked for while nothing was prepared for them.
pub struct RenderCache<T, R> {
    rendered: BTreeMap<u64, R>,
    missing: Vec<AssetId<T>>,
}

impl<T, R> RenderCache<T, R> {
    /// What is prepared, by the number of the identifier.
    pub closed spec fn rendered(&self) -> Map<u64, R> {
        self.rendered@
    }

    /// The numbers of the identifiers that were asked for in vain, in the
    /// order in which they were asked for.
    pub closed spec fn missing(&self) -> Seq<u64> {
        Seq::new(self.missing@.len(), |i: int| self.missing@[i]@)
    }

    /// A cache in which nothing is prepared and nothing is missing.
    pub fn new() -> (cache: RenderCache<T, R>)
        ensures
            cache.rendered() == Map::<u64, R>::empty(),
            cache.missing() == Seq::<u64>::empty(),
    {
        let cache = RenderCache { rendered: BTreeMap::new(), missing: Vec::new() };
        assert(cache.missing() =~= Seq::<u64>::empty());
        cache
    }

    /// What is prepared for an asset: `None` for the empty identifier and
    /// where nothing is prepared.
    pub fn get(&self, id: &AssetId<T>) -> (found: Option<&R>)
        ensures
            found == if id@ != u64::MAX && self.rendered().contains_key(id@) {
                Some(&self.rendered()[id@])
            } else {
                None
            },
    {
        let number = id.id().value();
        if number == u64::MAX {
            return None;
        }
        self.rendered.get(&number)
    }

    /// Asks for what is prepared for an asset, and says whether there is
    /// something.  Where there is nothing, and the identifier is not the empty
    /// one, the identifier is put down as missing.
    pub fn request(&mut self, id: &AssetId<T>) -> (found: bool)
        ensures
            found == (id@ != u64::MAX && old(self).rendered().contains_key(id@)),
            final(self).rendered() == old(self).rendered(),
            final(self).missing() == if id@ != u64::MAX && !old(self).rendered().contains_key(
                id@,
            ) {
                old(self).missing().push(id@)
            } else {
                old(self).missing()
            },
    {
        let number = id.id().value();
        if number == u64::MAX {
            return false;
        }
        if self.rendered.contains_key(&number) {
            true
        } else {
            self.missing.push(id.clone());
            assert(self.missing() =~= old(self).missing().push(id@));
            false
        }
    }

    /// Takes the identifier that was put down as missing last, or `None`
    /// where none is left.
    pub fn next_missing(&mut self) -> (next: Option<AssetId<T>>)
        ensures
            final(self).rendered() == old(self).rendered(),
            match next {
                Some(id) => old(self).missing().len() > 0 && id@ == old(self).missing().last()
                    && final(self).missing() == old(self).missing().drop_last(),
                None => old(self).missing().len() == 0 && final(self).missing() == old(
                    self,
                ).missing(),
            },
    {
        let next = self.missing.pop();
        proof {
            if old(self).missing@.len() > 0 {
                assert(self.missing() =~= old(self).missing().drop_last());
            } else {
                assert(self.missing() =~= old(self).missing());
            }
        }
        next
    }

    /// How many identifiers are put down as missing.
    pub fn missing_count(&self) -> (count: usize)
        ensures
            count == self.missing().len(),
    {
        self.missing.len()
    }

    /// Stores what was prepared for an asset, in place of what was stored
    /// for it before.
    pub fn insert(&mut self, id: &AssetId<T>, rendered: R)
        ensures
            final(self).rendered() == old(self).rendered().insert(id@, rendered),
            final(self).missing() == old(self).missing(),
    {
        self.rendered.insert(id.id().value(), rendered);
    }
}

} // verus!
