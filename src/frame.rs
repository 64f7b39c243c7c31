//! The resource cache and the frame recorder.
//!
//! The cache holds the GPU objects of meshes and textures under handles issued
//! to the scene producer. A [`Frame`] records, in scene order, one draw call
//! for each mesh the scene renders, with the pipeline it needs, and keeps the
//! last resize hint that the scene gave.

use vstd::prelude::*;
use crate::arena::{Arena, Handle};

verus! {

/// A handle to a mesh of a [`ResourceCache`].
#[derive(Clone, Copy, Debug, PartialEq, Eq, Hash, Structural)]
pub struct MeshHandle(pub Handle);

/// A handle to a texture of a [`ResourceCache`].
#[derive(Clone, Copy, Debug, PartialEq, Eq, Hash, Structural)]
pub struct TextureHandle(pub Handle);

/// A mesh as the cache holds it: its vertex and index buffers, absent for a
/// mesh without indices, and its number of indices.
pub struct MeshEntry<B> {
    pub buffers: Option<B>,
    pub index_count: u32,
}

/// Whether every mesh of `meshes` has buffers exactly when it has indices.
pub open spec fn buffers_match_indices<B>(meshes: Map<Handle, MeshEntry<B>>) -> bool {
    forall|h: Handle| #[trigger] meshes.contains_key(h) ==> (meshes[h].buffers is Some
        <==> meshes[h].index_count > 0)
}

/// Owns the GPU objects of meshes (`B`) and textures (`X`).
///
/// A freed mesh is retired: its handle stops being valid at once, but its
/// buffers stay until [`ResourceCache::end_frame`], so that draws of it that
/// the current frame already recorded are still drawn.
pub struct ResourceCache<B, X> {
    meshes: Arena<MeshEntry<B>>,
    retired: Vec<Handle>,
    textures: Arena<X>,
}

impl<B, X> ResourceCache<B, X> {
    /// The live meshes, by handle: created and not freed.
    pub closed spec fn meshes(&self) -> Map<Handle, MeshEntry<B>> {
        Map::new(
            |h: Handle| self.meshes@.contains_key(h) && !self.retired@.contains(h),
            |h: Handle| self.meshes@[h],
        )
    }

    /// The meshes that can still be drawn: the live ones and those freed
    /// since the last end of frame.
    pub closed spec fn drawable_meshes(&self) -> Map<Handle, MeshEntry<B>> {
        self.meshes@
    }

    /// The live textures, by handle.
    pub closed spec fn textures(&self) -> Map<Handle, X> {
        self.textures@
    }

    /// Every mesh handle ever issued.
    pub closed spec fn mesh_handles_issued(&self) -> Set<Handle> {
        self.meshes.issued()
    }

    /// Every texture handle ever issued.
    pub closed spec fn texture_handles_issued(&self) -> Set<Handle> {
        self.textures.issued()
    }

    pub closed spec fn wf(&self) -> bool {
        &&& self.meshes.wf()
        &&& self.textures.wf()
        &&& self.retired@.no_duplicates()
        &&& forall|i: int|
            0 <= i < self.retired@.len() ==> self.meshes@.contains_key(#[trigger] self.retired@[i])
        &&& buffers_match_indices(self.meshes@)
    }

    /// The cache's live meshes are among its drawable ones, and every drawable
    /// mesh has buffers exactly when it has indices.
    pub proof fn lemma_live_drawable(&self)
        requires
            self.wf(),
        ensures
            forall|h: Handle| #[trigger] self.meshes().contains_key(h) ==> self.drawable_meshes().contains_key(h)
                && self.drawable_meshes()[h] == self.meshes()[h],
            buffers_match_indices(self.drawable_meshes()),
    {
    }

    /// An empty cache.
    pub fn new() -> (r: Self)
        ensures
            r.wf(),
            r.meshes() == Map::<Handle, MeshEntry<B>>::empty(),
            r.drawable_meshes() == Map::<Handle, MeshEntry<B>>::empty(),
            r.textures() == Map::<Handle, X>::empty(),
            r.mesh_handles_issued() == Set::<Handle>::empty(),
            r.texture_handles_issued() == Set::<Handle>::empty(),
    {
        let r = ResourceCache { meshes: Arena::new(), retired: Vec::new(), textures: Arena::new() };
        assert(r.meshes() =~= Map::<Handle, MeshEntry<B>>::empty());
        r
    }

    /// Takes ownership of a mesh's buffers and issues a new handle for it. A
    /// mesh without indices comes without buffers, so that it takes no GPU
    /// memory.
    pub fn create_mesh(&mut self, buffers: Option<B>, index_count: u32) -> (h: MeshHandle)
        requires
            old(self).wf(),
            buffers is Some <==> index_count > 0,
        ensures
            final(self).wf(),
            !old(self).mesh_handles_issued().contains(h.0),
            !old(self).drawable_meshes().contains_key(h.0),
            final(self).mesh_handles_issued() == old(self).mesh_handles_issued().insert(h.0),
            final(self).meshes() == old(self).meshes().insert(h.0, MeshEntry { buffers, index_count }),
            final(self).drawable_meshes() == old(self).drawable_meshes().insert(
                h.0,
                MeshEntry { buffers, index_count },
            ),
            final(self).textures() == old(self).textures(),
            final(self).texture_handles_issued() == old(self).texture_handles_issued(),
    {
        let ghost pre = *self;
        let h = self.meshes.insert(MeshEntry { buffers, index_count });
        proof {
            assert(!pre.retired@.contains(h)) by {
                if pre.retired@.contains(h) {
                    let i = choose|i: int| 0 <= i < pre.retired@.len() && pre.retired@[i] == h;
                    assert(pre.meshes@.contains_key(pre.retired@[i]));
                }
            }
            assert(self.meshes() =~= pre.meshes().insert(h, MeshEntry { buffers, index_count }));
        }
        MeshHandle(h)
    }

    fn is_retired(&self, h: Handle) -> (r: bool)
        ensures
            r == self.retired@.contains(h),
    {
        let mut i: usize = 0;
        while i < self.retired.len()
            invariant
                i <= self.retired@.len(),
                forall|k: int| 0 <= k < i ==> self.retired@[k] != h,
            decreases self.retired@.len() - i,
        {
            if self.retired[i] == h {
                return true;
            }
            i = i + 1;
        }
        false
    }

    /// The mesh under `h`, if it is live.
    pub fn mesh(&self, h: MeshHandle) -> (r: Option<&MeshEntry<B>>)
        requires
            self.wf(),
        ensures
            match r {
                Some(m) => self.meshes().contains_key(h.0) && *m == self.meshes()[h.0],
                None => !self.meshes().contains_key(h.0),
            },
    {
        if self.is_retired(h.0) {
            return None;
        }
        self.meshes.get(h.0)
    }

    /// The buffers to bind for a draw of the mesh under `h`. They are there
    /// for every drawable mesh with indices, whether it is live or was freed
    /// since the last end of frame; a mesh without indices has nothing to draw.
    pub fn mesh_buffers(&self, h: MeshHandle) -> (r: Option<&B>)
        requires
            self.wf(),
        ensures
            match r {
                Some(b) => self.drawable_meshes().contains_key(h.0)
                    && self.drawable_meshes()[h.0].index_count > 0
                    && self.drawable_meshes()[h.0].buffers == Some(*b),
                None => !self.drawable_meshes().contains_key(h.0)
                    || self.drawable_meshes()[h.0].index_count == 0,
            },
    {
        match self.meshes.get(h.0) {
            Some(entry) => match &entry.buffers {
                Some(b) => Some(b),
                None => None,
            },
            None => None,
        }
    }

    /// Frees the mesh under `h`: its handle stops being valid, while draws of
    /// it recorded in the current frame can still be drawn until the end of the
    /// frame. Gives whether the handle was live; one that is not changes
    /// nothing.
    pub fn free_mesh(&mut self, h: MeshHandle) -> (r: bool)
        requires
            old(self).wf(),
        ensures
            final(self).wf(),
            r == old(self).meshes().contains_key(h.0),
            final(self).meshes() == old(self).meshes().remove(h.0),
            final(self).drawable_meshes() == old(self).drawable_meshes(),
            final(self).textures() == old(self).textures(),
            final(self).mesh_handles_issued() == old(self).mesh_handles_issued(),
            final(self).texture_handles_issued() == old(self).texture_handles_issued(),
    {
        let ghost pre = *self;
        if self.mesh(h).is_none() {
            proof {
                assert(self.meshes() =~= pre.meshes().remove(h.0));
            }
            return false;
        }
        self.retired.push(h.0);
        proof {
            assert(self.retired@.last() == h.0);
            assert forall|k: Handle| #[trigger] self.retired@.contains(k) <==> (pre.retired@.contains(k) || k == h.0) by {
                if pre.retired@.contains(k) {
                    let i = choose|i: int| 0 <= i < pre.retired@.len() && pre.retired@[i] == k;
                    assert(self.retired@[i] == k);
                }
                if self.retired@.contains(k) && k != h.0 {
                    let i = choose|i: int| 0 <= i < self.retired@.len() && self.retired@[i] == k;
                    assert(pre.retired@[i] == k);
                }
                if k == h.0 {
                    assert(self.retired@[self.retired@.len() - 1] == k);
                }
            }
            assert forall|i: int, j: int| 0 <= i < j < self.retired@.len() implies self.retired@[i] != self.retired@[j] by {
                if j == self.retired@.len() - 1 {
                    assert(pre.retired@[i] == self.retired@[i]);
                    assert(!pre.retired@.contains(h.0));
                }
            }
            assert(self.meshes() =~= pre.meshes().remove(h.0));
        }
        true
    }

    /// Ends a frame: drops its recorded calls, and with them the last uses of
    /// the meshes freed since the previous end of frame, whose buffers are then
    /// released.
    pub fn end_frame<G, H>(&mut self, frame: &mut Frame<G, H>)
        requires
            old(self).wf(),
        ensures
            final(self).wf(),
            final(frame).calls() == Seq::<DrawCall<G>>::empty(),
            final(frame).hint() == old(frame).hint(),
            final(self).meshes() == old(self).meshes(),
            final(self).drawable_meshes() == old(self).meshes(),
            final(self).textures() == old(self).textures(),
            final(self).mesh_handles_issued() == old(self).mesh_handles_issued(),
            final(self).texture_handles_issued() == old(self).texture_handles_issued(),
    {
        frame.clear();
        let ghost pre = *self;
        let ghost n: int = pre.retired@.len() as int;
        while self.retired.len() > 0
            invariant
                0 <= self.retired@.len() <= n,
                n == pre.retired@.len(),
                self.retired@ == pre.retired@.subrange(0, self.retired@.len() as int),
                pre.retired@.no_duplicates(),
                self.meshes.wf(),
                self.textures == pre.textures,
                self.meshes.issued() == pre.meshes.issued(),
                self.meshes@ == Map::new(
                    |k: Handle| pre.meshes@.contains_key(k) && !pre.retired@.subrange(
                        self.retired@.len() as int,
                        n,
                    ).contains(k),
                    |k: Handle| pre.meshes@[k],
                ),
            decreases self.retired@.len(),
        {
            let ghost before = self.meshes@;
            let ghost len = self.retired@.len();
            let h = self.retired[self.retired.len() - 1];
            self.retired.pop();
            self.meshes.remove(h);
            proof {
                let old_suffix = pre.retired@.subrange(len as int, n);
                let new_suffix = pre.retired@.subrange(len - 1, n);
                assert forall|k: Handle| #[trigger] new_suffix.contains(k) <==> (old_suffix.contains(k) || k == h) by {
                    if new_suffix.contains(k) {
                        let i = choose|i: int| 0 <= i < new_suffix.len() && new_suffix[i] == k;
                        if i > 0 {
                            assert(new_suffix[i] == pre.retired@[len - 1 + i]);
                            assert(old_suffix[i - 1] == pre.retired@[len + i - 1]);
                        }
                    }
                    if old_suffix.contains(k) {
                        let i = choose|i: int| 0 <= i < old_suffix.len() && old_suffix[i] == k;
                        assert(new_suffix[i + 1] == k);
                    }
                    if k == h {
                        assert(new_suffix[0] == k);
                    }
                }
                assert(self.retired@ =~= pre.retired@.subrange(0, self.retired@.len() as int));
                assert(self.meshes@ =~= Map::new(
                    |k: Handle| pre.meshes@.contains_key(k) && !new_suffix.contains(k),
                    |k: Handle| pre.meshes@[k],
                ));
            }
        }
        proof {
            assert(pre.retired@.subrange(0, n) =~= pre.retired@);
            assert(self.meshes@ =~= pre.meshes());
            assert(self.retired@.len() == 0);
            assert(self.meshes() =~= pre.meshes());
        }
    }

    /// Takes ownership of a texture whose mipmap chain is complete and issues a
    /// new handle for it.
    pub fn create_texture(&mut self, texture: X) -> (h: TextureHandle)
        requires
            old(self).wf(),
        ensures
            final(self).wf(),
            !old(self).texture_handles_issued().contains(h.0),
            !old(self).textures().contains_key(h.0),
            final(self).texture_handles_issued() == old(self).texture_handles_issued().insert(h.0),
            final(self).textures() == old(self).textures().insert(h.0, texture),
            final(self).meshes() == old(self).meshes(),
            final(self).mesh_handles_issued() == old(self).mesh_handles_issued(),
    {
        TextureHandle(self.textures.insert(texture))
    }

    /// The texture under `h`, if it is live.
    pub fn texture(&self, h: TextureHandle) -> (r: Option<&X>)
        requires
            self.wf(),
        ensures
            match r {
                Some(t) => self.textures().contains_key(h.0) && *t == self.textures()[h.0],
                None => !self.textures().contains_key(h.0),
            },
    {
        self.textures.get(h.0)
    }

    /// Releases the texture under `h` and hands it back to be dropped. A
    /// handle that is not live changes nothing.
    pub fn free_texture(&mut self, h: TextureHandle) -> (r: Option<X>)
        requires
            old(self).wf(),
        ensures
            final(self).wf(),
            final(self).textures() == old(self).textures().remove(h.0),
            r == (if old(self).textures().contains_key(h.0) {
                Some(old(self).textures()[h.0])
            } else {
                None
            }),
            final(self).meshes() == old(self).meshes(),
            final(self).mesh_handles_issued() == old(self).mesh_handles_issued(),
            final(self).texture_handles_issued() == old(self).texture_handles_issued(),
    {
        self.textures.remove(h.0)
    }
}

/// The two pipelines: one for flat-colored meshes, one for textured ones.
#[derive(Clone, Copy, Debug, PartialEq, Eq, Structural)]
pub enum Pipeline {
    Colored,
    Textured,
}

/// The pipeline for a draw with or without a texture.
pub open spec fn pipeline_for(textured: bool) -> Pipeline {
    if textured {
        Pipeline::Textured
    } else {
        Pipeline::Colored
    }
}

/// One indexed draw: `index_count` indices of `mesh`, with `pipeline`, the
/// texture if any, and the caller's per-draw bindings `G`.
pub struct DrawCall<G> {
    pub mesh: MeshHandle,
    pub index_count: u32,
    pub pipeline: Pipeline,
    pub texture: Option<TextureHandle>,
    pub bindings: G,
}

/// Why a draw was refused.
#[derive(Clone, Copy, Debug, PartialEq, Eq, Structural)]
pub enum DrawError {
    /// The mesh handle is not live: never issued, or freed.
    UnknownMesh,
    /// The texture handle is not live: never issued, or freed.
    UnknownTexture,
}

/// The error, if any, of a draw of `mesh` with `texture`.
pub open spec fn draw_error<B, X>(
    meshes: Map<Handle, MeshEntry<B>>,
    textures: Map<Handle, X>,
    mesh: MeshHandle,
    texture: Option<TextureHandle>,
) -> Option<DrawError> {
    if !meshes.contains_key(mesh.0) {
        Some(DrawError::UnknownMesh)
    } else if texture is Some && !textures.contains_key((texture->0).0) {
        Some(DrawError::UnknownTexture)
    } else {
        None
    }
}

/// The call that a draw of `mesh` with `texture` records.
pub open spec fn draw_call_for<B, G>(
    meshes: Map<Handle, MeshEntry<B>>,
    mesh: MeshHandle,
    texture: Option<TextureHandle>,
    bindings: G,
) -> DrawCall<G> {
    DrawCall {
        mesh,
        index_count: meshes[mesh.0].index_count,
        pipeline: pipeline_for(texture is Some),
        texture,
        bindings,
    }
}

/// The calls of a frame after a draw of `mesh` with `texture`: one more call
/// at the end where the draw is accepted, the same calls where it is refused.
pub open spec fn after_draw<B, X, G>(
    calls: Seq<DrawCall<G>>,
    meshes: Map<Handle, MeshEntry<B>>,
    textures: Map<Handle, X>,
    mesh: MeshHandle,
    texture: Option<TextureHandle>,
    bindings: G,
) -> Seq<DrawCall<G>> {
    if draw_error(meshes, textures, mesh, texture) is None {
        calls.push(draw_call_for(meshes, mesh, texture, bindings))
    } else {
        calls
    }
}

/// Whether every call of `calls` draws a mesh of `meshes`, with that mesh's
/// number of indices.
pub open spec fn calls_drawable<B, G>(calls: Seq<DrawCall<G>>, meshes: Map<Handle, MeshEntry<B>>) -> bool {
    forall|i: int|
        0 <= i < calls.len() ==> meshes.contains_key((#[trigger] calls[i]).mesh.0)
            && meshes[calls[i].mesh.0].index_count == calls[i].index_count
}

/// One frame's draw calls, in scene order, and the scene's resize hint `H`.
pub struct Frame<G, H> {
    calls: Vec<DrawCall<G>>,
    resize_hint: Option<H>,
}

impl<G, H> Frame<G, H> {
    /// The calls recorded so far, in order.
    pub closed spec fn calls(&self) -> Seq<DrawCall<G>> {
        self.calls@
    }

    /// The last resize hint given and not yet taken.
    pub closed spec fn hint(&self) -> Option<H> {
        self.resize_hint
    }

    /// A frame with no calls and no hint.
    pub fn new() -> (r: Self)
        ensures
            r.calls() == Seq::<DrawCall<G>>::empty(),
            r.hint() is None,
    {
        Frame { calls: Vec::new(), resize_hint: None }
    }

    /// Drops the recorded calls.
    pub(crate) fn clear(&mut self)
        ensures
            final(self).calls() == Seq::<DrawCall<G>>::empty(),
            final(self).hint() == old(self).hint(),
    {
        self.calls.clear();
    }

    /// Records one indexed draw of all the indices of `mesh`, after every call
    /// recorded before it, with the textured pipeline where a texture is given
    /// and the colored one where none is. A handle that is not live records
    /// nothing and gives the error.
    pub fn render_mesh<B, X>(
        &mut self,
        cache: &ResourceCache<B, X>,
        mesh: MeshHandle,
        texture: Option<TextureHandle>,
        bindings: G,
    ) -> (r: Result<(), DrawError>)
        requires
            cache.wf(),
        ensures
            r is Ok <==> draw_error(cache.meshes(), cache.textures(), mesh, texture) is None,
            r is Err ==> r == Err::<(), DrawError>(
                draw_error(cache.meshes(), cache.textures(), mesh, texture)->0,
            ),
            final(self).calls() == after_draw(
                old(self).calls(),
                cache.meshes(),
                cache.textures(),
                mesh,
                texture,
                bindings,
            ),
            calls_drawable(old(self).calls(), cache.drawable_meshes()) ==> calls_drawable(
                final(self).calls(),
                cache.drawable_meshes(),
            ),
            final(self).hint() == old(self).hint(),
    {
        proof {
            cache.lemma_live_drawable();
        }
        let index_count = match cache.mesh(mesh) {
            Some(entry) => entry.index_count,
            None => {
                return Err(DrawError::UnknownMesh);
            },
        };
        let pipeline = match texture {
            Some(t) => {
                if cache.texture(t).is_none() {
                    return Err(DrawError::UnknownTexture);
                }
                Pipeline::Textured
            },
            None => Pipeline::Colored,
        };
        self.calls.push(DrawCall { mesh, index_count, pipeline, texture, bindings });
        Ok(())
    }

    /// Keeps `hint` as the frame's resize hint, in place of any earlier one.
    pub fn request_resize(&mut self, hint: H)
        ensures
            final(self).hint() == Some(hint),
            final(self).calls() == old(self).calls(),
    {
        self.resize_hint = Some(hint);
    }

    /// Hands out the resize hint and leaves none.
    pub fn take_resize_hint(&mut self) -> (r: Option<H>)
        ensures
            r == old(self).hint(),
            final(self).hint() is None,
            final(self).calls() == old(self).calls(),
    {
        self.resize_hint.take()
    }

    /// The recorded calls, in the order they are to be drawn.
    pub fn draw_calls(&self) -> (r: &Vec<DrawCall<G>>)
        ensures
            r@ == self.calls(),
    {
        &self.calls
    }
}

/// The per-draw uniform block lists the corner colors top-left, top-right,
/// bottom-left, bottom-right; a draw gives them top-left, top-right,
/// bottom-right, bottom-left.
pub fn uniform_corner_order<C: Copy>(corners: [C; 4]) -> (r: [C; 4])
    ensures
        r@ == seq![corners@[0], corners@[1], corners@[3], corners@[2]],
{
    [corners[0], corners[1], corners[3], corners[2]]
}

/// A mesh created with `n` indices, zero included, is drawn as exactly one
/// indexed draw over all `n` of its indices, with or without a live texture.
pub proof fn law_mesh_draw_covers_indices<B, X, G>(
    calls: Seq<DrawCall<G>>,
    meshes: Map<Handle, MeshEntry<B>>,
    textures: Map<Handle, X>,
    mesh: MeshHandle,
    buffers: Option<B>,
    n: u32,
    texture: Option<TextureHandle>,
    bindings: G,
)
    requires
        texture is Some ==> textures.contains_key((texture->0).0),
    ensures
        ({
            let created = meshes.insert(mesh.0, MeshEntry { buffers, index_count: n });
            let after = after_draw(calls, created, textures, mesh, texture, bindings);
            &&& after.len() == calls.len() + 1
            &&& after.subrange(0, calls.len() as int) == calls
            &&& after[calls.len() as int].mesh == mesh
            &&& after[calls.len() as int].index_count == n
            &&& after[calls.len() as int].pipeline == pipeline_for(texture is Some)
        }),
{
    let created = meshes.insert(mesh.0, MeshEntry { buffers, index_count: n });
    let after = after_draw(calls, created, textures, mesh, texture, bindings);
    assert(after.subrange(0, calls.len() as int) =~= calls);
}

/// Draws keep scene order: after a draw `a` and then a draw `b`, both
/// accepted, `b`'s call comes right after `a`'s, behind every earlier call, so
/// `b` is painted over `a` and never the reverse.
pub proof fn law_draw_order<B, X, G>(
    calls: Seq<DrawCall<G>>,
    meshes: Map<Handle, MeshEntry<B>>,
    textures: Map<Handle, X>,
    mesh_a: MeshHandle,
    texture_a: Option<TextureHandle>,
    bindings_a: G,
    mesh_b: MeshHandle,
    texture_b: Option<TextureHandle>,
    bindings_b: G,
)
    requires
        draw_error(meshes, textures, mesh_a, texture_a) is None,
        draw_error(meshes, textures, mesh_b, texture_b) is None,
    ensures
        ({
            let after_a = after_draw(calls, meshes, textures, mesh_a, texture_a, bindings_a);
            let after_b = after_draw(after_a, meshes, textures, mesh_b, texture_b, bindings_b);
            &&& after_b.len() == calls.len() + 2
            &&& after_b.subrange(0, calls.len() as int) == calls
            &&& after_b[calls.len() as int] == draw_call_for(meshes, mesh_a, texture_a, bindings_a)
            &&& after_b[calls.len() + 1int] == draw_call_for(meshes, mesh_b, texture_b, bindings_b)
        }),
{
    let after_a = after_draw(calls, meshes, textures, mesh_a, texture_a, bindings_a);
    let after_b = after_draw(after_a, meshes, textures, mesh_b, texture_b, bindings_b);
    assert(after_b.subrange(0, calls.len() as int) =~= calls);
}

/// Draws recorded in a frame stay drawable until the frame ends. Freeing a
/// mesh leaves the drawable meshes as they are, and creating one adds a fresh
/// handle, so every recorded call keeps a drawable mesh with its number of
/// indices; and each recorded call with indices finds that mesh's buffers.
pub proof fn law_recorded_draws_stay_drawable<B, G>(
    calls: Seq<DrawCall<G>>,
    drawable: Map<Handle, MeshEntry<B>>,
    created: Handle,
    entry: MeshEntry<B>,
    i: int,
)
    requires
        calls_drawable(calls, drawable),
        buffers_match_indices(drawable),
        !drawable.contains_key(created),
        0 <= i < calls.len(),
    ensures
        calls_drawable(calls, drawable.insert(created, entry)),
        calls[i].index_count > 0 ==> drawable[calls[i].mesh.0].buffers is Some,
{
    assert forall|j: int| 0 <= j < calls.len() implies drawable.insert(created, entry).contains_key(
        (#[trigger] calls[j]).mesh.0,
    ) && drawable.insert(created, entry)[calls[j].mesh.0].index_count == calls[j].index_count by {
        assert(drawable.contains_key(calls[j].mesh.0));
    }
    assert(drawable.contains_key(calls[i].mesh.0));
}

} // verus!
