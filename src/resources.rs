use crate::buffer::{grown, grown_capacity, lemma_growth_idempotent, quad_index, quad_indices};
use crate::texture::{data_len_of, rgba_len, Texture, TextureError, TextureFormat, TextureId};
use crate::units::{first_seen, lemma_first_seen, TextureUnits, UnitBudgetExceeded};
use crate::vertex::{batch_bytes, lemma_batch_bytes_len, write_quad, SpriteQuad, SPRITE_STRIDE};
use std::collections::HashMap;
use vstd::prelude::*;

verus! {

broadcast use vstd::std_specs::hash::group_hash_axioms;

/// The textures of a batch of sprites, in order.
pub open spec fn textures_of(quads: Seq<SpriteQuad>) -> Seq<TextureId> {
    quads.map_values(|q: SpriteQuad| q.texture)
}

/// The texture unit of `t` where `binds` gives unit `i` to `binds[i]`.
pub open spec fn unit_in(binds: Seq<TextureId>, t: TextureId) -> int {
    choose|u: int| 0 <= u < binds.len() && binds[u] == t
}

/// The texture unit of each sprite of a batch, where `binds` gives unit `i`
/// to `binds[i]`.
pub open spec fn units_of(binds: Seq<TextureId>, quads: Seq<SpriteQuad>) -> Seq<u32> {
    Seq::new(quads.len(), |i: int| unit_in(binds, quads[i].texture) as u32)
}

/// The rectangle `[x, y, width, height]` that a texture update writes: the
/// one given, or else the whole texture of the stored size.
pub open spec fn update_rect(sub_rect: Option<[u32; 4]>, size: (u32, u32)) -> Seq<u32> {
    match sub_rect {
        Some(r) => r@,
        None => seq![0u32, 0u32, size.0, size.1],
    }
}

/// A reallocation of the shared vertex buffer.
pub struct Reallocation {
    /// The new capacity, in sprites.
    pub capacity: u32,
    /// The new content of the index buffer: two triangles per sprite.
    pub indices: Vec<u16>,
}

/// What one draw call must do, in order: reallocate the buffers if asked,
/// bind `binds[i]` to texture unit `i`, upload `vertices` at the start of
/// the vertex buffer, and draw `index_count` indices.
pub struct DrawBatch {
    pub reallocation: Option<Reallocation>,
    pub binds: Vec<TextureId>,
    pub vertices: Vec<u8>,
    pub index_count: usize,
}

/// The graphics API's names of the objects that every context shares.
#[derive(PartialEq, Eq, Clone, Copy, Debug, Structural)]
pub struct GpuObjects {
    pub shader_program: u32,
    pub indice_buffer: u32,
    pub vertex_buffer: u32,
}

/// Graphics resources created once and shared by every context: the shader
/// program, the index and vertex buffers and the textures, with what the
/// renderer knows of them.
pub struct SharedResources {
    objects: GpuObjects,
    buffer_size: u32,
    textures: HashMap<u32, (u32, u32)>,
    texture_units: TextureUnits,
    max_texture_units: u16,
}

impl SharedResources {
    /// The shared objects of the graphics API.
    pub closed spec fn spec_objects(&self) -> GpuObjects {
        self.objects
    }

    /// The capacity of the vertex buffer, in sprites.
    pub closed spec fn spec_buffer_size(&self) -> u32 {
        self.buffer_size
    }

    /// The size `(width, height)` of each loaded texture, by id.
    pub closed spec fn spec_textures(&self) -> Map<u32, (u32, u32)> {
        self.textures@
    }

    /// The textures bound by the last draw call: unit `i` holds the `i`-th.
    pub closed spec fn spec_units(&self) -> Seq<TextureId> {
        self.texture_units@
    }

    /// The number of texture units of the context.
    pub closed spec fn spec_max_texture_units(&self) -> u16 {
        self.max_texture_units
    }

    /// Resources of a fresh context: empty buffers and no texture.
    pub fn new(objects: GpuObjects, max_texture_units: u16) -> (r: Self)
        ensures
            r.spec_objects() == objects,
            r.spec_buffer_size() == 0,
            r.spec_textures() == Map::<u32, (u32, u32)>::empty(),
            r.spec_units() == Seq::<TextureId>::empty(),
            r.spec_max_texture_units() == max_texture_units,
    {
        SharedResources {
            objects,
            buffer_size: 0,
            textures: HashMap::new(),
            texture_units: TextureUnits::new(),
            max_texture_units,
        }
    }

    /// The shared objects of the graphics API.
    pub fn objects(&self) -> (r: GpuObjects)
        ensures
            r == self.spec_objects(),
    {
        self.objects
    }

    /// The capacity of the vertex buffer, in sprites.
    pub fn buffer_size(&self) -> (r: u32)
        ensures
            r == self.spec_buffer_size(),
    {
        self.buffer_size
    }

    /// The number of texture units of the context.
    pub fn max_texture_units(&self) -> (r: u16)
        ensures
            r == self.spec_max_texture_units(),
    {
        self.max_texture_units
    }

    /// The number of texture units that the last draw call used.
    pub fn units_in_use(&self) -> (r: usize)
        ensures
            r == self.spec_units().len(),
    {
        self.texture_units.len()
    }

    /// The texture bound to `unit` by the last draw call.
    pub fn bound_texture(&self, unit: u32) -> (r: Option<TextureId>)
        ensures
            r == (if unit < self.spec_units().len() {
                Some(self.spec_units()[unit as int])
            } else {
                None
            }),
    {
        self.texture_units.texture_of(unit)
    }

    /// The stored size of a loaded texture.
    pub fn texture_size(&self, id: TextureId) -> (r: Option<(u32, u32)>)
        ensures
            r == (if self.spec_textures().contains_key(id.0) {
                Some(self.spec_textures()[id.0])
            } else {
                None
            }),
    {
        match self.textures.get(&id.0) {
            Some(s) => Some(*s),
            None => None,
        }
    }

    /// Records that texture `id` was created with the given size.
    pub fn record_texture(&mut self, id: TextureId, width: u32, height: u32)
        ensures
            final(self).spec_textures() == old(self).spec_textures().insert(id.0, (width, height)),
            final(self).spec_buffer_size() == old(self).spec_buffer_size(),
            final(self).spec_units() == old(self).spec_units(),
            final(self).spec_max_texture_units() == old(self).spec_max_texture_units(),
            final(self).spec_objects() == old(self).spec_objects(),
    {
        self.textures.insert(id.0, (width, height));
    }

    /// The rectangle `[x, y, width, height]` that an update of texture `id`
    /// writes, with `data_len` bytes of RGBA data where data is given: the
    /// sub-rectangle asked, or else the whole texture. Fails with
    /// `InvalidLength` where the data does not fill the rectangle exactly.
    pub fn texture_update_rect(
        &self,
        id: TextureId,
        data_len: Option<usize>,
        sub_rect: Option<[u32; 4]>,
    ) -> (r: Result<[u32; 4], TextureError>)
        requires
            sub_rect is Some || self.spec_textures().contains_key(id.0),
        ensures
            ({
                let rect = update_rect(sub_rect, self.spec_textures()[id.0]);
                let fits = match data_len {
                    Some(n) => n == rect[2] * rect[3] * 4,
                    None => true,
                };
                &&& r is Ok <==> fits
                &&& r matches Ok(x) ==> x@ == rect
                &&& r matches Err(e) ==> e == TextureError::InvalidLength
            }),
    {
        let rect: [u32; 4] = match sub_rect {
            Some(r) => r,
            None => {
                let size = *self.textures.get(&id.0).unwrap();
                let r = [0, 0, size.0, size.1];
                proof {
                    assert(r@ =~= update_rect(sub_rect, self.spec_textures()[id.0]));
                }
                r
            },
        };
        match data_len {
            Some(n) => {
                if !rgba_len(n, rect[2], rect[3]) {
                    return Err(TextureError::InvalidLength);
                }
            },
            None => {},
        }
        Ok(rect)
    }

    /// Checks new data of texture `id` at a new size and records the size.
    /// Fails with `InvalidLength`, changing nothing, where `data_len` bytes
    /// are not the RGBA data of the new size.
    pub fn resize_texture(&mut self, id: TextureId, width: u32, height: u32, data_len: Option<
        usize,
    >) -> (r: Result<(), TextureError>)
        ensures
            r is Ok <==> match data_len {
                Some(n) => n == data_len_of(width, height, TextureFormat::Rgba8888),
                None => true,
            },
            r is Ok ==> final(self).spec_textures() == old(self).spec_textures().insert(
                id.0,
                (width, height),
            ),
            r is Err ==> r == Err::<(), TextureError>(TextureError::InvalidLength)
                && final(self).spec_textures() == old(self).spec_textures(),
            final(self).spec_buffer_size() == old(self).spec_buffer_size(),
            final(self).spec_units() == old(self).spec_units(),
            final(self).spec_max_texture_units() == old(self).spec_max_texture_units(),
            final(self).spec_objects() == old(self).spec_objects(),
    {
        match data_len {
            Some(n) => {
                if !rgba_len(n, width, height) {
                    return Err(TextureError::InvalidLength);
                }
            },
            None => {},
        }
        self.textures.insert(id.0, (width, height));
        Ok(())
    }
}

impl SharedResources {
    /// Prepares one draw call of `quads`, in order.
    ///
    /// An empty batch needs no draw call and changes nothing. Else each
    /// distinct texture of the batch is given the next texture unit where it
    /// first occurs, and is bound once; the vertex buffer grows to the next
    /// power of two of the batch size where it is too small; each sprite's
    /// four vertices are laid out with its texture unit, written in the given
    /// byte order. Fails, without growing the buffer, where the batch uses
    /// more distinct textures than there are texture units.
    pub fn prepare_draw(&mut self, quads: &[SpriteQuad], little_endian: bool) -> (r: Result<
        Option<DrawBatch>,
        UnitBudgetExceeded,
    >)
        requires
            quads@.len() <= 0x8000_0000,
            quads@.len() * 96 <= usize::MAX,
        ensures
            final(self).spec_textures() == old(self).spec_textures(),
            final(self).spec_max_texture_units() == old(self).spec_max_texture_units(),
            final(self).spec_objects() == old(self).spec_objects(),
            quads@.len() == 0 ==> {
                &&& r matches Ok(None)
                &&& final(self).spec_buffer_size() == old(self).spec_buffer_size()
                &&& final(self).spec_units() == old(self).spec_units()
            },
            quads@.len() > 0 ==> (r matches Ok(Some(_)) <==> first_seen(
                textures_of(quads@),
            ).len() <= old(self).spec_max_texture_units()),
            r matches Err(e) ==> {
                &&& e.max_units == old(self).spec_max_texture_units()
                &&& final(self).spec_buffer_size() == old(self).spec_buffer_size()
            },
            r is Ok ==> grown(final(self).spec_buffer_size() as nat, quads@.len() as nat) is None,
            r matches Ok(Some(b)) ==> {
                &&& b.binds@ == first_seen(textures_of(quads@))
                &&& final(self).spec_units() == b.binds@
                &&& b.vertices@ == batch_bytes(quads@, units_of(b.binds@, quads@), little_endian)
                &&& b.vertices@.len() == SPRITE_STRIDE * quads@.len()
                &&& b.index_count == 6 * quads@.len()
                &&& match grown(old(self).spec_buffer_size() as nat, quads@.len() as nat) {
                    Some(c) => {
                        &&& b.reallocation matches Some(re)
                        &&& re.capacity == c
                        &&& final(self).spec_buffer_size() == c
                        &&& re.indices@.len() == 6 * c
                        &&& forall|k: int|
                            0 <= k < re.indices@.len() ==> #[trigger] re.indices@[k]
                                == quad_index(k)
                    },
                    None => {
                        &&& b.reallocation is None
                        &&& final(self).spec_buffer_size() == old(self).spec_buffer_size()
                    },
                }
            },
    {
        let n = quads.len();
        if n == 0 {
            return Ok(None);
        }
        proof {
            lemma_growth_idempotent(self.buffer_size as nat, n as nat);
        }
        let mut textures: Vec<TextureId> = Vec::new();
        let mut i: usize = 0;
        while i < n
            invariant
                i <= n == quads@.len(),
                textures@ == textures_of(quads@.take(i as int)),
            decreases n - i,
        {
            proof {
                assert(textures_of(quads@.take(i + 1)) =~= textures_of(quads@.take(i as int)).push(
                    quads@[i as int].texture,
                ));
            }
            textures.push(quads[i].texture);
            i += 1;
        }
        proof {
            assert(quads@.take(n as int) =~= quads@);
        }
        let units = match self.texture_units.assign(textures.as_slice(), self.max_texture_units as u32) {
            Ok(u) => u,
            Err(e) => {
                return Err(e);
            },
        };
        let ghost binds = self.texture_units@;
        proof {
            lemma_first_seen(textures@);
        }
        let reallocation = match grown_capacity(self.buffer_size, n as u32) {
            Some(c) => {
                proof {
                    assert(c == 1 || c / 2 < n);
                    assert(c * 6 <= n * 96);
                }
                let indices = quad_indices(c as usize);
                self.buffer_size = c;
                Some(Reallocation { capacity: c, indices })
            },
            None => None,
        };
        let mut vertices: Vec<u8> = Vec::new();
        let mut j: usize = 0;
        while j < n
            invariant
                j <= n == quads@.len(),
                n > 0,
                textures@ == textures_of(quads@),
                binds.no_duplicates(),
                binds.len() <= self.max_texture_units,
                units@.len() == n,
                forall|k: int|
                    0 <= k < n ==> #[trigger] units@[k] < binds.len() && binds[units@[k] as int]
                        == textures@[k],
                forall|k: int| 0 <= k < j ==> #[trigger] units_of(binds, quads@)[k] == units@[k],
                vertices@ == batch_bytes(quads@.take(j as int), units_of(binds, quads@), little_endian),
            decreases n - j,
        {
            proof {
                let u = units@[j as int] as int;
                assert(binds[u] == quads@[j as int].texture);
                let w = unit_in(binds, quads@[j as int].texture);
                assert(0 <= w < binds.len() && binds[w] == quads@[j as int].texture);
                assert(w == u);
                assert(units_of(binds, quads@)[j as int] == units@[j as int]);
                assert(quads@.take(j + 1).drop_last() =~= quads@.take(j as int));
            }
            write_quad(&mut vertices, &quads[j], units[j] as u16, little_endian);
            j += 1;
        }
        proof {
            assert(quads@.take(n as int) =~= quads@);
            lemma_batch_bytes_len(quads@, units_of(binds, quads@), little_endian);
        }
        Ok(Some(DrawBatch { reallocation, binds: self.texture_units.to_vec(), vertices, index_count: n * 6 }))
    }
}

/// Checks a texture before it is created: fails with
/// `RendererContextDontExist` where there is no context, else with
/// `InvalidLength` where its data does not fit its size and format.
pub fn check_new_texture(shared: &Option<SharedResources>, texture: &Texture) -> (r: Result<
    (),
    TextureError,
>)
    ensures
        r == (if shared is None {
            Err(TextureError::RendererContextDontExist)
        } else if !texture.spec_data_fits() {
            Err(TextureError::InvalidLength)
        } else {
            Ok(())
        }),
{
    if shared.is_none() {
        return Err(TextureError::RendererContextDontExist);
    }
    if !texture.data_fits() {
        return Err(TextureError::InvalidLength);
    }
    Ok(())
}

} // verus!
