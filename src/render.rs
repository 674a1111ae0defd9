use crate::buffer::{grown, quad_index};
use crate::resources::{update_rect, DrawBatch, SharedResources, textures_of, units_of};
use crate::texture::{Texture, TextureError, TextureFormat, TextureId, data_len_of};
use crate::units::{first_seen, UnitBudgetExceeded};
use crate::vertex::{batch_bytes, SpriteQuad, SPRITE_STRIDE};
use crate::windows::{has_window, switched, window_index, Removed, SwitchError, WindowContexts, WindowState};
use vstd::prelude::*;

verus! {

/// The state of a sprite renderer apart from the graphics calls: the
/// contexts of its windows, of which at most one is current, the resources
/// that they share, and the OpenGL major version.
///
/// Without shared resources (before the first context is created, or after
/// a suspension) the renderer draws nothing and texture operations fail.
#[verifier::reject_recursive_types(N)]
#[verifier::reject_recursive_types(P)]
pub struct RenderState<N, P> {
    windows: WindowContexts<N, P>,
    shared: Option<SharedResources>,
    major_version: u8,
}

impl<N, P> RenderState<N, P> {
    pub closed spec fn spec_windows(&self) -> WindowContexts<N, P> {
        self.windows
    }

    pub closed spec fn spec_shared(&self) -> Option<SharedResources> {
        self.shared
    }

    pub closed spec fn spec_major_version(&self) -> u8 {
        self.major_version
    }

    pub open spec fn wf(&self) -> bool {
        self.spec_windows().wf()
    }

    /// A renderer with no context and no resources.
    pub fn new() -> (r: Self)
        ensures
            r.wf(),
            r.spec_windows().states() == Seq::<WindowState>::empty(),
            r.spec_windows().current_window() is None,
            r.spec_shared() is None,
            r.spec_major_version() == 0,
    {
        RenderState { windows: WindowContexts::new(), shared: None, major_version: 0 }
    }

    /// Installs the first context, current, of `window`, and the resources
    /// that every later context shares; any earlier context is dropped.
    pub fn install(
        &mut self,
        window: u64,
        context: P,
        vao: Option<u32>,
        shared: SharedResources,
        major_version: u8,
    )
        ensures
            final(self).wf(),
            final(self).spec_windows().states() == seq![WindowState { window, vao }],
            final(self).spec_windows().current_window() == Some(window),
            final(self).spec_windows().current_context() == Some(context),
            final(self).spec_shared() == Some(shared),
            final(self).spec_major_version() == major_version,
    {
        self.windows.reset(window, context, vao);
        self.shared = Some(shared);
        self.major_version = major_version;
    }

    /// Drops every context and every shared resource, as on a suspension.
    pub fn suspend(&mut self)
        ensures
            final(self).wf(),
            final(self).spec_windows().states() == Seq::<WindowState>::empty(),
            final(self).spec_windows().current_window() is None,
            final(self).spec_shared() is None,
            final(self).spec_major_version() == 0,
    {
        self.windows.clear();
        self.shared = None;
        self.major_version = 0;
    }

    /// Whether the shared resources exist.
    pub fn has_resources(&self) -> (r: bool)
        ensures
            r == self.spec_shared() is Some,
    {
        self.shared.is_some()
    }

    /// The shared resources, where they exist.
    pub fn shared(&self) -> (r: Option<&SharedResources>)
        ensures
            match r {
                Some(s) => self.spec_shared() == Some(*s),
                None => self.spec_shared() is None,
            },
    {
        match &self.shared {
            Some(s) => Some(s),
            None => None,
        }
    }

    /// The OpenGL major version of the contexts.
    pub fn major_version(&self) -> (r: u8)
        ensures
            r == self.spec_major_version(),
    {
        self.major_version
    }

    /// The contexts of the windows.
    pub fn windows(&self) -> (r: &WindowContexts<N, P>)
        ensures
            *r == self.spec_windows(),
    {
        &self.windows
    }

    /// Adds a window with its context, not current; see
    /// `WindowContexts::add_window`.
    pub fn add_window(&mut self, window: u64, context: N) -> (r: Result<(), N>)
        requires
            old(self).wf(),
        ensures
            final(self).wf(),
            final(self).spec_shared() == old(self).spec_shared(),
            final(self).spec_major_version() == old(self).spec_major_version(),
            final(self).spec_windows().current_window() == old(self).spec_windows().current_window(),
            r is Err <==> has_window(old(self).spec_windows().states(), window),
            r matches Err(c) ==> c == context,
            r is Err ==> final(self).spec_windows().states() == old(self).spec_windows().states(),
            r is Ok ==> final(self).spec_windows().states() == old(self).spec_windows().states().push(WindowState { window, vao: None }),
    {
        self.windows.add_window(window, context)
    }

    /// Removes a window and hands back its context; see
    /// `WindowContexts::remove_window`.
    pub fn remove_window(&mut self, window: u64) -> (r: Removed<N, P>)
        requires
            old(self).wf(),
        ensures
            final(self).wf(),
            final(self).spec_shared() == old(self).spec_shared(),
            final(self).spec_major_version() == old(self).spec_major_version(),
            !has_window(final(self).spec_windows().states(), window),
            !has_window(old(self).spec_windows().states(), window) ==> r is Absent,
            old(self).spec_windows().current_window() == Some(window) ==> r is Current
                && final(self).spec_windows().current_window() is None,
            old(self).spec_windows().current_window() != Some(window) && has_window(
                old(self).spec_windows().states(),
                window,
            ) ==> r is NotCurrent,
            old(self).spec_windows().current_window() != Some(window) ==> final(self).spec_windows().current_window() == old(self).spec_windows().current_window(),
    {
        self.windows.remove_window(window)
    }

    /// Makes the context of `window` current; see
    /// `WindowContexts::make_current`.
    pub fn make_current<E, F, G>(&mut self, window: u64, promote: F, demote: G) -> (r: Result<
        (),
        SwitchError<E>,
    >) where F: FnOnce(N) -> Result<P, E>, G: FnOnce(P) -> Result<N, E>
        requires
            old(self).wf(),
            forall|n: N| promote.requires((n,)),
            forall|p: P| demote.requires((p,)),
        ensures
            final(self).wf(),
            final(self).spec_shared() == old(self).spec_shared(),
            final(self).spec_major_version() == old(self).spec_major_version(),
            !has_window(old(self).spec_windows().states(), window) ==> r matches Err(
                SwitchError::UnknownWindow,
            ),
            has_window(old(self).spec_windows().states(), window) ==> !(r matches Err(
                SwitchError::UnknownWindow,
            )),
            r is Ok ==> switched(old(self).spec_windows(), final(self).spec_windows(), window),
    {
        self.windows.make_current(window, promote, demote)
    }

    /// Sets the vertex array object of the current window.
    pub fn set_current_vao(&mut self, vao: Option<u32>)
        requires
            old(self).wf(),
        ensures
            final(self).wf(),
            final(self).spec_shared() == old(self).spec_shared(),
            final(self).spec_major_version() == old(self).spec_major_version(),
            final(self).spec_windows().current_window() == old(self).spec_windows().current_window(),
            match old(self).spec_windows().current_window() {
                Some(w) => final(self).spec_windows().states() == old(self).spec_windows().states().update(
                    window_index(old(self).spec_windows().states(), w),
                    WindowState { window: w, vao },
                ),
                None => final(self).spec_windows().states() == old(self).spec_windows().states(),
            },
    {
        self.windows.set_current_vao(vao)
    }

    /// Checks a texture before it is created: fails with
    /// `RendererContextDontExist` where there are no shared resources, else
    /// with `InvalidLength` where its data does not fit its size and format.
    pub fn check_new_texture(&self, texture: &Texture) -> (r: Result<(), TextureError>)
        ensures
            r == (if self.spec_shared() is None {
                Err(TextureError::RendererContextDontExist)
            } else if !texture.spec_data_fits() {
                Err(TextureError::InvalidLength)
            } else {
                Ok(())
            }),
    {
        crate::resources::check_new_texture(&self.shared, texture)
    }

    /// Records that texture `id` was created with the given size.
    pub fn record_texture(&mut self, id: TextureId, width: u32, height: u32)
        requires
            old(self).spec_shared() is Some,
        ensures
            final(self).wf() == old(self).wf(),
            final(self).spec_windows() == old(self).spec_windows(),
            final(self).spec_major_version() == old(self).spec_major_version(),
            final(self).spec_shared() is Some,
            final(self).spec_shared()->0.spec_textures() == old(self).spec_shared()->0.spec_textures().insert(id.0, (width, height)),
            final(self).spec_shared()->0.spec_buffer_size() == old(self).spec_shared()->0.spec_buffer_size(),
            final(self).spec_shared()->0.spec_objects() == old(self).spec_shared()->0.spec_objects(),
            final(self).spec_shared()->0.spec_max_texture_units() == old(self).spec_shared()->0.spec_max_texture_units(),
    {
        match &mut self.shared {
            Some(s) => s.record_texture(id, width, height),
            None => {},
        }
    }

    /// The stored size of texture `id`, where there are shared resources and
    /// the texture is known.
    pub fn texture_size(&self, id: TextureId) -> (r: Option<(u32, u32)>)
        ensures
            r == (match self.spec_shared() {
                Some(s) => if s.spec_textures().contains_key(id.0) {
                    Some(s.spec_textures()[id.0])
                } else {
                    None
                },
                None => None,
            }),
    {
        match &self.shared {
            Some(s) => s.texture_size(id),
            None => None,
        }
    }

    /// The rectangle that an update of texture `id` writes; see
    /// `SharedResources::texture_update_rect`. Fails with
    /// `RendererContextDontExist` where there are no shared resources.
    pub fn texture_update_rect(
        &self,
        id: TextureId,
        data_len: Option<usize>,
        sub_rect: Option<[u32; 4]>,
    ) -> (r: Result<[u32; 4], TextureError>)
        requires
            self.spec_shared() matches Some(s) ==> sub_rect is Some || s.spec_textures().contains_key(
                id.0,
            ),
        ensures
            self.spec_shared() is None ==> r == Err::<[u32; 4], TextureError>(
                TextureError::RendererContextDontExist,
            ),
            self.spec_shared() matches Some(s) ==> {
                let rect = update_rect(sub_rect, s.spec_textures()[id.0]);
                let fits = match data_len {
                    Some(n) => n == rect[2] * rect[3] * 4,
                    None => true,
                };
                &&& r is Ok <==> fits
                &&& r matches Ok(x) ==> x@ == rect
                &&& r matches Err(e) ==> e == TextureError::InvalidLength
            },
    {
        match &self.shared {
            Some(s) => s.texture_update_rect(id, data_len, sub_rect),
            None => Err(TextureError::RendererContextDontExist),
        }
    }

    /// Checks new data of texture `id` at a new size and records the size;
    /// see `SharedResources::resize_texture`. Fails with
    /// `RendererContextDontExist` where there are no shared resources.
    pub fn resize_texture(&mut self, id: TextureId, width: u32, height: u32, data_len: Option<
        usize,
    >) -> (r: Result<(), TextureError>)
        ensures
            final(self).spec_windows() == old(self).spec_windows(),
            final(self).spec_major_version() == old(self).spec_major_version(),
            old(self).spec_shared() is None ==> r == Err::<(), TextureError>(
                TextureError::RendererContextDontExist,
            ) && final(self).spec_shared() is None,
            old(self).spec_shared() matches Some(s) ==> {
                &&& final(self).spec_shared() is Some
                &&& r is Ok <==> match data_len {
                    Some(n) => n == data_len_of(width, height, TextureFormat::Rgba8888),
                    None => true,
                }
                &&& r is Ok ==> final(self).spec_shared()->0.spec_textures()
                    == s.spec_textures().insert(id.0, (width, height))
                &&& r is Err ==> r == Err::<(), TextureError>(TextureError::InvalidLength)
                    && final(self).spec_shared()->0.spec_textures() == s.spec_textures()
            },
    {
        match &mut self.shared {
            Some(s) => s.resize_texture(id, width, height, data_len),
            None => Err(TextureError::RendererContextDontExist),
        }
    }

    /// Prepares one draw call of `quads`; see `SharedResources::prepare_draw`.
    pub fn prepare_draw(&mut self, quads: &[SpriteQuad], little_endian: bool) -> (r: Result<
        Option<DrawBatch>,
        UnitBudgetExceeded,
    >)
        requires
            old(self).spec_shared() is Some,
            quads@.len() <= 0x8000_0000,
            quads@.len() * 96 <= usize::MAX,
        ensures
            final(self).spec_windows() == old(self).spec_windows(),
            final(self).spec_major_version() == old(self).spec_major_version(),
            final(self).spec_shared() is Some,
            ({
                let s0 = old(self).spec_shared()->0;
                let s1 = final(self).spec_shared()->0;
                &&& s1.spec_textures() == s0.spec_textures()
                &&& s1.spec_objects() == s0.spec_objects()
                &&& quads@.len() == 0 ==> (r matches Ok(None)) && s1.spec_buffer_size()
                    == s0.spec_buffer_size()
                &&& quads@.len() > 0 ==> (r matches Ok(Some(_)) <==> first_seen(
                    textures_of(quads@),
                ).len() <= s0.spec_max_texture_units())
                &&& r is Err ==> s1.spec_buffer_size() == s0.spec_buffer_size()
                &&& r is Ok ==> grown(s1.spec_buffer_size() as nat, quads@.len() as nat) is None
                &&& r matches Ok(Some(b)) ==> {
                    &&& b.binds@ == first_seen(textures_of(quads@))
                    &&& b.vertices@ == batch_bytes(quads@, units_of(b.binds@, quads@), little_endian)
                    &&& b.vertices@.len() == SPRITE_STRIDE * quads@.len()
                    &&& b.index_count == 6 * quads@.len()
                    &&& match grown(s0.spec_buffer_size() as nat, quads@.len() as nat) {
                        Some(c) => {
                            &&& b.reallocation matches Some(re)
                            &&& re.capacity == c
                            &&& s1.spec_buffer_size() == c
                            &&& re.indices@.len() == 6 * c
                            &&& forall|k: int|
                                0 <= k < re.indices@.len() ==> #[trigger] re.indices@[k]
                                    == quad_index(k)
                        },
                        None => {
                            &&& b.reallocation is None
                            &&& s1.spec_buffer_size() == s0.spec_buffer_size()
                        },
                    }
                }
            }),
    {
        match &mut self.shared {
            Some(s) => s.prepare_draw(quads, little_endian),
            None => Ok(None),
        }
    }
}

/// A sprite renderer that does nothing. None of its operations fails.
pub struct NoopSpriteRender;

impl NoopSpriteRender {
    /// Loads nothing, and hands back the id zero.
    pub fn new_texture(&mut self, texture: Texture) -> (r: Result<TextureId, TextureError>)
        ensures
            r == Ok::<TextureId, TextureError>(TextureId(0)),
    {
        Ok(TextureId(0))
    }

    /// Updates nothing.
    pub fn update_texture(
        &mut self,
        texture: TextureId,
        data: Option<&[u8]>,
        sub_rect: Option<[u32; 4]>,
    ) -> (r: Result<(), TextureError>)
        ensures
            r == Ok::<(), TextureError>(()),
    {
        Ok(())
    }
}

} // verus!
