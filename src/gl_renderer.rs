//! The compositing pipeline: the static draw description, and the
//! renderer that binds window pixmaps and plans each frame.
use crate::errors::CompError;
use crate::rect::Rect;
use crate::tracker::WinTracker;
use crate::win::{drawn_of, lemma_drawn_of_mapped, Request, Win};
use vstd::prelude::*;

verus! {

/// An offscreen framebuffer and the texture that is its colour attachment.
#[derive(Debug, Clone, Copy, PartialEq, Eq)]
pub struct FboTexture {
    pub fbo: u32,
    pub texture: u32,
}

/// The GL objects and uniform locations that every frame uses.
#[derive(Debug, Clone, Copy, PartialEq, Eq)]
pub struct WindowDrawDesc {
    /// The quad's vertex array.
    pub vao: u32,
    /// Number of indices in the quad's element buffer.
    pub index_count: u32,
    pub win_shader: u32,
    pub screen_shader: u32,
    pub target: FboTexture,
    pub background: FboTexture,
    pub win_rect_uniform_handle: i32,
    pub screen_rect_uniform_handle: i32,
    pub win_texture_uniform_handle: i32,
    pub bg_texture_uniform_handle: i32,
    pub screen_texture_uniform_handle: i32,
}

/// Uniform locations that GL reported for the two programs; a negative
/// location means the program does not have (or does not use) the uniform.
#[derive(Debug, Clone, Copy, PartialEq, Eq)]
pub struct UniformLocations {
    pub win_rect: i32,
    pub screen_rect: i32,
    pub win_texture: i32,
    pub bg_texture: i32,
    pub screen_texture: i32,
}

/// The message for the first uniform (in the order checked) that is missing.
pub open spec fn missing_uniform(u: UniformLocations) -> Option<Seq<char>> {
    if u.win_rect < 0 {
        Some("missing uniform win_rect"@)
    } else if u.screen_rect < 0 {
        Some("missing uniform screen_rect"@)
    } else if u.win_texture < 0 {
        Some("missing uniform win_texture"@)
    } else if u.bg_texture < 0 {
        Some("missing uniform bg_texture"@)
    } else if u.screen_texture < 0 {
        Some("missing uniform screen_texture"@)
    } else {
        None
    }
}

/// Vertices are (x, y, u, v) groups, indices whole triangles, at least one
/// triangle, and every index names a vertex.
pub open spec fn geometry_ok(verts_len: nat, indices: Seq<u32>) -> bool {
    &&& verts_len % 4 == 0
    &&& indices.len() % 3 == 0
    &&& indices.len() >= 3
    &&& verts_len >= 12
    &&& forall|k: int| 0 <= k < indices.len() ==> (#[trigger] indices[k]) < verts_len / 4
}

/// One GL command of a frame, with plain-valued arguments.
#[derive(Debug, Clone, Copy, PartialEq, Eq)]
pub enum GlOp {
    BindVertexArray(u32),
    /// Bind the framebuffer, clear it to opaque black, and disable depth testing.
    ClearFramebuffer(u32),
    UseProgram(u32),
    /// Set an integer uniform: location, value.
    Uniform1i(i32, i32),
    /// Set a `vec2` uniform to a screen size: location, width, height.
    Uniform2(i32, u16, u16),
    /// Set a `vec4` uniform to a rectangle: location, then x, y, width, height.
    Uniform4(i32, Rect),
    /// Select texture unit `n`.
    ActiveTexture(u32),
    /// Bind a 2D texture on the selected unit.
    BindTexture(u32),
    BindFramebuffer(u32),
    /// Draw that many indices of the bound element buffer as triangles.
    DrawElements(u32),
    /// Bind a GL drawable's front buffer into the bound texture.
    BindTexImage(u64),
    ReleaseTexImage(u64),
    SwapBuffers(u32),
}

impl WindowDrawDesc {
    /// The (front, back) framebuffers of the pass for the `i`-th drawn
    /// window: the roles swap before every pass.
    pub open spec fn pass_fbos(self, i: int) -> (FboTexture, FboTexture) {
        if i % 2 == 0 {
            (self.background, self.target)
        } else {
            (self.target, self.background)
        }
    }

    /// The front framebuffer after `n` passes.
    pub open spec fn front_after(self, n: int) -> FboTexture {
        if n % 2 == 0 {
            self.target
        } else {
            self.background
        }
    }
}

/// The two passes for the `i`-th drawn window: carry the composition so
/// far into the new front buffer, then draw the window over it, with the
/// window's pixmap bound only around its draw.
pub open spec fn window_pass_ops(d: WindowDrawDesc, w: Win, i: int, width: u16, height: u16) -> Seq<
    GlOp,
> {
    let (front, back) = d.pass_fbos(i);
    Seq::empty()
        .push(GlOp::UseProgram(d.screen_shader))
        .push(GlOp::Uniform1i(d.screen_texture_uniform_handle, 0))
        .push(GlOp::ActiveTexture(0))
        .push(GlOp::BindTexture(back.texture))
        .push(GlOp::BindFramebuffer(front.fbo))
        .push(GlOp::DrawElements(d.index_count))
        .push(GlOp::UseProgram(d.win_shader))
        .push(GlOp::Uniform1i(d.win_texture_uniform_handle, 0))
        .push(GlOp::Uniform1i(d.bg_texture_uniform_handle, 1))
        .push(GlOp::Uniform2(d.screen_rect_uniform_handle, width, height))
        .push(GlOp::Uniform4(d.win_rect_uniform_handle, w.rect))
        .push(GlOp::ActiveTexture(0))
        .push(GlOp::BindTexture(w.texture->0))
        .push(GlOp::BindTexImage(w.glx_pixmap->0))
        .push(GlOp::ActiveTexture(1))
        .push(GlOp::BindTexture(back.texture))
        .push(GlOp::BindFramebuffer(front.fbo))
        .push(GlOp::DrawElements(d.index_count))
        .push(GlOp::ReleaseTexImage(w.glx_pixmap->0))
}

pub open spec fn window_passes(d: WindowDrawDesc, ws: Seq<Win>, width: u16, height: u16) -> Seq<
    GlOp,
>
    decreases ws.len(),
{
    if ws.len() == 0 {
        seq![]
    } else {
        window_passes(d, ws.drop_last(), width, height) + window_pass_ops(
            d,
            ws.last(),
            ws.len() - 1,
            width,
            height,
        )
    }
}

pub open spec fn setup_ops(d: WindowDrawDesc) -> Seq<GlOp> {
    Seq::empty()
        .push(GlOp::BindVertexArray(d.vao))
        .push(GlOp::ClearFramebuffer(d.target.fbo))
        .push(GlOp::ClearFramebuffer(d.background.fbo))
}

/// Copy the final composition to the default framebuffer and swap.
pub open spec fn present_ops(d: WindowDrawDesc, n: int, overlay: u32) -> Seq<GlOp> {
    Seq::empty()
        .push(GlOp::UseProgram(d.screen_shader))
        .push(GlOp::Uniform1i(d.screen_texture_uniform_handle, 0))
        .push(GlOp::ActiveTexture(0))
        .push(GlOp::BindTexture(d.front_after(n).texture))
        .push(GlOp::BindFramebuffer(0))
        .push(GlOp::DrawElements(d.index_count))
        .push(GlOp::SwapBuffers(overlay))
}

/// The commands of one frame that draws `ws`, bottom to top.
pub open spec fn frame_ops(
    d: WindowDrawDesc,
    ws: Seq<Win>,
    width: u16,
    height: u16,
    overlay: u32,
) -> Seq<GlOp> {
    setup_ops(d) + window_passes(d, ws, width, height) + present_ops(d, ws.len() as int, overlay)
}

impl WindowDrawDesc {
    /// Checks the quad's geometry: `verts_len` floats of vertex data and
    /// the element indices.
    pub fn validate_geometry(verts_len: usize, indices: &Vec<u32>) -> (r: Result<(), CompError>)
        ensures
            r is Ok <==> geometry_ok(verts_len as nat, indices@),
            r matches Err(e) ==> e is Config,
    {
        let n_verts = verts_len / 4;
        let mut k: usize = 0;
        while k < indices.len()
            invariant
                k <= indices@.len(),
                n_verts == verts_len / 4,
                forall|j: int| 0 <= j < k ==> (#[trigger] indices@[j]) < verts_len / 4,
            decreases indices@.len() - k,
        {
            if indices[k] as usize >= n_verts {
                return Err(CompError::Config("indices contain an out of range vertex".to_owned()));
            }
            k = k + 1;
        }
        if verts_len % 4 != 0 {
            return Err(
                CompError::Config("vertices are not a multiple of 4 (x, y, u, v)".to_owned()),
            );
        }
        if indices.len() % 3 != 0 {
            return Err(CompError::Config("indices are not a multiple of 3 (triangles)".to_owned()));
        }
        if verts_len < 12 || indices.len() < 3 {
            return Err(CompError::Config("at least one triangle is needed".to_owned()));
        }
        Ok(())
    }

    /// Checks that both programs have every uniform the frame sets.
    pub fn check_uniforms(u: &UniformLocations) -> (r: Result<(), CompError>)
        ensures
            match missing_uniform(*u) {
                None => r is Ok,
                Some(m) => r matches Err(CompError::Shader(s)) && s@ == m,
            },
    {
        if u.win_rect < 0 {
            return Err(CompError::Shader("missing uniform win_rect".to_owned()));
        }
        if u.screen_rect < 0 {
            return Err(CompError::Shader("missing uniform screen_rect".to_owned()));
        }
        if u.win_texture < 0 {
            return Err(CompError::Shader("missing uniform win_texture".to_owned()));
        }
        if u.bg_texture < 0 {
            return Err(CompError::Shader("missing uniform bg_texture".to_owned()));
        }
        if u.screen_texture < 0 {
            return Err(CompError::Shader("missing uniform screen_texture".to_owned()));
        }
        Ok(())
    }

    /// The draw description over GL objects already made: the uniforms are
    /// checked first, then the quad's geometry.
    pub fn new(
        verts_len: usize,
        indices: &Vec<u32>,
        win_shader: u32,
        screen_shader: u32,
        uniforms: &UniformLocations,
        vao: u32,
        target: FboTexture,
        background: FboTexture,
    ) -> (r: Result<WindowDrawDesc, CompError>)
        ensures
            match missing_uniform(*uniforms) {
                Some(m) => r matches Err(CompError::Shader(s)) && s@ == m,
                None => if geometry_ok(verts_len as nat, indices@) {
                    r == Ok::<WindowDrawDesc, CompError>(
                        WindowDrawDesc {
                            vao,
                            index_count: indices@.len() as u32,
                            win_shader,
                            screen_shader,
                            target,
                            background,
                            win_rect_uniform_handle: uniforms.win_rect,
                            screen_rect_uniform_handle: uniforms.screen_rect,
                            win_texture_uniform_handle: uniforms.win_texture,
                            bg_texture_uniform_handle: uniforms.bg_texture,
                            screen_texture_uniform_handle: uniforms.screen_texture,
                        },
                    )
                } else {
                    r matches Err(e) && e is Config
                },
            },
    {
        match WindowDrawDesc::check_uniforms(uniforms) {
            Err(e) => {
                return Err(e);
            },
            Ok(()) => {},
        }
        match WindowDrawDesc::validate_geometry(verts_len, indices) {
            Err(e) => {
                return Err(e);
            },
            Ok(()) => {},
        }
        Ok(
            WindowDrawDesc {
                vao,
                index_count: indices.len() as u32,
                win_shader,
                screen_shader,
                target,
                background,
                win_rect_uniform_handle: uniforms.win_rect,
                screen_rect_uniform_handle: uniforms.screen_rect,
                win_texture_uniform_handle: uniforms.win_texture,
                bg_texture_uniform_handle: uniforms.bg_texture,
                screen_texture_uniform_handle: uniforms.screen_texture,
            },
        )
    }
}

/// Owns the draw description; binds window pixmaps and plans frames.
#[derive(Debug)]
pub struct GLRenderer {
    desc: WindowDrawDesc,
}

impl GLRenderer {
    pub closed spec fn desc(&self) -> WindowDrawDesc {
        self.desc
    }

    pub fn new(desc: WindowDrawDesc) -> (r: Result<GLRenderer, CompError>)
        ensures
            r matches Ok(g) && g.desc() == desc,
    {
        Ok(GLRenderer { desc })
    }

    /// The quad vertex array every window draws with.
    pub fn vao(&self) -> (r: u32)
        ensures
            r == self.desc().vao,
    {
        self.desc.vao
    }

    /// Binds new handles to a window and returns the release of the ones it held.
    pub fn reacquire_glx_pixmap(
        &self,
        win: &mut Win,
        pixmap: u32,
        drawable: u64,
        texture: u32,
    ) -> (r: Vec<Request>)
        ensures
            r@ == old(win).release_requests(),
            *final(win) == old(win).with_handles(pixmap, drawable, texture),
    {
        let r = self.release_glx_pixmap(win);
        win.pixmap = Some(pixmap);
        win.glx_pixmap = Some(drawable);
        win.texture = Some(texture);
        r
    }

    /// Clears a window's handles and returns the release of the ones it held.
    pub fn release_glx_pixmap(&self, win: &mut Win) -> (r: Vec<Request>)
        ensures
            r@ == old(win).release_requests(),
            *final(win) == old(win).cleared(),
    {
        let mut r: Vec<Request> = Vec::new();
        match (win.pixmap, win.glx_pixmap, win.texture) {
            (Some(p), Some(d), Some(t)) => {
                r.push(Request::Release { pixmap: p, drawable: d, texture: t });
            },
            _ => {},
        }
        win.pixmap = None;
        win.glx_pixmap = None;
        win.texture = None;
        r
    }

    fn push_window_pass(
        &self,
        ops: &mut Vec<GlOp>,
        w: &Win,
        drawable: u64,
        texture: u32,
        i: usize,
        width: u16,
        height: u16,
    )
        requires
            w.glx_pixmap == Some(drawable),
            w.texture == Some(texture),
        ensures
            final(ops)@ == old(ops)@ + window_pass_ops(self.desc(), *w, i as int, width, height),
    {
        let d = &self.desc;
        let (front, back) = if i % 2 == 0 {
            (d.background, d.target)
        } else {
            (d.target, d.background)
        };
        ops.push(GlOp::UseProgram(d.screen_shader));
        ops.push(GlOp::Uniform1i(d.screen_texture_uniform_handle, 0));
        ops.push(GlOp::ActiveTexture(0));
        ops.push(GlOp::BindTexture(back.texture));
        ops.push(GlOp::BindFramebuffer(front.fbo));
        ops.push(GlOp::DrawElements(d.index_count));
        ops.push(GlOp::UseProgram(d.win_shader));
        ops.push(GlOp::Uniform1i(d.win_texture_uniform_handle, 0));
        ops.push(GlOp::Uniform1i(d.bg_texture_uniform_handle, 1));
        ops.push(GlOp::Uniform2(d.screen_rect_uniform_handle, width, height));
        ops.push(GlOp::Uniform4(d.win_rect_uniform_handle, w.rect));
        ops.push(GlOp::ActiveTexture(0));
        ops.push(GlOp::BindTexture(texture));
        ops.push(GlOp::BindTexImage(drawable));
        ops.push(GlOp::ActiveTexture(1));
        ops.push(GlOp::BindTexture(back.texture));
        ops.push(GlOp::BindFramebuffer(front.fbo));
        ops.push(GlOp::DrawElements(d.index_count));
        ops.push(GlOp::ReleaseTexImage(drawable));
        assert(final(ops)@ =~= old(ops)@ + window_pass_ops(self.desc(), *w, i as int, width, height));
    }

    /// Plans one frame: every mapped, composited window that holds its
    /// handles is composed over the ones below it, bottom to top, then the
    /// result is presented on `overlay`.
    pub fn render(&self, width: u16, height: u16, wins: &WinTracker, overlay: u32) -> (r: Vec<
        GlOp,
    >)
        ensures
            r@ == frame_ops(self.desc(), drawn_of(wins.windows()), width, height, overlay),
    {
        let d = &self.desc;
        let mut ops: Vec<GlOp> = Vec::new();
        ops.push(GlOp::BindVertexArray(d.vao));
        ops.push(GlOp::ClearFramebuffer(d.target.fbo));
        ops.push(GlOp::ClearFramebuffer(d.background.fbo));
        let mapped = wins.mapped_wins();
        let mut n: usize = 0;
        let mut i: usize = 0;
        proof {
            reveal(Seq::filter);
            assert(ops@ =~= setup_ops(self.desc()) + window_passes(
                self.desc(),
                drawn_of(mapped@.take(0)),
                width,
                height,
            ));
        }
        while i < mapped.len()
            invariant
                i <= mapped@.len(),
                n == drawn_of(mapped@.take(i as int)).len(),
                n <= i,
                ops@ == setup_ops(self.desc()) + window_passes(
                    self.desc(),
                    drawn_of(mapped@.take(i as int)),
                    width,
                    height,
                ),
            decreases mapped@.len() - i,
        {
            let w = mapped[i];
            let ghost prev = drawn_of(mapped@.take(i as int));
            proof {
                assert(mapped@.take(i + 1) == mapped@.take(i as int).push(w));
                mapped@.take(i as int).lemma_filter_push(w, |w: Win| w.drawn());
            }
            if w.mapped && Win::needs_damage(w.class, w.track_damage) {
                match (w.pixmap, w.glx_pixmap, w.texture) {
                    (Some(_), Some(drawable), Some(texture)) => {
                        proof {
                            assert(prev.push(w).drop_last() == prev);
                        }
                        self.push_window_pass(&mut ops, &w, drawable, texture, n, width, height);
                        proof {
                            assert(ops@ =~= setup_ops(self.desc()) + window_passes(
                                self.desc(),
                                prev.push(w),
                                width,
                                height,
                            ));
                        }
                        n = n + 1;
                    },
                    _ => {},
                }
            }
            i = i + 1;
        }
        let front = if n % 2 == 0 {
            d.target
        } else {
            d.background
        };
        ops.push(GlOp::UseProgram(d.screen_shader));
        ops.push(GlOp::Uniform1i(d.screen_texture_uniform_handle, 0));
        ops.push(GlOp::ActiveTexture(0));
        ops.push(GlOp::BindTexture(front.texture));
        ops.push(GlOp::BindFramebuffer(0));
        ops.push(GlOp::DrawElements(d.index_count));
        ops.push(GlOp::SwapBuffers(overlay));
        proof {
            assert(mapped@.take(mapped@.len() as int) == mapped@);
            lemma_drawn_of_mapped(wins.windows());
        }
        assert(ops@ =~= frame_ops(self.desc(), drawn_of(wins.windows()), width, height, overlay));
        ops
    }
}

} // verus!

verus! {

pub open spec fn draw_calls(s: Seq<GlOp>) -> nat {
    s.filter(|op: GlOp| op is DrawElements).len()
}

pub open spec fn tex_image_binds(s: Seq<GlOp>) -> nat {
    s.filter(|op: GlOp| op is BindTexImage).len()
}

pub open spec fn tex_image_releases(s: Seq<GlOp>) -> nat {
    s.filter(|op: GlOp| op is ReleaseTexImage).len()
}

pub open spec fn buffer_swaps(s: Seq<GlOp>) -> nat {
    s.filter(|op: GlOp| op is SwapBuffers).len()
}

proof fn lemma_counts_empty()
    ensures
        draw_calls(Seq::empty()) == 0,
        tex_image_binds(Seq::empty()) == 0,
        tex_image_releases(Seq::empty()) == 0,
        buffer_swaps(Seq::empty()) == 0,
{
    reveal(Seq::filter);
}

proof fn lemma_counts_add(a: Seq<GlOp>, b: Seq<GlOp>)
    ensures
        draw_calls(a + b) == draw_calls(a) + draw_calls(b),
        tex_image_binds(a + b) == tex_image_binds(a) + tex_image_binds(b),
        tex_image_releases(a + b) == tex_image_releases(a) + tex_image_releases(b),
        buffer_swaps(a + b) == buffer_swaps(a) + buffer_swaps(b),
{
    Seq::filter_distributes_over_add(a, b, |op: GlOp| op is DrawElements);
    Seq::filter_distributes_over_add(a, b, |op: GlOp| op is BindTexImage);
    Seq::filter_distributes_over_add(a, b, |op: GlOp| op is ReleaseTexImage);
    Seq::filter_distributes_over_add(a, b, |op: GlOp| op is SwapBuffers);
}

proof fn lemma_passes_counts(d: WindowDrawDesc, ws: Seq<Win>, width: u16, height: u16)
    ensures
        draw_calls(window_passes(d, ws, width, height)) == 2 * ws.len(),
        tex_image_binds(window_passes(d, ws, width, height)) == ws.len(),
        tex_image_releases(window_passes(d, ws, width, height)) == ws.len(),
        buffer_swaps(window_passes(d, ws, width, height)) == 0,
    decreases ws.len(),
{
    broadcast use Seq::lemma_filter_push;

    lemma_counts_empty();
    if ws.len() > 0 {
        lemma_passes_counts(d, ws.drop_last(), width, height);
        let pass = window_pass_ops(d, ws.last(), ws.len() - 1, width, height);
        lemma_counts_add(window_passes(d, ws.drop_last(), width, height), pass);
        assert(draw_calls(pass) == 2);
        assert(tex_image_binds(pass) == 1);
        assert(tex_image_releases(pass) == 1);
        assert(buffer_swaps(pass) == 0);
    }
}

/// A frame that draws `n` windows issues exactly `2n + 1` draw calls, binds
/// and releases `n` window pixmaps, and swaps buffers once.
pub proof fn lemma_frame_counts(
    d: WindowDrawDesc,
    ws: Seq<Win>,
    width: u16,
    height: u16,
    overlay: u32,
)
    ensures
        draw_calls(frame_ops(d, ws, width, height, overlay)) == 2 * ws.len() + 1,
        tex_image_binds(frame_ops(d, ws, width, height, overlay)) == ws.len(),
        tex_image_releases(frame_ops(d, ws, width, height, overlay)) == ws.len(),
        buffer_swaps(frame_ops(d, ws, width, height, overlay)) == 1,
{
    broadcast use Seq::lemma_filter_push;

    lemma_counts_empty();
    let s = setup_ops(d);
    let m = window_passes(d, ws, width, height);
    let p = present_ops(d, ws.len() as int, overlay);
    lemma_passes_counts(d, ws, width, height);
    lemma_counts_add(s, m);
    lemma_counts_add(s + m, p);
    assert(draw_calls(s) == 0 && tex_image_binds(s) == 0 && tex_image_releases(s) == 0
        && buffer_swaps(s) == 0);
    assert(draw_calls(p) == 1 && tex_image_binds(p) == 0 && tex_image_releases(p) == 0
        && buffer_swaps(p) == 1);
}

} // verus!
