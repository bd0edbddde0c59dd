//! A tracked top-level window and the outside work its transitions ask for.
use crate::event::{ConfigureNotifyEvent, CreateNotifyEvent, MapNotifyEvent};
use crate::gl_renderer::GLRenderer;
use crate::rect::Rect;
use vstd::prelude::*;

verus! {

/// The class of a window; input-only windows have no contents to composite.
#[derive(Debug, Clone, Copy, PartialEq, Eq, Structural)]
pub enum WindowClass {
    CopyFromParent,
    InputOutput,
    InputOnly,
}

/// The map state the server reports for a window.
#[derive(Debug, Clone, Copy, PartialEq, Eq)]
pub enum MapState {
    Unmapped,
    Unviewable,
    Viewable,
}

/// A window's geometry as the server reports it.
#[derive(Debug, Clone, Copy, PartialEq, Eq)]
pub struct Geometry {
    pub x: i16,
    pub y: i16,
    pub width: u16,
    pub height: u16,
    pub border_width: u16,
}

/// The attributes of a window that the compositor reads.
#[derive(Debug, Clone, Copy, PartialEq, Eq)]
pub struct WinAttributes {
    pub override_redirect: bool,
    pub class: WindowClass,
    pub map_state: MapState,
}

/// Outside work that a transition asks the program to perform.
#[derive(Debug, Clone, Copy, PartialEq, Eq)]
pub enum Request {
    /// Create damage object `damage` on `window` (reporting non-empty damage)
    /// and select exposure events on the window.
    TrackDamage { window: u32, damage: u32 },
    /// Name a fresh backing pixmap for `window`, create a GL drawable and a
    /// texture for it, and hand the three to `WinTracker::attach`.
    Acquire { window: u32 },
    /// Destroy a GL drawable and its texture and free the backing pixmap.
    Release { pixmap: u32, drawable: u64, texture: u32 },
    /// Destroy a damage object; the server's error is ignored.
    DestroyDamage { damage: u32 },
    /// Subtract all of `damage` into `region` and fetch the region; a server
    /// error is dropped.
    SubtractDamage { damage: u32, region: u32 },
    /// Fetch property `atom` of `window` (up to `length` 32-bit items) and
    /// decode it with `decode_window_ids`.
    FetchStacking { window: u32, atom: u32, length: u32 },
}

/// A tracked top-level window.
#[derive(Debug, Clone, Copy, PartialEq, Eq)]
pub struct Win {
    pub rect: Rect,
    pub handle: u32,
    pub damage: Option<u32>,
    pub border_width: u16,
    pub override_redirect: bool,
    pub mapped: bool,
    pub class: WindowClass,
    /// False for the root sentinel and the overlay: they are never composited.
    pub track_damage: bool,
    /// The server pixmap holding the window's contents.
    pub pixmap: Option<u32>,
    /// The GL drawable bound to `pixmap`.
    pub glx_pixmap: Option<u64>,
    /// The GL texture the drawable is bound into while drawing.
    pub texture: Option<u32>,
    pub vao: u32,
}

/// The mapped windows, in order.
pub open spec fn mapped_of(ws: Seq<Win>) -> Seq<Win> {
    ws.filter(|w: Win| w.mapped)
}

/// The windows a frame draws, in order.
pub open spec fn drawn_of(ws: Seq<Win>) -> Seq<Win> {
    ws.filter(|w: Win| w.drawn())
}

/// Drawn windows are mapped, so picking the mapped ones first changes nothing.
pub proof fn lemma_drawn_of_mapped(ws: Seq<Win>)
    ensures
        drawn_of(mapped_of(ws)) == drawn_of(ws),
    decreases ws.len(),
{
    if ws.len() > 0 {
        let init = ws.drop_last();
        let x = ws.last();
        lemma_drawn_of_mapped(init);
        assert(ws == init.push(x));
        init.lemma_filter_push(x, |w: Win| w.mapped);
        init.lemma_filter_push(x, |w: Win| w.drawn());
        mapped_of(init).lemma_filter_push(x, |w: Win| w.drawn());
    } else {
        reveal(Seq::filter);
    }
}

pub open spec fn spec_needs_damage(class: WindowClass, track_damage: bool) -> bool {
    class != WindowClass::InputOnly && track_damage
}

impl Win {
    /// Whether the window's contents take part in composition.
    pub open spec fn composited(self) -> bool {
        spec_needs_damage(self.class, self.track_damage)
    }

    /// Whether the window holds a pixmap, drawable and texture.
    pub open spec fn bound(self) -> bool {
        self.pixmap is Some && self.glx_pixmap is Some && self.texture is Some
    }

    /// The handles are held together, only while mapped and composited, and
    /// an input-only window has no damage object.
    pub open spec fn wf(self) -> bool {
        &&& self.pixmap is Some == self.glx_pixmap is Some
        &&& self.texture is Some == self.glx_pixmap is Some
        &&& self.glx_pixmap is Some ==> self.mapped && self.composited()
        &&& self.class == WindowClass::InputOnly ==> self.damage is None
    }

    /// The window drawn in a frame: mapped, composited and bound.
    pub open spec fn drawn(self) -> bool {
        self.mapped && self.composited() && self.bound()
    }

    pub open spec fn cleared(self) -> Win {
        Win { pixmap: None, glx_pixmap: None, texture: None, ..self }
    }

    pub open spec fn with_handles(self, pixmap: u32, drawable: u64, texture: u32) -> Win {
        Win { pixmap: Some(pixmap), glx_pixmap: Some(drawable), texture: Some(texture), ..self }
    }

    /// The request that frees the window's handles, if it holds them.
    pub open spec fn release_requests(self) -> Seq<Request> {
        if self.bound() {
            seq![
                Request::Release {
                    pixmap: self.pixmap->0,
                    drawable: self.glx_pixmap->0,
                    texture: self.texture->0,
                },
            ]
        } else {
            seq![]
        }
    }

    /// Reacquiring: a mapped, composited window drops its handles and asks
    /// for new ones; any other window is left alone.
    pub open spec fn reacquired(self) -> (Win, Seq<Request>) {
        if self.mapped && self.composited() {
            (self.cleared(), self.release_requests().push(Request::Acquire { window: self.handle }))
        } else {
            (self, seq![])
        }
    }

    pub open spec fn spec_new_raw(
        handle: u32,
        x: i16,
        y: i16,
        width: u16,
        height: u16,
        border_width: u16,
        override_redirect: bool,
        class: WindowClass,
        mapped: bool,
        vao: u32,
        track_damage: bool,
        damage: u32,
    ) -> Win {
        Win {
            rect: Rect { x, y, width, height },
            handle,
            damage: if spec_needs_damage(class, track_damage) { Some(damage) } else { None },
            border_width,
            override_redirect,
            mapped,
            class,
            track_damage,
            pixmap: None,
            glx_pixmap: None,
            texture: None,
            vao,
        }
    }

    pub open spec fn spec_mapped_from(state: MapState) -> bool {
        state != MapState::Unmapped
    }

    pub open spec fn spec_mapped(self, evt: MapNotifyEvent) -> (Win, Seq<Request>) {
        Win { mapped: true, override_redirect: evt.override_redirect, ..self }.reacquired()
    }

    pub open spec fn spec_unmapped(self) -> (Win, Seq<Request>) {
        (Win { mapped: false, ..self }.cleared(), self.release_requests())
    }

    /// Configuring: the position always follows the event; a change of size
    /// reacquires the pixmap before the new size is recorded.
    pub open spec fn spec_configured(self, e: ConfigureNotifyEvent) -> (Win, Seq<Request>) {
        let moved = Win { rect: Rect { x: e.x, y: e.y, ..self.rect }, ..self };
        if self.rect.width != e.width || self.rect.height != e.height {
            let (w, r) = moved.reacquired();
            (Win { rect: Rect { width: e.width, height: e.height, ..w.rect }, ..w }, r)
        } else {
            (moved, seq![])
        }
    }

    pub open spec fn spec_destroy_requests(self) -> Seq<Request> {
        let d = if self.damage is Some {
            seq![Request::DestroyDamage { damage: self.damage->0 }]
        } else {
            seq![]
        };
        d + self.release_requests()
    }

    /// Whether a window of this class, tracked or not for damage, gets a damage object.
    pub fn needs_damage(class: WindowClass, track_damage: bool) -> (r: bool)
        ensures
            r == spec_needs_damage(class, track_damage),
    {
        class != WindowClass::InputOnly && track_damage
    }

    /// The canonical constructor. `damage` is a fresh id that names the
    /// window's damage object; it is kept only when the window gets one.
    pub fn new_raw(
        handle: u32,
        x: i16,
        y: i16,
        width: u16,
        height: u16,
        border_width: u16,
        override_redirect: bool,
        class: WindowClass,
        mapped: bool,
        renderer: &GLRenderer,
        track_damage: bool,
        damage: u32,
    ) -> (r: Win)
        ensures
            r == Win::spec_new_raw(
                handle, x, y, width, height, border_width, override_redirect, class, mapped,
                renderer.desc().vao, track_damage, damage,
            ),
            r.wf(),
    {
        let dmg = if Win::needs_damage(class, track_damage) {
            Some(damage)
        } else {
            None
        };
        Win {
            rect: Rect::new(x, y, width, height),
            handle,
            damage: dmg,
            border_width,
            override_redirect,
            mapped,
            class,
            track_damage,
            pixmap: None,
            glx_pixmap: None,
            texture: None,
            vao: renderer.vao(),
        }
    }

    /// A window as the server describes it: mapped unless its map state is
    /// `Unmapped`.
    pub fn new_handle(
        handle: u32,
        geom: &Geometry,
        attrs: &WinAttributes,
        renderer: &GLRenderer,
        track_damage: bool,
        damage: u32,
    ) -> (r: Win)
        ensures
            r == Win::spec_new_raw(
                handle, geom.x, geom.y, geom.width, geom.height, geom.border_width,
                attrs.override_redirect, attrs.class, Win::spec_mapped_from(attrs.map_state),
                renderer.desc().vao, track_damage, damage,
            ),
            r.wf(),
    {
        let mapped = match attrs.map_state {
            MapState::Unmapped => false,
            MapState::Unviewable | MapState::Viewable => true,
        };
        Win::new_raw(
            handle,
            geom.x,
            geom.y,
            geom.width,
            geom.height,
            geom.border_width,
            attrs.override_redirect,
            attrs.class,
            mapped,
            renderer,
            track_damage,
            damage,
        )
    }

    /// A window from its creation event: geometry from the event, unmapped.
    pub fn new_event(
        evt: &CreateNotifyEvent,
        class: WindowClass,
        renderer: &GLRenderer,
        track_damage: bool,
        damage: u32,
    ) -> (r: Win)
        ensures
            r == Win::spec_new_raw(
                evt.window, evt.x, evt.y, evt.width, evt.height, evt.border_width,
                evt.override_redirect, class, false, renderer.desc().vao, track_damage, damage,
            ),
            r.wf(),
    {
        Win::new_raw(
            evt.window,
            evt.x,
            evt.y,
            evt.width,
            evt.height,
            evt.border_width,
            evt.override_redirect,
            class,
            false,
            renderer,
            track_damage,
            damage,
        )
    }

    /// Marks the window mapped and asks for a fresh backing pixmap.
    pub fn map(&mut self, evt: &MapNotifyEvent, renderer: &GLRenderer) -> (r: Vec<Request>)
        requires
            old(self).wf(),
        ensures
            (*final(self), r@) == old(self).spec_mapped(*evt),
            final(self).wf(),
    {
        self.mapped = true;
        self.override_redirect = evt.override_redirect;
        self.reacquire_pixmap(renderer)
    }

    /// Marks the window unmapped and gives up its handles at once, so that an
    /// unmapped window never holds a pixmap, drawable or texture.
    pub fn unmap(&mut self, renderer: &GLRenderer) -> (r: Vec<Request>)
        requires
            old(self).wf(),
        ensures
            (*final(self), r@) == old(self).spec_unmapped(),
            final(self).wf(),
    {
        let r = self.release_pixmap(renderer);
        self.mapped = false;
        r
    }

    /// Applies a configure event to the window's geometry.
    pub fn configure(&mut self, evt: &ConfigureNotifyEvent, renderer: &GLRenderer) -> (r: Vec<
        Request,
    >)
        requires
            old(self).wf(),
        ensures
            (*final(self), r@) == old(self).spec_configured(*evt),
            final(self).wf(),
    {
        self.rect.x = evt.x;
        self.rect.y = evt.y;
        if self.rect.width != evt.width || self.rect.height != evt.height {
            let r = self.reacquire_pixmap(renderer);
            self.rect.width = evt.width;
            self.rect.height = evt.height;
            r
        } else {
            Vec::new()
        }
    }

    /// What destroying the window asks for: its damage object goes, then its handles.
    pub fn destroy(&mut self, renderer: &GLRenderer) -> (r: Vec<Request>)
        requires
            old(self).wf(),
        ensures
            r@ == old(self).spec_destroy_requests(),
            *final(self) == old(self).cleared(),
    {
        let mut r: Vec<Request> = Vec::new();
        if let Some(d) = self.damage {
            r.push(Request::DestroyDamage { damage: d });
        }
        let mut rel = self.release_pixmap(renderer);
        r.append(&mut rel);
        r
    }

    /// A mapped, composited window drops its handles and asks for new ones.
    pub fn reacquire_pixmap(&mut self, renderer: &GLRenderer) -> (r: Vec<Request>)
        ensures
            (*final(self), r@) == old(self).reacquired(),
    {
        if !(self.mapped && Win::needs_damage(self.class, self.track_damage)) {
            return Vec::new();
        }
        let mut r = self.release_pixmap(renderer);
        r.push(Request::Acquire { window: self.handle });
        r
    }

    /// Gives up the window's handles.
    pub fn release_pixmap(&mut self, renderer: &GLRenderer) -> (r: Vec<Request>)
        ensures
            r@ == old(self).release_requests(),
            *final(self) == old(self).cleared(),
    {
        renderer.release_glx_pixmap(self)
    }
}

} // verus!

verus! {

/// Binding handles to a window, releasing them, and binding new ones leaves
/// the window as a single binding of the new ones would; only the first
/// binding's handles are given back on the way.
pub proof fn lemma_rebind_after_release(
    w: Win,
    pixmap1: u32,
    drawable1: u64,
    texture1: u32,
    pixmap2: u32,
    drawable2: u64,
    texture2: u32,
)
    ensures
        w.with_handles(pixmap1, drawable1, texture1).cleared().with_handles(
            pixmap2,
            drawable2,
            texture2,
        ) == w.with_handles(pixmap2, drawable2, texture2),
        w.with_handles(pixmap1, drawable1, texture1).release_requests() == seq![
            Request::Release { pixmap: pixmap1, drawable: drawable1, texture: texture1 },
        ],
        w.with_handles(pixmap1, drawable1, texture1).cleared().release_requests() == Seq::<
            Request,
        >::empty(),
{
}

} // verus!
