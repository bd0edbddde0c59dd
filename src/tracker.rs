//! The authoritative, stacking-ordered list of top-level windows.
use crate::errors::CompError;
use crate::event::{ConfigureNotifyEvent, Event};
use crate::ewm::{RootHintAtoms, RootWindowHintCodes};
use crate::gl_renderer::GLRenderer;
use crate::win::{mapped_of, spec_needs_damage, Geometry, Request, Win, WinAttributes};
use vstd::prelude::*;

verus! {

pub open spec fn has_window(wins: Seq<Win>, id: u32) -> bool {
    exists|i: int| 0 <= i < wins.len() && #[trigger] wins[i].handle == id
}

/// The index of the window with id `id` (meaningful when `has_window`).
pub open spec fn pos_of(wins: Seq<Win>, id: u32) -> int {
    choose|i: int| 0 <= i < wins.len() && #[trigger] wins[i].handle == id
}

pub open spec fn ids_unique(wins: Seq<Win>) -> bool {
    forall|i: int, j: int|
        0 <= i < wins.len() && 0 <= j < wins.len() && i != j ==> #[trigger] wins[i].handle
            != #[trigger] wins[j].handle
}

/// The window ids, bottom to top.
pub open spec fn stack_ids(wins: Seq<Win>) -> Seq<u32> {
    wins.map_values(|w: Win| w.handle)
}

/// Index 0 holds the root sentinel, which is never composited; ids are
/// distinct and never 0 (the protocol's `None`); every window is well formed.
pub open spec fn wins_wf(wins: Seq<Win>, root: u32) -> bool {
    &&& wins.len() >= 1
    &&& wins[0].handle == root
    &&& !wins[0].track_damage
    &&& ids_unique(wins)
    &&& forall|i: int| 0 <= i < wins.len() ==> (#[trigger] wins[i]).wf() && wins[i].handle != 0
}

/// The id of the sibling directly below position `p` of the children
/// range, or 0 at its bottom.
pub open spec fn below_of(wins: Seq<Win>, p: int) -> u32 {
    if p <= 1 {
        0
    } else {
        wins[p - 1].handle
    }
}

pub open spec fn needs_restack(wins: Seq<Win>, p: int, above: u32) -> bool {
    p >= 1 && below_of(wins, p) != above
}

/// Moves the child at `p` directly above the window `above`, or to the
/// bottom of the children range when `above` is 0.
pub open spec fn restacked(wins: Seq<Win>, p: int, above: u32) -> Seq<Win> {
    if needs_restack(wins, p, above) {
        let rest = wins.remove(p);
        let at = if above == 0 {
            1
        } else {
            pos_of(rest, above) + 1
        };
        rest.insert(at, wins[p])
    } else {
        wins
    }
}

pub open spec fn sibling_missing(wins: Seq<Win>, p: int, above: u32) -> bool {
    needs_restack(wins, p, above) && above != 0 && !has_window(wins.remove(p), above)
}

/// The effect of a configure event on the window at `p`.
pub open spec fn configure_step(wins: Seq<Win>, p: int, e: ConfigureNotifyEvent) -> (
    Seq<Win>,
    Seq<Request>,
) {
    let (w, r) = wins[p].spec_configured(e);
    (restacked(wins.update(p, w), p, e.above_sibling), r)
}

/// How an event is judged before it is applied.
#[derive(Debug, Clone, Copy, PartialEq, Eq)]
pub enum EventCheck {
    Accepted,
    /// The event names an unknown window.
    Untracked(u32),
    /// A configure event names an unknown sibling.
    SiblingMissing(u32),
    /// The event contradicts the tracker's state (reported as `CompError::Str`).
    Rejected,
}

pub open spec fn check_event(wins: Seq<Win>, root: u32, atoms: RootHintAtoms, ev: Event) -> EventCheck {
    match ev {
        Event::CreateNotify { event, .. } => {
            if event.window == 0 || has_window(wins, event.window) {
                EventCheck::Rejected
            } else {
                EventCheck::Accepted
            }
        },
        Event::MapNotify(e) => {
            if has_window(wins, e.window) {
                EventCheck::Accepted
            } else {
                EventCheck::Untracked(e.window)
            }
        },
        Event::UnmapNotify(e) => {
            if has_window(wins, e.window) {
                EventCheck::Accepted
            } else {
                EventCheck::Untracked(e.window)
            }
        },
        Event::ConfigureNotify(e) => {
            if !has_window(wins, e.window) {
                EventCheck::Untracked(e.window)
            } else if sibling_missing(wins, pos_of(wins, e.window), e.above_sibling) {
                EventCheck::SiblingMissing(e.above_sibling)
            } else {
                EventCheck::Accepted
            }
        },
        Event::DestroyNotify(e) => {
            if !has_window(wins, e.window) {
                EventCheck::Untracked(e.window)
            } else if pos_of(wins, e.window) == 0 {
                EventCheck::Rejected
            } else {
                EventCheck::Accepted
            }
        },
        Event::PropertyNotify(e) => {
            if atoms.spec_hint_of(e.atom) is Some && e.window != root {
                EventCheck::Rejected
            } else {
                EventCheck::Accepted
            }
        },
        _ => EventCheck::Accepted,
    }
}

/// The windows and requests after an accepted event.
pub open spec fn step(
    wins: Seq<Win>,
    root: u32,
    region: u32,
    atoms: RootHintAtoms,
    vao: u32,
    ev: Event,
) -> (Seq<Win>, Seq<Request>) {
    match ev {
        Event::CreateNotify { event: e, class, damage } => {
            let w = Win::spec_new_raw(
                e.window,
                e.x,
                e.y,
                e.width,
                e.height,
                e.border_width,
                e.override_redirect,
                class,
                false,
                vao,
                true,
                damage,
            );
            let r = if spec_needs_damage(class, true) {
                seq![Request::TrackDamage { window: e.window, damage }]
            } else {
                seq![]
            };
            (wins.push(w), r)
        },
        Event::MapNotify(e) => {
            let p = pos_of(wins, e.window);
            let (w, r) = wins[p].spec_mapped(e);
            (wins.update(p, w), r)
        },
        Event::UnmapNotify(e) => {
            let p = pos_of(wins, e.window);
            let (w, r) = wins[p].spec_unmapped();
            (wins.update(p, w), r)
        },
        Event::ConfigureNotify(e) => configure_step(wins, pos_of(wins, e.window), e),
        Event::DestroyNotify(e) => {
            let p = pos_of(wins, e.window);
            (wins.remove(p), wins[p].spec_destroy_requests())
        },
        Event::PropertyNotify(e) => {
            if atoms.spec_hint_of(e.atom) == Some(RootWindowHintCodes::_NET_CLIENT_LIST_STACKING) {
                (
                    wins,
                    seq![
                        Request::FetchStacking {
                            window: root,
                            atom: e.atom,
                            length: wins.len() as u32,
                        },
                    ],
                )
            } else {
                (wins, seq![])
            }
        },
        Event::DamageNotify(e) => (wins, seq![Request::SubtractDamage { damage: e.damage, region }]),
        Event::Other => (wins, seq![]),
    }
}

/// What `WinTracker::process_event` does with an event: an accepted event
/// takes the windows from `old` to `new` and returns the requests of
/// `step`; a refused one leaves them as they are and reports the error.
pub open spec fn event_outcome(
    old: Seq<Win>,
    root: u32,
    region: u32,
    atoms: RootHintAtoms,
    vao: u32,
    ev: Event,
    new: Seq<Win>,
    r: Result<Vec<Request>, CompError>,
) -> bool {
    match check_event(old, root, atoms, ev) {
        EventCheck::Accepted => r matches Ok(v) && (new, v@) == step(old, root, region, atoms, vao, ev),
        EventCheck::Untracked(id) => r == Err::<Vec<Request>, CompError>(
            CompError::UntrackedWindow(id),
        ) && new == old,
        EventCheck::SiblingMissing(id) => r == Err::<Vec<Request>, CompError>(
            CompError::SiblingNotFound(id),
        ) && new == old,
        EventCheck::Rejected => (r matches Err(e) && e is Str) && new == old,
    }
}

/// What start-up asks for on one window: its damage object, and its
/// handles when it is already mapped.
pub open spec fn win_startup_requests(w: Win) -> Seq<Request> {
    let d = if w.damage is Some {
        seq![Request::TrackDamage { window: w.handle, damage: w.damage->0 }]
    } else {
        seq![]
    };
    let a = if w.mapped && w.composited() && !w.bound() {
        seq![Request::Acquire { window: w.handle }]
    } else {
        seq![]
    };
    d + a
}

pub open spec fn startup_requests_of(ws: Seq<Win>) -> Seq<Request>
    decreases ws.len(),
{
    if ws.len() == 0 {
        seq![]
    } else {
        startup_requests_of(ws.drop_last()) + win_startup_requests(ws.last())
    }
}

/// Within distinct ids, the window at `i` is the one `pos_of` finds.
pub proof fn lemma_pos_of_unique(wins: Seq<Win>, i: int)
    requires
        ids_unique(wins),
        0 <= i < wins.len(),
    ensures
        has_window(wins, wins[i].handle),
        pos_of(wins, wins[i].handle) == i,
{
    assert(wins[i].handle == wins[i].handle);
}

pub(crate) proof fn lemma_update_wf(wins: Seq<Win>, root: u32, p: int, w: Win)
    requires
        wins_wf(wins, root),
        0 <= p < wins.len(),
        w.wf(),
        w.handle == wins[p].handle,
        p == 0 ==> !w.track_damage,
    ensures
        wins_wf(wins.update(p, w), root),
{
    let u = wins.update(p, w);
    assert forall|i: int, j: int|
        0 <= i < u.len() && 0 <= j < u.len() && i != j implies #[trigger] u[i].handle
            != #[trigger] u[j].handle by {
        assert(u[i].handle == wins[i].handle);
        assert(u[j].handle == wins[j].handle);
    }
    assert forall|i: int| 0 <= i < u.len() implies (#[trigger] u[i]).wf() && u[i].handle != 0 by {
        if i != p {
            assert(u[i] == wins[i]);
        }
    }
}

pub(crate) proof fn lemma_remove_wf(wins: Seq<Win>, root: u32, p: int)
    requires
        wins_wf(wins, root),
        1 <= p < wins.len(),
    ensures
        wins_wf(wins.remove(p), root),
        forall|k: int| 0 <= k < wins.len() && k != p ==> has_window(wins.remove(p), #[trigger] wins[k].handle),
        !has_window(wins.remove(p), wins[p].handle),
        forall|id: u32| has_window(wins.remove(p), id) ==> has_window(wins, id),
{
    let r = wins.remove(p);
    assert forall|i: int| 0 <= i < r.len() implies #[trigger] r[i] == if i < p {
        wins[i]
    } else {
        wins[i + 1]
    } by {}
    assert forall|i: int, j: int|
        0 <= i < r.len() && 0 <= j < r.len() && i != j implies #[trigger] r[i].handle
            != #[trigger] r[j].handle by {
        let a = if i < p { i } else { i + 1 };
        let b = if j < p { j } else { j + 1 };
        assert(r[i] == wins[a]);
        assert(r[j] == wins[b]);
    }
    assert forall|i: int| 0 <= i < r.len() implies (#[trigger] r[i]).wf() && r[i].handle != 0 by {
        let a = if i < p { i } else { i + 1 };
        assert(r[i] == wins[a]);
    }
    assert forall|k: int| 0 <= k < wins.len() && k != p implies has_window(r, #[trigger] wins[k].handle) by {
        let i = if k < p { k } else { k - 1 };
        assert(r[i] == wins[k]);
    }
    if has_window(r, wins[p].handle) {
        let i = choose|i: int| 0 <= i < r.len() && #[trigger] r[i].handle == wins[p].handle;
        let a = if i < p { i } else { i + 1 };
        assert(r[i] == wins[a]);
    }
    assert forall|id: u32| has_window(r, id) implies has_window(wins, id) by {
        let i = choose|i: int| 0 <= i < r.len() && #[trigger] r[i].handle == id;
        let a = if i < p { i } else { i + 1 };
        assert(r[i] == wins[a]);
    }
}

pub(crate) proof fn lemma_push_wf(wins: Seq<Win>, root: u32, w: Win)
    requires
        wins_wf(wins, root),
        w.wf(),
        w.handle != 0,
        !has_window(wins, w.handle),
    ensures
        wins_wf(wins.push(w), root),
{
    let u = wins.push(w);
    assert forall|i: int, j: int|
        0 <= i < u.len() && 0 <= j < u.len() && i != j implies #[trigger] u[i].handle
            != #[trigger] u[j].handle by {
        if i < wins.len() && j < wins.len() {
            assert(u[i] == wins[i] && u[j] == wins[j]);
        } else if i < wins.len() {
            assert(u[i] == wins[i]);
            assert(wins[i].handle != w.handle);
        } else {
            assert(u[j] == wins[j]);
            assert(wins[j].handle != w.handle);
        }
    }
    assert forall|i: int| 0 <= i < u.len() implies (#[trigger] u[i]).wf() && u[i].handle != 0 by {
        if i < wins.len() {
            assert(u[i] == wins[i]);
        }
    }
}

/// Inserting a window whose id is new keeps the sequence well formed.
pub(crate) proof fn lemma_insert_wf(wins: Seq<Win>, root: u32, at: int, w: Win)
    requires
        wins_wf(wins, root),
        1 <= at <= wins.len(),
        w.wf(),
        w.handle != 0,
        !has_window(wins, w.handle),
    ensures
        wins_wf(wins.insert(at, w), root),
{
    let u = wins.insert(at, w);
    assert forall|i: int| 0 <= i < u.len() implies #[trigger] u[i] == if i < at {
        wins[i]
    } else if i == at {
        w
    } else {
        wins[i - 1]
    } by {}
    assert forall|i: int, j: int|
        0 <= i < u.len() && 0 <= j < u.len() && i != j implies #[trigger] u[i].handle
            != #[trigger] u[j].handle by {
        if i != at && j != at {
            let a = if i < at { i } else { i - 1 };
            let b = if j < at { j } else { j - 1 };
            assert(u[i] == wins[a] && u[j] == wins[b]);
        } else if i == at {
            let b = if j < at { j } else { j - 1 };
            assert(u[j] == wins[b]);
            assert(wins[b].handle != w.handle);
        } else {
            let a = if i < at { i } else { i - 1 };
            assert(u[i] == wins[a]);
            assert(wins[a].handle != w.handle);
        }
    }
    assert forall|i: int| 0 <= i < u.len() implies (#[trigger] u[i]).wf() && u[i].handle != 0 by {
        if i != at {
            let a = if i < at { i } else { i - 1 };
            assert(u[i] == wins[a]);
        }
    }
}

pub(crate) proof fn lemma_restack_wf(wins: Seq<Win>, root: u32, p: int, above: u32)
    requires
        wins_wf(wins, root),
        1 <= p < wins.len(),
        !sibling_missing(wins, p, above),
    ensures
        wins_wf(restacked(wins, p, above), root),
{
    if needs_restack(wins, p, above) {
        let rest = wins.remove(p);
        lemma_remove_wf(wins, root, p);
        if above != 0 {
            let q = pos_of(rest, above);
            assert(0 <= q < rest.len());
        }
        lemma_insert_wf(rest, root, if above == 0 { 1 } else { pos_of(rest, above) + 1 }, wins[p]);
    }
}

/// Finds the position of the window with id `id`.
fn position_of(wins: &Vec<Win>, id: u32) -> (r: Option<usize>)
    ensures
        match r {
            Some(i) => i < wins@.len() && wins@[i as int].handle == id,
            None => !has_window(wins@, id),
        },
{
    let mut i: usize = 0;
    while i < wins.len()
        invariant
            i <= wins@.len(),
            forall|k: int| 0 <= k < i ==> wins@[k].handle != id,
        decreases wins@.len() - i,
    {
        if wins[i].handle == id {
            return Some(i);
        }
        i = i + 1;
    }
    None
}

} // verus!

verus! {

/// A child of the root as the server describes it at start-up, with a
/// fresh id for its damage object.
#[derive(Debug, Clone, Copy, PartialEq, Eq)]
pub struct WindowInfo {
    pub handle: u32,
    pub geometry: Geometry,
    pub attributes: WinAttributes,
    pub damage: u32,
}

pub open spec fn startup_win(info: WindowInfo, overlay: u32, vao: u32) -> Win {
    Win::spec_new_raw(
        info.handle,
        info.geometry.x,
        info.geometry.y,
        info.geometry.width,
        info.geometry.height,
        info.geometry.border_width,
        info.attributes.override_redirect,
        info.attributes.class,
        Win::spec_mapped_from(info.attributes.map_state),
        vao,
        info.handle != overlay,
        info.damage,
    )
}

pub open spec fn root_win(root: u32, geom: Geometry, attrs: WinAttributes, vao: u32) -> Win {
    Win::spec_new_raw(
        root,
        geom.x,
        geom.y,
        geom.width,
        geom.height,
        geom.border_width,
        attrs.override_redirect,
        attrs.class,
        Win::spec_mapped_from(attrs.map_state),
        vao,
        false,
        0,
    )
}

/// The root and the children have ids that are not 0 and all distinct.
pub open spec fn startup_ids_valid(root: u32, children: Seq<WindowInfo>) -> bool {
    &&& root != 0
    &&& forall|i: int|
        0 <= i < children.len() ==> (#[trigger] children[i]).handle != 0 && children[i].handle
            != root
    &&& forall|i: int, j: int|
        0 <= i < children.len() && 0 <= j < children.len() && i != j ==> (#[trigger] children[i]).handle
            != (#[trigger] children[j]).handle
}

pub open spec fn startup_wins(
    root: u32,
    geom: Geometry,
    attrs: WinAttributes,
    children: Seq<WindowInfo>,
    overlay: u32,
    vao: u32,
) -> Seq<Win> {
    seq![root_win(root, geom, attrs, vao)] + children.map_values(
        |c: WindowInfo| startup_win(c, overlay, vao),
    )
}

/// The single owner of all tracked windows, kept in stacking order: index 0
/// is the root sentinel, then the children of the root from bottom to top.
#[derive(Debug)]
pub struct WinTracker {
    root: u32,
    overlay: u32,
    wins: Vec<Win>,
    region: u32,
    atoms: RootHintAtoms,
}

impl WinTracker {
    pub closed spec fn windows(&self) -> Seq<Win> {
        self.wins@
    }

    pub closed spec fn spec_root(&self) -> u32 {
        self.root
    }

    pub closed spec fn spec_overlay(&self) -> u32 {
        self.overlay
    }

    pub closed spec fn spec_region(&self) -> u32 {
        self.region
    }

    pub closed spec fn spec_atoms(&self) -> RootHintAtoms {
        self.atoms
    }

    pub open spec fn wf(&self) -> bool {
        wins_wf(self.windows(), self.spec_root())
    }

    /// Everything but the windows is as in `other`.
    pub open spec fn same_setup(&self, other: &WinTracker) -> bool {
        &&& self.spec_root() == other.spec_root()
        &&& self.spec_overlay() == other.spec_overlay()
        &&& self.spec_region() == other.spec_region()
        &&& self.spec_atoms() == other.spec_atoms()
    }

    /// Builds the tracker from the root and its children (bottom to top) as
    /// the server reports them. The overlay is tracked but never composited.
    /// `region` is an empty region that damage is drained into.
    pub fn new(
        root: u32,
        overlay: u32,
        region: u32,
        atoms: RootHintAtoms,
        root_geometry: &Geometry,
        root_attributes: &WinAttributes,
        children: &Vec<WindowInfo>,
        renderer: &GLRenderer,
    ) -> (r: Result<WinTracker, CompError>)
        ensures
            r is Ok <==> startup_ids_valid(root, children@),
            r matches Ok(t) ==> {
                &&& t.wf()
                &&& t.windows() == startup_wins(
                    root,
                    *root_geometry,
                    *root_attributes,
                    children@,
                    overlay,
                    renderer.desc().vao,
                )
                &&& t.spec_root() == root
                &&& t.spec_overlay() == overlay
                &&& t.spec_region() == region
                &&& t.spec_atoms() == atoms
            },
            r matches Err(e) ==> e is Str,
    {
        if root == 0 {
            return Err(CompError::Str("the root window id is 0".to_owned()));
        }
        let ghost vao = renderer.desc().vao;
        let ghost f = |c: WindowInfo| startup_win(c, overlay, vao);
        let mut wins: Vec<Win> = Vec::new();
        wins.push(Win::new_handle(root, root_geometry, root_attributes, renderer, false, 0));
        let mut i: usize = 0;
        while i < children.len()
            invariant
                i <= children@.len(),
                wins@ == seq![root_win(root, *root_geometry, *root_attributes, vao)]
                    + children@.take(i as int).map_values(f),
                wins_wf(wins@, root),
                startup_ids_valid(root, children@.take(i as int)),
                vao == renderer.desc().vao,
                f == (|c: WindowInfo| startup_win(c, overlay, vao)),
            decreases children@.len() - i,
        {
            let c = children[i];
            proof {
                assert forall|k: int| 1 <= k < wins@.len() implies #[trigger] wins@[k].handle
                    == children@[k - 1].handle by {
                    assert(wins@[k] == f(children@.take(i as int)[k - 1]));
                }
            }
            if c.handle == 0 {
                return Err(CompError::Str("a child window id is 0".to_owned()));
            }
            match position_of(&wins, c.handle) {
                Some(k) => {
                    proof {
                        if k >= 1 {
                            assert(children@[k - 1].handle == children@[i as int].handle);
                        }
                    }
                    return Err(CompError::Str("a window id is listed twice".to_owned()));
                },
                None => {},
            }
            let w = Win::new_handle(
                c.handle,
                &c.geometry,
                &c.attributes,
                renderer,
                c.handle != overlay,
                c.damage,
            );
            proof {
                lemma_push_wf(wins@, root, w);
                assert(children@.take(i + 1) == children@.take(i as int).push(c));
                assert(children@.take(i + 1).map_values(f) == children@.take(i as int).map_values(
                    f,
                ).push(w));
                assert forall|a: int| 0 <= a <= i implies (#[trigger] children@.take(i + 1)[a]).handle
                    != root by {
                    if a < i {
                        assert(children@.take(i + 1)[a] == children@.take(i as int)[a]);
                    } else {
                        assert(wins@[0].handle == root);
                    }
                }
                assert forall|a: int, b: int|
                    0 <= a <= i && 0 <= b <= i && a != b implies (#[trigger] children@.take(
                        i + 1,
                    )[a]).handle != (#[trigger] children@.take(i + 1)[b]).handle by {
                    if a < i && b < i {
                        assert(children@.take(i + 1)[a] == children@.take(i as int)[a]);
                        assert(children@.take(i + 1)[b] == children@.take(i as int)[b]);
                    } else if a == i {
                        assert(wins@[b + 1].handle == children@[b].handle);
                    } else {
                        assert(wins@[a + 1].handle == children@[a].handle);
                    }
                }
            }
            wins.push(w);
            i = i + 1;
        }
        assert(children@.take(children@.len() as int) == children@);
        Ok(WinTracker { root, overlay, wins, region, atoms })
    }

    /// Applies a configure event to the window at `win_pos`: its geometry
    /// follows the event, and a child moves directly above `above_sibling`
    /// (to the bottom when that is 0). Nothing changes when the sibling is
    /// unknown.
    pub fn configure(
        &mut self,
        win_pos: usize,
        evt: &ConfigureNotifyEvent,
        renderer: &GLRenderer,
    ) -> (r: Result<Vec<Request>, CompError>)
        requires
            old(self).wf(),
            win_pos < old(self).windows().len(),
            old(self).windows()[win_pos as int].handle == evt.window,
        ensures
            final(self).wf(),
            final(self).same_setup(old(self)),
            sibling_missing(old(self).windows(), win_pos as int, evt.above_sibling) ==> r == Err::<
                Vec<Request>,
                CompError,
            >(CompError::SiblingNotFound(evt.above_sibling)) && final(self).windows() == old(
                self,
            ).windows(),
            !sibling_missing(old(self).windows(), win_pos as int, evt.above_sibling) ==> (r matches Ok(
                v,
            ) && (final(self).windows(), v@) == configure_step(
                old(self).windows(),
                win_pos as int,
                *evt,
            )),
    {
        let ghost wins0 = self.wins@;
        let above = evt.above_sibling;
        let below: u32 = if win_pos <= 1 {
            0
        } else {
            self.wins[win_pos - 1].handle
        };
        let need = win_pos >= 1 && below != above;
        proof {
            if win_pos >= 1 {
                lemma_remove_wf(wins0, self.root, win_pos as int);
            }
        }
        let mut sib: usize = 0;
        if need && above != 0 {
            match position_of(&self.wins, above) {
                None => {
                    return Err(CompError::SiblingNotFound(above));
                },
                Some(q) => {
                    if q == win_pos {
                        return Err(CompError::SiblingNotFound(above));
                    }
                    sib = if q < win_pos {
                        q
                    } else {
                        q - 1
                    };
                    proof {
                        let rest = wins0.remove(win_pos as int);
                        assert(rest[sib as int] == wins0[q as int]);
                        lemma_pos_of_unique(rest, sib as int);
                    }
                },
            }
        }
        let mut w = self.wins[win_pos];
        let r = w.configure(evt, renderer);
        proof {
            lemma_update_wf(wins0, self.root, win_pos as int, w);
        }
        self.wins.set(win_pos, w);
        let ghost wins1 = self.wins@;
        proof {
            if win_pos >= 1 {
                assert(wins1.remove(win_pos as int) =~= wins0.remove(win_pos as int));
                if win_pos >= 2 {
                    assert(wins1[win_pos - 1] == wins0[win_pos - 1]);
                }
                lemma_restack_wf(wins1, self.root, win_pos as int, above);
            }
        }
        if need {
            let moved = self.wins.remove(win_pos);
            let at: usize = if above == 0 {
                1
            } else {
                sib + 1
            };
            self.wins.insert(at, moved);
        }
        Ok(r)
    }

    /// Applies one event (or none) to the tracked windows and returns the
    /// outside work it calls for, in order.
    pub fn process_event(&mut self, event: &Option<Event>, renderer: &GLRenderer) -> (r: Result<
        Vec<Request>,
        CompError,
    >)
        requires
            old(self).wf(),
        ensures
            final(self).wf(),
            final(self).same_setup(old(self)),
            match *event {
                None => (r matches Ok(v) && v@ == Seq::<Request>::empty()) && final(self).windows()
                    == old(self).windows(),
                Some(ev) => event_outcome(
                    old(self).windows(),
                    old(self).spec_root(),
                    old(self).spec_region(),
                    old(self).spec_atoms(),
                    renderer.desc().vao,
                    ev,
                    final(self).windows(),
                    r,
                ),
            },
    {
        let ghost wins0 = self.wins@;
        let ev = match event {
            None => {
                return Ok(Vec::new());
            },
            Some(ev) => *ev,
        };
        match ev {
            Event::CreateNotify { event: e, class, damage } => {
                if e.window == 0 {
                    return Err(CompError::Str("created window has id 0".to_owned()));
                }
                if position_of(&self.wins, e.window).is_some() {
                    return Err(CompError::Str("created window is already tracked".to_owned()));
                }
                let w = Win::new_event(&e, class, renderer, true, damage);
                proof {
                    lemma_push_wf(wins0, self.root, w);
                }
                self.wins.push(w);
                let mut r: Vec<Request> = Vec::new();
                if Win::needs_damage(class, true) {
                    r.push(Request::TrackDamage { window: e.window, damage });
                }
                Ok(r)
            },
            Event::MapNotify(e) => {
                match position_of(&self.wins, e.window) {
                    None => Err(CompError::UntrackedWindow(e.window)),
                    Some(p) => {
                        proof {
                            lemma_pos_of_unique(wins0, p as int);
                        }
                        let mut w = self.wins[p];
                        let r = w.map(&e, renderer);
                        proof {
                            lemma_update_wf(wins0, self.root, p as int, w);
                        }
                        self.wins.set(p, w);
                        Ok(r)
                    },
                }
            },
            Event::UnmapNotify(e) => {
                match position_of(&self.wins, e.window) {
                    None => Err(CompError::UntrackedWindow(e.window)),
                    Some(p) => {
                        proof {
                            lemma_pos_of_unique(wins0, p as int);
                        }
                        let mut w = self.wins[p];
                        let r = w.unmap(renderer);
                        proof {
                            lemma_update_wf(wins0, self.root, p as int, w);
                        }
                        self.wins.set(p, w);
                        Ok(r)
                    },
                }
            },
            Event::ConfigureNotify(e) => {
                match position_of(&self.wins, e.window) {
                    None => Err(CompError::UntrackedWindow(e.window)),
                    Some(p) => {
                        proof {
                            lemma_pos_of_unique(wins0, p as int);
                        }
                        self.configure(p, &e, renderer)
                    },
                }
            },
            Event::DestroyNotify(e) => {
                match position_of(&self.wins, e.window) {
                    None => Err(CompError::UntrackedWindow(e.window)),
                    Some(p) => {
                        proof {
                            lemma_pos_of_unique(wins0, p as int);
                        }
                        if p == 0 {
                            return Err(CompError::Str("the root window was destroyed".to_owned()));
                        }
                        proof {
                            lemma_remove_wf(wins0, self.root, p as int);
                        }
                        let mut w = self.wins.remove(p);
                        let r = w.destroy(renderer);
                        Ok(r)
                    },
                }
            },
            Event::PropertyNotify(e) => {
                match self.atoms.hint_of(e.atom) {
                    None => Ok(Vec::new()),
                    Some(h) => {
                        if e.window != self.root {
                            return Err(
                                CompError::Str(
                                    "root window hint set on another window".to_owned(),
                                ),
                            );
                        }
                        let mut r: Vec<Request> = Vec::new();
                        match h {
                            RootWindowHintCodes::_NET_CLIENT_LIST_STACKING => {
                                r.push(
                                    Request::FetchStacking {
                                        window: self.root,
                                        atom: e.atom,
                                        length: self.wins.len() as u32,
                                    },
                                );
                            },
                            RootWindowHintCodes::_NET_ACTIVE_WINDOW => {},
                        }
                        Ok(r)
                    },
                }
            },
            Event::DamageNotify(e) => {
                let mut r: Vec<Request> = Vec::new();
                r.push(Request::SubtractDamage { damage: e.damage, region: self.region });
                Ok(r)
            },
            Event::Other => Ok(Vec::new()),
        }
    }

    /// The tracked windows in stacking order, the root sentinel first.
    pub fn wins(&self) -> (r: &Vec<Win>)
        ensures
            r@ == self.windows(),
    {
        &self.wins
    }

    /// The root sentinel.
    pub fn get_composite_win(&self) -> (r: &Win)
        requires
            self.wf(),
        ensures
            *r == self.windows()[0],
    {
        &self.wins[0]
    }

    /// The mapped windows, bottom to top.
    pub fn mapped_wins(&self) -> (r: Vec<Win>)
        ensures
            r@ == mapped_of(self.windows()),
    {
        let mut out: Vec<Win> = Vec::new();
        let mut i: usize = 0;
        while i < self.wins.len()
            invariant
                i <= self.wins@.len(),
                out@ == mapped_of(self.wins@.take(i as int)),
            decreases self.wins@.len() - i,
        {
            let w = self.wins[i];
            proof {
                assert(self.wins@.take(i + 1) == self.wins@.take(i as int).push(w));
                self.wins@.take(i as int).lemma_filter_push(w, |w: Win| w.mapped);
            }
            if w.mapped {
                out.push(w);
            }
            i = i + 1;
        }
        proof {
            assert(self.wins@.take(self.wins@.len() as int) == self.wins@);
        }
        out
    }

    /// The outside work that the windows found at start-up need, bottom to
    /// top: damage objects, and handles for those already mapped.
    pub fn startup_requests(&self) -> (r: Vec<Request>)
        ensures
            r@ == startup_requests_of(self.windows()),
    {
        let mut out: Vec<Request> = Vec::new();
        let mut i: usize = 0;
        while i < self.wins.len()
            invariant
                i <= self.wins@.len(),
                out@ == startup_requests_of(self.wins@.take(i as int)),
            decreases self.wins@.len() - i,
        {
            let w = self.wins[i];
            let ghost before = out@;
            proof {
                assert(self.wins@.take(i + 1).drop_last() == self.wins@.take(i as int));
            }
            if let Some(d) = w.damage {
                out.push(Request::TrackDamage { window: w.handle, damage: d });
            }
            let bound = w.pixmap.is_some() && w.glx_pixmap.is_some() && w.texture.is_some();
            if w.mapped && Win::needs_damage(w.class, w.track_damage) && !bound {
                out.push(Request::Acquire { window: w.handle });
            }
            assert(out@ =~= before + win_startup_requests(w));
            i = i + 1;
        }
        proof {
            assert(self.wins@.take(self.wins@.len() as int) == self.wins@);
        }
        out
    }

    /// Hands a window the pixmap, GL drawable and texture made for it after
    /// an `Acquire` request, and returns the release of any it held. Only a
    /// mapped, composited window takes them.
    pub fn attach(
        &mut self,
        window: u32,
        pixmap: u32,
        drawable: u64,
        texture: u32,
        renderer: &GLRenderer,
    ) -> (r: Result<Vec<Request>, CompError>)
        requires
            old(self).wf(),
        ensures
            final(self).wf(),
            final(self).same_setup(old(self)),
            !has_window(old(self).windows(), window) ==> r == Err::<Vec<Request>, CompError>(
                CompError::UntrackedWindow(window),
            ) && final(self).windows() == old(self).windows(),
            has_window(old(self).windows(), window) ==> {
                let p = pos_of(old(self).windows(), window);
                let w = old(self).windows()[p];
                if w.mapped && w.composited() {
                    &&& r matches Ok(v)
                    &&& v@ == w.release_requests()
                    &&& final(self).windows() == old(self).windows().update(
                        p,
                        w.with_handles(pixmap, drawable, texture),
                    )
                } else {
                    (r matches Err(e) && e is Str) && final(self).windows() == old(self).windows()
                }
            },
    {
        let ghost wins0 = self.wins@;
        match position_of(&self.wins, window) {
            None => Err(CompError::UntrackedWindow(window)),
            Some(p) => {
                proof {
                    lemma_pos_of_unique(wins0, p as int);
                }
                let mut w = self.wins[p];
                if !(w.mapped && Win::needs_damage(w.class, w.track_damage)) {
                    return Err(
                        CompError::Str("handles offered to a window that is not drawn".to_owned()),
                    );
                }
                let r = renderer.reacquire_glx_pixmap(&mut w, pixmap, drawable, texture);
                proof {
                    lemma_update_wf(wins0, self.root, p as int, w);
                }
                self.wins.set(p, w);
                Ok(r)
            },
        }
    }
}

} // verus!
