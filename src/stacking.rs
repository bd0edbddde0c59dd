//! Laws of the tracker: what its invariant guarantees, where configure
//! events put windows, and how the tracked children follow the server's
//! stacking order.
use crate::event::{ConfigureNotifyEvent, DamageNotifyEvent, DestroyNotifyEvent, Event};
use crate::ewm::RootHintAtoms;
use crate::tracker::{
    check_event, has_window, lemma_pos_of_unique, lemma_push_wf, lemma_remove_wf,
    lemma_restack_wf, lemma_update_wf, needs_restack, pos_of, restacked, sibling_missing,
    stack_ids, step, wins_wf, EventCheck, WinTracker,
};
use crate::win::{Request, Win, WindowClass};
use vstd::prelude::*;

verus! {

/// The window at `q` sits directly above the window `above`, or at the
/// bottom of the children range when `above` is 0.
pub open spec fn sits_above(ws: Seq<Win>, q: int, above: u32) -> bool {
    if above == 0 {
        q == 1
    } else {
        q >= 1 && ws[q - 1].handle == above
    }
}

/// In a well-formed tracker, a window that is not mapped holds no pixmap,
/// GL drawable or texture (handles are released when a window unmaps), and
/// an input-only window never holds a pixmap or drawable.
pub proof fn lemma_unmapped_hold_no_handles(t: WinTracker)
    requires
        t.wf(),
    ensures
        forall|i: int|
            0 <= i < t.windows().len() && !(#[trigger] t.windows()[i]).mapped ==> {
                &&& t.windows()[i].pixmap is None
                &&& t.windows()[i].glx_pixmap is None
                &&& t.windows()[i].texture is None
            },
        forall|i: int|
            0 <= i < t.windows().len() && (#[trigger] t.windows()[i]).class
                == WindowClass::InputOnly ==> {
                &&& t.windows()[i].pixmap is None
                &&& t.windows()[i].glx_pixmap is None
            },
{
    assert forall|i: int| 0 <= i < t.windows().len() implies (#[trigger] t.windows()[i]).wf() by {}
}

/// In a well-formed tracker every window holds a backing pixmap exactly
/// when it holds a GL drawable for it.
pub proof fn lemma_pixmap_iff_drawable(t: WinTracker)
    requires
        t.wf(),
    ensures
        forall|i: int|
            0 <= i < t.windows().len() ==> ((#[trigger] t.windows()[i]).pixmap is Some
                <==> t.windows()[i].glx_pixmap is Some),
{
    assert forall|i: int| 0 <= i < t.windows().len() implies (#[trigger] t.windows()[i]).wf() by {}
}

/// A configure event that keeps the window's size asks for no outside work:
/// in particular it never asks for a new pixmap.
pub proof fn lemma_same_size_configure_requests_nothing(
    wins: Seq<Win>,
    root: u32,
    region: u32,
    atoms: RootHintAtoms,
    vao: u32,
    e: ConfigureNotifyEvent,
)
    requires
        wins_wf(wins, root),
        has_window(wins, e.window),
        wins[pos_of(wins, e.window)].rect.width == e.width,
        wins[pos_of(wins, e.window)].rect.height == e.height,
    ensures
        step(wins, root, region, atoms, vao, Event::ConfigureNotify(e)).1 == Seq::<Request>::empty(),
{
}

/// After an accepted configure event on a child, the child sits directly
/// above `above_sibling`, or at the bottom of the children when that is 0.
pub proof fn lemma_configure_places_above_sibling(
    wins: Seq<Win>,
    root: u32,
    region: u32,
    atoms: RootHintAtoms,
    vao: u32,
    e: ConfigureNotifyEvent,
)
    requires
        wins_wf(wins, root),
        check_event(wins, root, atoms, Event::ConfigureNotify(e)) == EventCheck::Accepted,
        pos_of(wins, e.window) >= 1,
    ensures
        ({
            let ws = step(wins, root, region, atoms, vao, Event::ConfigureNotify(e)).0;
            &&& wins_wf(ws, root)
            &&& has_window(ws, e.window)
            &&& sits_above(ws, pos_of(ws, e.window), e.above_sibling)
        }),
{
    let p = pos_of(wins, e.window);
    let (w, r) = wins[p].spec_configured(e);
    let ws1 = wins.update(p, w);
    assert(wins[p].handle == e.window);
    lemma_update_wf(wins, root, p, w);
    assert(ws1.remove(p) =~= wins.remove(p));
    if p >= 2 {
        assert(ws1[p - 1] == wins[p - 1]);
    }
    lemma_restack_wf(ws1, root, p, e.above_sibling);
    let ws = restacked(ws1, p, e.above_sibling);
    if needs_restack(ws1, p, e.above_sibling) {
        let rest = ws1.remove(p);
        let at = if e.above_sibling == 0 {
            1
        } else {
            pos_of(rest, e.above_sibling) + 1
        };
        assert(ws == rest.insert(at, w));
        assert(ws[at] == w);
        lemma_pos_of_unique(ws, at);
        if e.above_sibling != 0 {
            assert(ws[at - 1] == rest[at - 1]);
        }
    } else {
        assert(ws == ws1);
        assert(ws[p] == w);
        lemma_pos_of_unique(ws, p);
    }
}

/// A child that already sits where `above` asks is not moved.
proof fn lemma_restack_in_place(ws: Seq<Win>, root: u32, q: int, above: u32)
    requires
        wins_wf(ws, root),
        1 <= q < ws.len(),
        sits_above(ws, q, above),
    ensures
        !sibling_missing(ws, q, above),
        restacked(ws, q, above) == ws,
{
    if needs_restack(ws, q, above) {
        assert(q == 1 && above != 0 && ws[0].handle == above);
        let rest = ws.remove(q);
        lemma_remove_wf(ws, root, q);
        assert(rest[0] == ws[0]);
        lemma_pos_of_unique(rest, 0);
        assert(rest.insert(1, ws[q]) =~= ws);
    }
}

/// Applying the same configure event a second time changes nothing and
/// asks for nothing.
pub proof fn lemma_configure_twice_is_noop(
    wins: Seq<Win>,
    root: u32,
    region: u32,
    atoms: RootHintAtoms,
    vao: u32,
    e: ConfigureNotifyEvent,
)
    requires
        wins_wf(wins, root),
        check_event(wins, root, atoms, Event::ConfigureNotify(e)) == EventCheck::Accepted,
    ensures
        ({
            let ws = step(wins, root, region, atoms, vao, Event::ConfigureNotify(e)).0;
            &&& check_event(ws, root, atoms, Event::ConfigureNotify(e)) == EventCheck::Accepted
            &&& step(ws, root, region, atoms, vao, Event::ConfigureNotify(e)) == (
                ws,
                Seq::<Request>::empty(),
            )
        }),
{
    let p = pos_of(wins, e.window);
    let (w, r) = wins[p].spec_configured(e);
    assert(wins[p].handle == e.window);
    let ws1 = wins.update(p, w);
    lemma_update_wf(wins, root, p, w);
    let ws = step(wins, root, region, atoms, vao, Event::ConfigureNotify(e)).0;
    if p >= 1 {
        lemma_configure_places_above_sibling(wins, root, region, atoms, vao, e);
    } else {
        assert(ws == ws1);
        assert(ws[0] == w);
        lemma_pos_of_unique(ws, 0);
    }
    let q = pos_of(ws, e.window);
    assert(ws[q].handle == e.window);
    let (w2, r2) = ws[q].spec_configured(e);
    assert(ws[q].rect == w.rect) by {
        if p >= 1 {
            assert(ws1.remove(p) =~= wins.remove(p));
            if p >= 2 {
                assert(ws1[p - 1] == wins[p - 1]);
            }
            if needs_restack(ws1, p, e.above_sibling) {
                let rest = ws1.remove(p);
                let at = if e.above_sibling == 0 {
                    1
                } else {
                    pos_of(rest, e.above_sibling) + 1
                };
                assert(ws == rest.insert(at, w));
                assert(ws[at] == w);
                lemma_pos_of_unique(ws, at);
            } else {
                assert(ws[p] == w);
                lemma_pos_of_unique(ws, p);
            }
        }
    }
    assert(w2 == ws[q]);
    assert(ws.update(q, w2) =~= ws);
    if q >= 1 {
        lemma_restack_in_place(ws, root, q, e.above_sibling);
    }
}

} // verus!

verus! {

/// The ids of the root's children, bottom to top.
pub open spec fn child_ids(wins: Seq<Win>) -> Seq<u32> {
    stack_ids(wins).skip(1)
}

pub open spec fn id_pos(ids: Seq<u32>, id: u32) -> int {
    choose|i: int| 0 <= i < ids.len() && ids[i] == id
}

/// How the server's bottom-to-top list of the root's children changes with
/// an event: a new window goes on top, a destroyed one leaves, and a
/// configured one moves directly above its sibling (to the bottom for 0).
pub open spec fn server_children(ids: Seq<u32>, ev: Event) -> Seq<u32> {
    match ev {
        Event::CreateNotify { event, .. } => ids.push(event.window),
        Event::DestroyNotify(e) => if ids.contains(e.window) {
            ids.remove(id_pos(ids, e.window))
        } else {
            ids
        },
        Event::ConfigureNotify(e) => if ids.contains(e.window) {
            let rest = ids.remove(id_pos(ids, e.window));
            let at = if e.above_sibling == 0 {
                0
            } else {
                id_pos(rest, e.above_sibling) + 1
            };
            rest.insert(at, e.window)
        } else {
            ids
        },
        _ => ids,
    }
}

proof fn lemma_id_pos_unique(ids: Seq<u32>, k: int)
    requires
        0 <= k < ids.len(),
        forall|i: int, j: int| 0 <= i < ids.len() && 0 <= j < ids.len() && i != j ==> ids[i] != ids[j],
    ensures
        ids.contains(ids[k]),
        id_pos(ids, ids[k]) == k,
{
    assert(ids[k] == ids[k]);
}

proof fn lemma_child_ids(wins: Seq<Win>)
    requires
        wins.len() >= 1,
    ensures
        child_ids(wins).len() == wins.len() - 1,
        forall|i: int| 0 <= i < wins.len() - 1 ==> #[trigger] child_ids(wins)[i] == wins[i + 1].handle,
{
}

proof fn lemma_child_ids_unique(wins: Seq<Win>, root: u32)
    requires
        wins_wf(wins, root),
    ensures
        forall|i: int, j: int|
            0 <= i < child_ids(wins).len() && 0 <= j < child_ids(wins).len() && i != j
                ==> child_ids(wins)[i] != child_ids(wins)[j],
        !child_ids(wins).contains(root),
{
    let c = child_ids(wins);
    lemma_child_ids(wins);
    assert forall|i: int, j: int| 0 <= i < c.len() && 0 <= j < c.len() && i != j implies c[i]
        != c[j] by {
        assert(wins[i + 1].handle != wins[j + 1].handle);
    }
    if c.contains(root) {
        let k = choose|k: int| 0 <= k < c.len() && c[k] == root;
        assert(wins[k + 1].handle == wins[0].handle);
    }
}

/// Where the server puts a configured child among the other children.
pub open spec fn server_restacked(c: Seq<u32>, k: int, above: u32) -> Seq<u32> {
    let rest = c.remove(k);
    let at = if above == 0 {
        0
    } else {
        id_pos(rest, above) + 1
    };
    rest.insert(at, c[k])
}

#[verifier::spinoff_prover]
proof fn lemma_child_ids_restacked(ws: Seq<Win>, root: u32, p: int, above: u32)
    requires
        wins_wf(ws, root),
        1 <= p < ws.len(),
        !sibling_missing(ws, p, above),
        above != root,
    ensures
        child_ids(restacked(ws, p, above)) == server_restacked(child_ids(ws), p - 1, above),
{
    let c = child_ids(ws);
    lemma_child_ids(ws);
    lemma_child_ids_unique(ws, root);
    let rest_c = c.remove(p - 1);
    let rest = ws.remove(p);
    lemma_remove_wf(ws, root, p);
    lemma_child_ids(rest);
    assert(child_ids(rest) =~= rest_c);
    lemma_child_ids_unique(rest, root);
    let r = restacked(ws, p, above);
    if needs_restack(ws, p, above) {
        let at = if above == 0 {
            1
        } else {
            pos_of(rest, above) + 1
        };
        if above != 0 {
            let q = pos_of(rest, above);
            assert(rest[q].handle == above);
            assert(q != 0);
            assert(rest_c[q - 1] == above);
            lemma_id_pos_unique(rest_c, q - 1);
        }
        lemma_child_ids(r);
        assert(child_ids(r) =~= rest_c.insert(at - 1, ws[p].handle));
    } else {
        if above == 0 {
            assert(p == 1);
        } else {
            assert(p >= 2);
            assert(rest_c[p - 2] == above);
            lemma_id_pos_unique(rest_c, p - 2);
        }
        assert(rest_c.insert(p - 1, c[p - 1]) =~= c);
    }
}

#[verifier::spinoff_prover]
proof fn lemma_children_follow_configure(
    wins: Seq<Win>,
    root: u32,
    region: u32,
    atoms: RootHintAtoms,
    vao: u32,
    e: ConfigureNotifyEvent,
)
    requires
        wins_wf(wins, root),
        check_event(wins, root, atoms, Event::ConfigureNotify(e)) == EventCheck::Accepted,
        e.above_sibling != root,
    ensures
        child_ids(step(wins, root, region, atoms, vao, Event::ConfigureNotify(e)).0)
            == server_children(child_ids(wins), Event::ConfigureNotify(e)),
{
    let c = child_ids(wins);
    lemma_child_ids(wins);
    lemma_child_ids_unique(wins, root);
    let p = pos_of(wins, e.window);
    assert(wins[p].handle == e.window);
    let w = wins[p].spec_configured(e).0;
    let ws1 = wins.update(p, w);
    lemma_update_wf(wins, root, p, w);
    lemma_child_ids(ws1);
    assert(child_ids(ws1) =~= c);
    if p >= 1 {
        lemma_id_pos_unique(c, p - 1);
        assert(ws1.remove(p) =~= wins.remove(p));
        if p >= 2 {
            assert(ws1[p - 1] == wins[p - 1]);
        }
        lemma_child_ids_restacked(ws1, root, p, e.above_sibling);
    }
}

/// An accepted event changes the tracked children exactly as it changes
/// the server's stacking order of the root's children (the server never
/// names the root as a sibling).
pub proof fn lemma_children_follow_server(
    wins: Seq<Win>,
    root: u32,
    region: u32,
    atoms: RootHintAtoms,
    vao: u32,
    ev: Event,
)
    requires
        wins_wf(wins, root),
        check_event(wins, root, atoms, ev) == EventCheck::Accepted,
        ev matches Event::ConfigureNotify(e) ==> e.above_sibling != root,
    ensures
        child_ids(step(wins, root, region, atoms, vao, ev).0) == server_children(child_ids(wins), ev),
{
    let c = child_ids(wins);
    lemma_child_ids(wins);
    lemma_child_ids_unique(wins, root);
    let ws = step(wins, root, region, atoms, vao, ev).0;
    match ev {
        Event::CreateNotify { event: e, class, damage } => {
            lemma_child_ids(ws);
            assert(child_ids(ws) =~= c.push(e.window));
        },
        Event::MapNotify(e) => {
            lemma_child_ids(ws);
            assert(child_ids(ws) =~= c);
        },
        Event::UnmapNotify(e) => {
            lemma_child_ids(ws);
            assert(child_ids(ws) =~= c);
        },
        Event::DestroyNotify(e) => {
            let p = pos_of(wins, e.window);
            assert(wins[p].handle == e.window);
            lemma_id_pos_unique(c, p - 1);
            lemma_remove_wf(wins, root, p);
            lemma_child_ids(ws);
            assert(child_ids(ws) =~= c.remove(p - 1));
        },
        Event::ConfigureNotify(e) => {
            lemma_children_follow_configure(wins, root, region, atoms, vao, e);
        },
        _ => {},
    }
}

/// An accepted event keeps the windows well formed.
pub proof fn lemma_step_wf(
    wins: Seq<Win>,
    root: u32,
    region: u32,
    atoms: RootHintAtoms,
    vao: u32,
    ev: Event,
)
    requires
        wins_wf(wins, root),
        check_event(wins, root, atoms, ev) == EventCheck::Accepted,
    ensures
        wins_wf(step(wins, root, region, atoms, vao, ev).0, root),
{
    match ev {
        Event::CreateNotify { event: e, class, damage } => {
            let w = Win::spec_new_raw(
                e.window,
                e.x,
                e.y,
                e.width,
                e.height,
                e.border_width,
                e.override_redirect,
                class,
                false,
                vao,
                true,
                damage,
            );
            lemma_push_wf(wins, root, w);
        },
        Event::MapNotify(e) => {
            let p = pos_of(wins, e.window);
            assert(wins[p].wf());
            lemma_update_wf(wins, root, p, wins[p].spec_mapped(e).0);
        },
        Event::UnmapNotify(e) => {
            let p = pos_of(wins, e.window);
            assert(wins[p].wf());
            lemma_update_wf(wins, root, p, wins[p].spec_unmapped().0);
        },
        Event::ConfigureNotify(e) => {
            let p = pos_of(wins, e.window);
            assert(wins[p].wf());
            let w = wins[p].spec_configured(e).0;
            lemma_update_wf(wins, root, p, w);
            if p >= 1 {
                let ws1 = wins.update(p, w);
                assert(ws1.remove(p) =~= wins.remove(p));
                if p >= 2 {
                    assert(ws1[p - 1] == wins[p - 1]);
                }
                lemma_restack_wf(ws1, root, p, e.above_sibling);
            }
        },
        Event::DestroyNotify(e) => {
            lemma_remove_wf(wins, root, pos_of(wins, e.window));
        },
        _ => {},
    }
}

/// The windows after a sequence of events, if every one is accepted.
pub open spec fn run_events(
    wins: Seq<Win>,
    root: u32,
    region: u32,
    atoms: RootHintAtoms,
    vao: u32,
    evs: Seq<Event>,
) -> Option<Seq<Win>>
    decreases evs.len(),
{
    if evs.len() == 0 {
        Some(wins)
    } else {
        match run_events(wins, root, region, atoms, vao, evs.drop_last()) {
            Some(ws) => if check_event(ws, root, atoms, evs.last()) == EventCheck::Accepted {
                Some(step(ws, root, region, atoms, vao, evs.last()).0)
            } else {
                None
            },
            None => None,
        }
    }
}

/// The server's order of the root's children after a sequence of events.
pub open spec fn server_run(ids: Seq<u32>, evs: Seq<Event>) -> Seq<u32>
    decreases evs.len(),
{
    if evs.len() == 0 {
        ids
    } else {
        server_children(server_run(ids, evs.drop_last()), evs.last())
    }
}

/// Over any sequence of accepted events, the tracked children stay in the
/// server's stacking order (the server never names the root as a sibling).
pub proof fn lemma_children_follow_server_run(
    wins: Seq<Win>,
    root: u32,
    region: u32,
    atoms: RootHintAtoms,
    vao: u32,
    evs: Seq<Event>,
)
    requires
        wins_wf(wins, root),
        run_events(wins, root, region, atoms, vao, evs) is Some,
        forall|i: int|
            0 <= i < evs.len() ==> (#[trigger] evs[i] matches Event::ConfigureNotify(e)
                ==> e.above_sibling != root),
    ensures
        wins_wf(run_events(wins, root, region, atoms, vao, evs)->0, root),
        child_ids(run_events(wins, root, region, atoms, vao, evs)->0) == server_run(
            child_ids(wins),
            evs,
        ),
    decreases evs.len(),
{
    if evs.len() > 0 {
        let init = evs.drop_last();
        assert forall|i: int|
            0 <= i < init.len() implies (#[trigger] init[i] matches Event::ConfigureNotify(e)
            ==> e.above_sibling != root) by {
            assert(init[i] == evs[i]);
        }
        lemma_children_follow_server_run(wins, root, region, atoms, vao, init);
        let ws = run_events(wins, root, region, atoms, vao, init)->0;
        assert(evs.last() == evs[evs.len() - 1]);
        lemma_step_wf(ws, root, region, atoms, vao, evs.last());
        lemma_children_follow_server(ws, root, region, atoms, vao, evs.last());
    }
}

/// Damage reported for a window that is already destroyed is absorbed: the
/// event is accepted, leaves the windows alone, and only asks for a
/// subtraction whose server error is dropped.
pub proof fn lemma_damage_after_destroy(
    wins: Seq<Win>,
    root: u32,
    region: u32,
    atoms: RootHintAtoms,
    vao: u32,
    destroyed: DestroyNotifyEvent,
    damage: DamageNotifyEvent,
)
    requires
        wins_wf(wins, root),
        check_event(wins, root, atoms, Event::DestroyNotify(destroyed)) == EventCheck::Accepted,
    ensures
        ({
            let ws = step(wins, root, region, atoms, vao, Event::DestroyNotify(destroyed)).0;
            &&& !has_window(ws, destroyed.window)
            &&& check_event(ws, root, atoms, Event::DamageNotify(damage)) == EventCheck::Accepted
            &&& step(ws, root, region, atoms, vao, Event::DamageNotify(damage)) == (
                ws,
                seq![Request::SubtractDamage { damage: damage.damage, region }],
            )
        }),
{
    let p = pos_of(wins, destroyed.window);
    assert(wins[p].handle == destroyed.window);
    lemma_remove_wf(wins, root, p);
}

} // verus!
