use ewm_compositor::{
    CompError, ConfigureNotifyEvent, CreateNotifyEvent, DamageNotifyEvent, DestroyNotifyEvent,
    Event, FboTexture, GLRenderer, Geometry, MapNotifyEvent, MapState, Request, RootHintAtoms,
    UniformLocations, UnmapNotifyEvent, WinAttributes, WinTracker, WindowClass, WindowDrawDesc,
    WindowInfo,
};

const ROOT: u32 = 1;
const OVERLAY: u32 = 2;
const REGION: u32 = 3;
const STACKING: u32 = 246;
const ACTIVE: u32 = 252;

fn renderer() -> GLRenderer {
    let uniforms = UniformLocations {
        win_rect: 0,
        screen_rect: 1,
        win_texture: 2,
        bg_texture: 3,
        screen_texture: 0,
    };
    let desc = WindowDrawDesc::new(
        16,
        &vec![0, 1, 2, 2, 1, 3],
        10,
        11,
        &uniforms,
        20,
        FboTexture { fbo: 30, texture: 31 },
        FboTexture { fbo: 40, texture: 41 },
    )
    .unwrap();
    GLRenderer::new(desc).unwrap()
}

fn screen_geometry() -> Geometry {
    Geometry { x: 0, y: 0, width: 1920, height: 1080, border_width: 0 }
}

fn root_attrs() -> WinAttributes {
    WinAttributes {
        override_redirect: false,
        class: WindowClass::InputOutput,
        map_state: MapState::Viewable,
    }
}

fn tracker(r: &GLRenderer) -> WinTracker {
    WinTracker::new(
        ROOT,
        OVERLAY,
        REGION,
        RootHintAtoms { client_list_stacking: STACKING, active_window: ACTIVE },
        &screen_geometry(),
        &root_attrs(),
        &vec![],
        r,
    )
    .unwrap()
}

fn create(window: u32, x: i16, y: i16, width: u16, height: u16) -> Option<Event> {
    Some(Event::CreateNotify {
        event: CreateNotifyEvent {
            window,
            x,
            y,
            width,
            height,
            border_width: 0,
            override_redirect: false,
        },
        class: WindowClass::InputOutput,
        damage: window + 1000,
    })
}

fn map(window: u32) -> Option<Event> {
    Some(Event::MapNotify(MapNotifyEvent { window, override_redirect: false }))
}

fn configure(window: u32, above_sibling: u32, x: i16, y: i16, width: u16, height: u16) -> Option<Event> {
    Some(Event::ConfigureNotify(ConfigureNotifyEvent {
        window,
        above_sibling,
        x,
        y,
        width,
        height,
        border_width: 0,
        override_redirect: false,
    }))
}

fn ids(t: &WinTracker) -> Vec<u32> {
    t.wins().iter().map(|w| w.handle).collect()
}

fn acquires(reqs: &[Request]) -> usize {
    reqs.iter().filter(|r| matches!(r, Request::Acquire { .. })).count()
}

/// Performs the acquisitions that requests ask for, with handles derived from the window id.
fn serve(t: &mut WinTracker, r: &GLRenderer, reqs: &[Request]) {
    for req in reqs {
        if let Request::Acquire { window } = req {
            t.attach(*window, window + 100, (*window as u64) + 200, window + 300, r).unwrap();
        }
    }
}

#[test]
fn create_pushes_on_top_and_tracks_damage() {
    let r = renderer();
    let mut t = tracker(&r);
    let reqs = t.process_event(&create(5, 0, 0, 100, 100), &r).unwrap();
    assert_eq!(reqs, vec![Request::TrackDamage { window: 5, damage: 1005 }]);
    let reqs = t.process_event(&create(6, 0, 0, 100, 100), &r).unwrap();
    assert_eq!(reqs.len(), 1);
    assert_eq!(ids(&t), vec![ROOT, 5, 6]);
    let w = t.wins()[1];
    assert!(!w.mapped);
    assert_eq!(w.damage, Some(1005));
    assert_eq!(w.vao, 20);
}

#[test]
fn input_only_window_gets_no_damage_and_no_pixmap() {
    let r = renderer();
    let mut t = tracker(&r);
    let ev = Some(Event::CreateNotify {
        event: CreateNotifyEvent {
            window: 5,
            x: 0,
            y: 0,
            width: 10,
            height: 10,
            border_width: 0,
            override_redirect: false,
        },
        class: WindowClass::InputOnly,
        damage: 77,
    });
    assert_eq!(t.process_event(&ev, &r).unwrap(), vec![]);
    assert_eq!(t.wins()[1].damage, None);
    let reqs = t.process_event(&map(5), &r).unwrap();
    assert_eq!(reqs, vec![]);
    assert!(t.wins()[1].mapped);
    assert_eq!(t.wins()[1].pixmap, None);
    assert_eq!(t.wins()[1].glx_pixmap, None);
    assert!(matches!(t.attach(5, 1, 2, 3, &r), Err(CompError::Str(_))));
}

#[test]
fn duplicate_create_is_rejected() {
    let r = renderer();
    let mut t = tracker(&r);
    t.process_event(&create(5, 0, 0, 10, 10), &r).unwrap();
    assert!(matches!(t.process_event(&create(5, 0, 0, 10, 10), &r), Err(CompError::Str(_))));
    assert!(matches!(t.process_event(&create(0, 0, 0, 10, 10), &r), Err(CompError::Str(_))));
    assert_eq!(ids(&t), vec![ROOT, 5]);
}

#[test]
fn map_untracked_window_is_an_error() {
    let r = renderer();
    let mut t = tracker(&r);
    assert_eq!(t.process_event(&map(42), &r), Err(CompError::UntrackedWindow(42)));
    let unmap = Some(Event::UnmapNotify(UnmapNotifyEvent { window: 43 }));
    assert_eq!(t.process_event(&unmap, &r), Err(CompError::UntrackedWindow(43)));
    assert_eq!(
        t.process_event(&configure(44, 0, 0, 0, 1, 1), &r),
        Err(CompError::UntrackedWindow(44))
    );
    let destroy = Some(Event::DestroyNotify(DestroyNotifyEvent { window: 45 }));
    assert_eq!(t.process_event(&destroy, &r), Err(CompError::UntrackedWindow(45)));
    assert_eq!(ids(&t), vec![ROOT]);
}

#[test]
fn map_asks_for_a_pixmap_and_attach_binds_it() {
    let r = renderer();
    let mut t = tracker(&r);
    t.process_event(&create(5, 0, 0, 100, 100), &r).unwrap();
    let reqs = t.process_event(&map(5), &r).unwrap();
    assert_eq!(reqs, vec![Request::Acquire { window: 5 }]);
    assert_eq!(t.attach(5, 105, 205, 305, &r).unwrap(), vec![]);
    let w = t.wins()[1];
    assert!(w.mapped);
    assert_eq!(w.pixmap, Some(105));
    assert_eq!(w.glx_pixmap, Some(205));
    assert_eq!(w.texture, Some(305));
    assert_eq!(t.attach(99, 1, 2, 3, &r), Err(CompError::UntrackedWindow(99)));
}

#[test]
fn rebinding_after_release_looks_like_one_binding() {
    let r = renderer();
    let mut t = tracker(&r);
    t.process_event(&create(5, 0, 0, 100, 100), &r).unwrap();
    t.process_event(&map(5), &r).unwrap();
    let mut once = t.wins()[1];
    let mut twice = t.wins()[1];
    assert_eq!(r.reacquire_glx_pixmap(&mut once, 9, 19, 29), vec![]);
    assert_eq!(r.reacquire_glx_pixmap(&mut twice, 8, 18, 28), vec![]);
    assert_eq!(
        r.release_glx_pixmap(&mut twice),
        vec![Request::Release { pixmap: 8, drawable: 18, texture: 28 }]
    );
    assert_eq!(r.release_glx_pixmap(&mut twice), vec![]);
    assert_eq!(r.reacquire_glx_pixmap(&mut twice, 9, 19, 29), vec![]);
    assert_eq!(once, twice);
}

#[test]
fn remap_replaces_the_handles() {
    let r = renderer();
    let mut t = tracker(&r);
    t.process_event(&create(5, 0, 0, 100, 100), &r).unwrap();
    let reqs = t.process_event(&map(5), &r).unwrap();
    serve(&mut t, &r, &reqs);
    let reqs = t.process_event(&map(5), &r).unwrap();
    assert_eq!(
        reqs,
        vec![
            Request::Release { pixmap: 105, drawable: 205, texture: 305 },
            Request::Acquire { window: 5 },
        ]
    );
    assert_eq!(t.wins()[1].pixmap, None);
}

#[test]
fn unmap_releases_handles() {
    let r = renderer();
    let mut t = tracker(&r);
    t.process_event(&create(5, 0, 0, 100, 100), &r).unwrap();
    let reqs = t.process_event(&map(5), &r).unwrap();
    serve(&mut t, &r, &reqs);
    let unmap = Some(Event::UnmapNotify(UnmapNotifyEvent { window: 5 }));
    let reqs = t.process_event(&unmap, &r).unwrap();
    assert_eq!(reqs, vec![Request::Release { pixmap: 105, drawable: 205, texture: 305 }]);
    let w = t.wins()[1];
    assert!(!w.mapped);
    assert_eq!((w.pixmap, w.glx_pixmap, w.texture), (None, None, None));
    assert_eq!(t.mapped_wins().iter().map(|w| w.handle).collect::<Vec<u32>>(), vec![ROOT]);
}

#[test]
fn configure_size_change_reacquires_once() {
    let r = renderer();
    let mut t = tracker(&r);
    t.process_event(&create(5, 0, 0, 100, 100), &r).unwrap();
    let reqs = t.process_event(&map(5), &r).unwrap();
    serve(&mut t, &r, &reqs);
    let reqs = t.process_event(&configure(5, 0, 0, 0, 200, 100), &r).unwrap();
    assert_eq!(acquires(&reqs), 1);
    assert_eq!(
        reqs,
        vec![
            Request::Release { pixmap: 105, drawable: 205, texture: 305 },
            Request::Acquire { window: 5 },
        ]
    );
    let w = t.wins()[1];
    assert_eq!((w.rect.x, w.rect.y, w.rect.width, w.rect.height), (0, 0, 200, 100));
}

#[test]
fn configure_same_size_never_reacquires() {
    let r = renderer();
    let mut t = tracker(&r);
    t.process_event(&create(5, 0, 0, 100, 100), &r).unwrap();
    let reqs = t.process_event(&map(5), &r).unwrap();
    serve(&mut t, &r, &reqs);
    let reqs = t.process_event(&configure(5, 0, 30, 40, 100, 100), &r).unwrap();
    assert_eq!(reqs, vec![]);
    let w = t.wins()[1];
    assert_eq!((w.rect.x, w.rect.y), (30, 40));
    assert_eq!(w.pixmap, Some(105));
}

#[test]
fn configure_unmapped_size_change_asks_nothing() {
    let r = renderer();
    let mut t = tracker(&r);
    t.process_event(&create(5, 0, 0, 100, 100), &r).unwrap();
    let reqs = t.process_event(&configure(5, 0, 0, 0, 300, 300), &r).unwrap();
    assert_eq!(reqs, vec![]);
    assert_eq!(t.wins()[1].rect.width, 300);
}

#[test]
fn configure_restacks_above_sibling_or_to_bottom() {
    let r = renderer();
    let mut t = tracker(&r);
    for id in [5, 6, 7, 8] {
        t.process_event(&create(id, 0, 0, 10, 10), &r).unwrap();
    }
    let mut reference = vec![ROOT, 5, 6, 7, 8];
    assert_eq!(ids(&t), reference);
    // 5 goes directly above 7
    t.process_event(&configure(5, 7, 0, 0, 10, 10), &r).unwrap();
    reference = vec![ROOT, 6, 7, 5, 8];
    assert_eq!(ids(&t), reference);
    // 8 goes to the bottom
    t.process_event(&configure(8, 0, 0, 0, 10, 10), &r).unwrap();
    reference = vec![ROOT, 8, 6, 7, 5];
    assert_eq!(ids(&t), reference);
    // 6 goes to the top (above 5)
    t.process_event(&configure(6, 5, 0, 0, 10, 10), &r).unwrap();
    reference = vec![ROOT, 8, 7, 5, 6];
    assert_eq!(ids(&t), reference);
    // already in place: unchanged
    t.process_event(&configure(7, 8, 0, 0, 10, 10), &r).unwrap();
    assert_eq!(ids(&t), reference);
}

#[test]
fn configure_twice_is_a_noop_after_the_first() {
    let r = renderer();
    let mut t = tracker(&r);
    for id in [5, 6, 7] {
        t.process_event(&create(id, 0, 0, 10, 10), &r).unwrap();
        let reqs = t.process_event(&map(id), &r).unwrap();
        serve(&mut t, &r, &reqs);
    }
    let ev = configure(7, 5, 3, 4, 50, 60);
    let first = t.process_event(&ev, &r).unwrap();
    assert_eq!(acquires(&first), 1);
    serve(&mut t, &r, &first);
    let after_first = t.wins().clone();
    let second = t.process_event(&ev, &r).unwrap();
    assert_eq!(second, vec![]);
    assert_eq!(t.wins(), &after_first);
    assert_eq!(ids(&t), vec![ROOT, 5, 7, 6]);
}

#[test]
fn configure_with_unknown_sibling_changes_nothing() {
    let r = renderer();
    let mut t = tracker(&r);
    t.process_event(&create(5, 0, 0, 10, 10), &r).unwrap();
    t.process_event(&create(6, 0, 0, 10, 10), &r).unwrap();
    let before = t.wins().clone();
    assert_eq!(
        t.process_event(&configure(5, 99, 1, 1, 20, 20), &r),
        Err(CompError::SiblingNotFound(99))
    );
    assert_eq!(t.wins(), &before);
}

#[test]
fn children_follow_a_reference_stacking_list() {
    let r = renderer();
    let mut t = tracker(&r);
    let mut reference: Vec<u32> = vec![];
    let events: Vec<(Option<Event>, &str)> = vec![
        (create(10, 0, 0, 10, 10), "create"),
        (create(11, 0, 0, 10, 10), "create"),
        (create(12, 0, 0, 10, 10), "create"),
        (map(11), "map"),
        (configure(10, 12, 0, 0, 10, 10), "configure"),
        (Some(Event::DestroyNotify(DestroyNotifyEvent { window: 11 })), "destroy"),
        (create(13, 0, 0, 10, 10), "create"),
        (configure(13, 0, 5, 5, 10, 10), "configure"),
        (Some(Event::UnmapNotify(UnmapNotifyEvent { window: 12 })), "unmap"),
        (configure(12, 10, 0, 0, 10, 10), "configure"),
    ];
    for (ev, _) in &events {
        match ev.unwrap() {
            Event::CreateNotify { event, .. } => reference.push(event.window),
            Event::DestroyNotify(e) => reference.retain(|&w| w != e.window),
            Event::ConfigureNotify(e) => {
                reference.retain(|&w| w != e.window);
                let at = if e.above_sibling == 0 {
                    0
                } else {
                    reference.iter().position(|&w| w == e.above_sibling).unwrap() + 1
                };
                reference.insert(at, e.window);
            }
            _ => {}
        }
        let reqs = t.process_event(ev, &r).unwrap();
        serve(&mut t, &r, &reqs);
        let children: Vec<u32> = ids(&t)[1..].to_vec();
        assert_eq!(children, reference);
        assert_eq!(ids(&t)[0], ROOT);
        for w in t.wins() {
            if !w.mapped {
                assert_eq!((w.pixmap, w.glx_pixmap, w.texture), (None, None, None));
            }
            assert_eq!(w.pixmap.is_some(), w.glx_pixmap.is_some());
        }
    }
    assert_eq!(reference, vec![13, 10, 12]);
}

#[test]
fn destroy_removes_and_releases() {
    let r = renderer();
    let mut t = tracker(&r);
    t.process_event(&create(5, 0, 0, 100, 100), &r).unwrap();
    let reqs = t.process_event(&map(5), &r).unwrap();
    serve(&mut t, &r, &reqs);
    let destroy = Some(Event::DestroyNotify(DestroyNotifyEvent { window: 5 }));
    let reqs = t.process_event(&destroy, &r).unwrap();
    assert_eq!(
        reqs,
        vec![
            Request::DestroyDamage { damage: 1005 },
            Request::Release { pixmap: 105, drawable: 205, texture: 305 },
        ]
    );
    assert_eq!(ids(&t), vec![ROOT]);
    let damage = Some(Event::DamageNotify(DamageNotifyEvent { damage: 1005 }));
    assert_eq!(
        t.process_event(&damage, &r).unwrap(),
        vec![Request::SubtractDamage { damage: 1005, region: REGION }]
    );
}

#[test]
fn destroying_the_root_is_rejected() {
    let r = renderer();
    let mut t = tracker(&r);
    let destroy = Some(Event::DestroyNotify(DestroyNotifyEvent { window: ROOT }));
    assert!(matches!(t.process_event(&destroy, &r), Err(CompError::Str(_))));
    assert_eq!(ids(&t), vec![ROOT]);
}

#[test]
fn no_event_and_other_events_change_nothing() {
    let r = renderer();
    let mut t = tracker(&r);
    t.process_event(&create(5, 0, 0, 10, 10), &r).unwrap();
    let before = t.wins().clone();
    assert_eq!(t.process_event(&None, &r).unwrap(), vec![]);
    assert_eq!(t.process_event(&Some(Event::Other), &r).unwrap(), vec![]);
    assert_eq!(t.wins(), &before);
}

#[test]
fn startup_tracks_children_and_skips_overlay() {
    let r = renderer();
    let child = |handle: u32, map_state: MapState, class: WindowClass| WindowInfo {
        handle,
        geometry: Geometry { x: 1, y: 2, width: 30, height: 40, border_width: 1 },
        attributes: WinAttributes { override_redirect: false, class, map_state },
        damage: handle + 500,
    };
    let children = vec![
        child(5, MapState::Viewable, WindowClass::InputOutput),
        child(OVERLAY, MapState::Viewable, WindowClass::InputOutput),
        child(6, MapState::Unmapped, WindowClass::InputOutput),
        child(7, MapState::Unviewable, WindowClass::InputOnly),
    ];
    let atoms = RootHintAtoms { client_list_stacking: STACKING, active_window: ACTIVE };
    let t = WinTracker::new(ROOT, OVERLAY, REGION, atoms, &screen_geometry(), &root_attrs(), &children, &r)
        .unwrap();
    assert_eq!(ids(&t), vec![ROOT, 5, OVERLAY, 6, 7]);
    assert!(!t.get_composite_win().track_damage);
    assert_eq!(t.get_composite_win().handle, ROOT);
    assert!(!t.wins()[2].track_damage);
    assert_eq!(
        t.startup_requests(),
        vec![
            Request::TrackDamage { window: 5, damage: 505 },
            Request::Acquire { window: 5 },
            Request::TrackDamage { window: 6, damage: 506 },
        ]
    );
    assert_eq!(t.mapped_wins().iter().map(|w| w.handle).collect::<Vec<u32>>(), vec![ROOT, 5, OVERLAY, 7]);
}

#[test]
fn startup_rejects_repeated_or_zero_ids() {
    let r = renderer();
    let info = |handle: u32| WindowInfo {
        handle,
        geometry: Geometry { x: 0, y: 0, width: 1, height: 1, border_width: 0 },
        attributes: root_attrs(),
        damage: 0,
    };
    let atoms = RootHintAtoms { client_list_stacking: STACKING, active_window: ACTIVE };
    let g = screen_geometry();
    let a = root_attrs();
    assert!(matches!(
        WinTracker::new(ROOT, OVERLAY, REGION, atoms, &g, &a, &vec![info(5), info(5)], &r),
        Err(CompError::Str(_))
    ));
    assert!(matches!(
        WinTracker::new(ROOT, OVERLAY, REGION, atoms, &g, &a, &vec![info(ROOT)], &r),
        Err(CompError::Str(_))
    ));
    assert!(matches!(
        WinTracker::new(ROOT, OVERLAY, REGION, atoms, &g, &a, &vec![info(0)], &r),
        Err(CompError::Str(_))
    ));
    assert!(matches!(
        WinTracker::new(0, OVERLAY, REGION, atoms, &g, &a, &vec![], &r),
        Err(CompError::Str(_))
    ));
}
