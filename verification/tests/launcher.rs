use colorlaunch::color::Oklab;
use colorlaunch::desktop::{ApplicationEntry, EntryKind};
use colorlaunch::gradient::{gradient, normalize};
use colorlaunch::index::{DesktopIndex, IndexedApp};
use colorlaunch::launcher::{
    resolve_click, Action, ClickOutcome, Event, Launcher, PointerEvent, PointerKind,
    PRIMARY_BUTTON,
};
use colorlaunch::surface::{OutputSurface, SurfaceSet};

fn app(id: &str, template: Option<&str>, a: i32, b: i32) -> IndexedApp {
    IndexedApp {
        entry: ApplicationEntry {
            id: id.to_string(),
            no_display: false,
            hidden: false,
            kind: EntryKind::Application,
            icon: Some(format!("/icons/{id}.png")),
            exec_template: template.map(|t| t.to_string()),
        },
        color: Oklab { l: 700_000, a, b },
    }
}

/// Four applications, one near each corner of the gradient.
fn corners() -> DesktopIndex {
    DesktopIndex::from_candidates(vec![
        app("top-left", Some("tl %U --flag"), -400_000, -400_000),
        app("top-right", Some("tr %u"), 400_000, -400_000),
        app("bottom-left", None, -400_000, 400_000),
        app("bottom-right", Some("br %F"), 400_000, 400_000),
    ])
}

fn release(surface: u32, x: u32, y: u32) -> PointerEvent {
    PointerEvent { surface, x, y, kind: PointerKind::Release { button: PRIMARY_BUTTON } }
}

fn configured_launcher() -> Launcher {
    let mut launcher = Launcher::new(corners());
    launcher.handle(Event::OutputConnected { output: 1, surface: Some(10) });
    launcher.handle(Event::Configure { surface: 10, width: 100, height: 100 });
    launcher
}

fn click(launcher: &mut Launcher, surface: u32, x: u32, y: u32) -> ClickOutcome {
    match launcher.handle(Event::Pointer(release(surface, x, y))) {
        Action::Click(outcome) => outcome,
        other => panic!("a pointer event gave {other:?}"),
    }
}

#[test]
fn primary_button_code() {
    assert_eq!(PRIMARY_BUTTON, 0x110);
}

#[test]
fn click_launches_the_application_of_the_nearest_color() {
    let mut launcher = configured_launcher();
    assert_eq!(
        click(&mut launcher, 10, 0, 0),
        ClickOutcome::Launch { app: 0, command: "tl  --flag".to_string() }
    );
    assert_eq!(
        click(&mut launcher, 10, 99, 99),
        ClickOutcome::Launch { app: 3, command: "br ".to_string() }
    );
}

#[test]
fn click_with_unknown_placeholder_is_refused() {
    let mut launcher = configured_launcher();
    assert_eq!(click(&mut launcher, 10, 99, 0), ClickOutcome::Refused { app: 1, command: "tr %u".to_string() });
}

#[test]
fn click_on_application_without_template_launches_nothing() {
    let mut launcher = configured_launcher();
    assert_eq!(click(&mut launcher, 10, 0, 99), ClickOutcome::NotLaunchable { app: 2 });
}

#[test]
fn other_buttons_and_other_pointer_events_are_ignored() {
    let mut launcher = configured_launcher();
    let right = PointerEvent { surface: 10, x: 0, y: 0, kind: PointerKind::Release { button: 0x111 } };
    let motion = PointerEvent { surface: 10, x: 0, y: 0, kind: PointerKind::Other };
    assert!(matches!(launcher.handle(Event::Pointer(right)), Action::Click(ClickOutcome::Ignored)));
    assert!(matches!(launcher.handle(Event::Pointer(motion)), Action::Click(ClickOutcome::Ignored)));
}

#[test]
fn click_on_unknown_surface_is_dropped() {
    let mut launcher = configured_launcher();
    assert_eq!(click(&mut launcher, 11, 0, 0), ClickOutcome::NoSurface);
}

#[test]
fn click_after_disconnect_is_dropped() {
    let mut launcher = configured_launcher();
    launcher.handle(Event::OutputDisconnected { output: 1 });
    assert_eq!(click(&mut launcher, 10, 0, 0), ClickOutcome::NoSurface);
}

#[test]
fn click_before_first_configure_is_outside() {
    let mut launcher = Launcher::new(corners());
    launcher.handle(Event::OutputConnected { output: 1, surface: Some(10) });
    assert_eq!(click(&mut launcher, 10, 0, 0), ClickOutcome::Outside);
}

#[test]
fn click_beyond_the_configured_size_is_outside() {
    let mut launcher = configured_launcher();
    assert_eq!(click(&mut launcher, 10, 100, 0), ClickOutcome::Outside);
    assert_eq!(click(&mut launcher, 10, 0, 100), ClickOutcome::Outside);
}

#[test]
fn click_with_empty_index_matches_nothing() {
    let mut launcher = Launcher::new(DesktopIndex::new());
    launcher.handle(Event::OutputConnected { output: 1, surface: Some(10) });
    launcher.handle(Event::Configure { surface: 10, width: 100, height: 100 });
    assert_eq!(click(&mut launcher, 10, 50, 50), ClickOutcome::NoMatch);
}

#[test]
fn connect_then_disconnect_asks_for_no_frame() {
    let mut launcher = Launcher::new(corners());
    let made = launcher.handle(Event::OutputConnected { output: 1, surface: Some(10) });
    assert!(matches!(made, Action::Idle));
    let gone = launcher.handle(Event::OutputDisconnected { output: 1 });
    match gone {
        Action::Release(record) => {
            assert_eq!(record, OutputSurface { output: 1, surface: 10, width: 0, height: 0 })
        }
        other => panic!("a disconnect gave {other:?}"),
    }
    assert!(launcher.surfaces().is_empty());
}

#[test]
fn display_without_surface_is_skipped() {
    let mut launcher = Launcher::new(corners());
    let action = launcher.handle(Event::OutputConnected { output: 1, surface: None });
    assert!(matches!(action, Action::Idle));
    assert!(launcher.surfaces().is_empty());
    launcher.handle(Event::OutputConnected { output: 2, surface: Some(20) });
    assert_eq!(launcher.surfaces().len(), 1);
}

#[test]
fn configure_asks_for_a_frame_of_the_recorded_size() {
    let mut launcher = Launcher::new(corners());
    launcher.handle(Event::OutputConnected { output: 1, surface: Some(10) });
    match launcher.handle(Event::Configure { surface: 10, width: 640, height: 480 }) {
        Action::Render { surface, layout } => {
            assert_eq!(surface, 10);
            assert_eq!((layout.width(), layout.height()), (640, 480));
        }
        other => panic!("a configure event gave {other:?}"),
    }
    let record = launcher.surfaces().lookup(10).unwrap();
    assert_eq!((record.width, record.height), (640, 480));
}

#[test]
fn clicks_follow_the_newest_configure() {
    let mut launcher = configured_launcher();
    // On 100 by 100 the position (60, 10) lies in the right half.
    assert_eq!(click(&mut launcher, 10, 60, 10), ClickOutcome::Refused { app: 1, command: "tr %u".to_string() });
    launcher.handle(Event::Configure { surface: 10, width: 200, height: 100 });
    // On 200 by 100 it lies in the left half.
    assert_eq!(
        click(&mut launcher, 10, 60, 10),
        ClickOutcome::Launch { app: 0, command: "tl  --flag".to_string() }
    );
    launcher.handle(Event::Configure { surface: 10, width: 50, height: 50 });
    assert_eq!(click(&mut launcher, 10, 60, 10), ClickOutcome::Outside);
}

#[test]
fn configure_with_an_empty_side_has_no_frame() {
    let mut launcher = Launcher::new(corners());
    launcher.handle(Event::OutputConnected { output: 1, surface: Some(10) });
    let action = launcher.handle(Event::Configure { surface: 10, width: 0, height: 480 });
    assert!(matches!(action, Action::Unrenderable { surface: 10, width: 0, height: 480 }));
    let record = launcher.surfaces().lookup(10).unwrap();
    assert_eq!((record.width, record.height), (0, 480));
}

#[test]
fn closed_surface_is_released() {
    let mut launcher = configured_launcher();
    match launcher.handle(Event::SurfaceClosed { surface: 10 }) {
        Action::Release(record) => {
            assert_eq!(record, OutputSurface { output: 1, surface: 10, width: 100, height: 100 })
        }
        other => panic!("a close gave {other:?}"),
    }
    assert!(launcher.surfaces().is_empty());
    assert!(matches!(launcher.handle(Event::SurfaceClosed { surface: 10 }), Action::Idle));
}

#[test]
fn events_leave_the_index_alone() {
    let mut launcher = configured_launcher();
    launcher.handle(Event::OutputDisconnected { output: 1 });
    assert_eq!(launcher.index().len(), 4);
    assert_eq!(launcher.index().get(0).unwrap().entry.id, "top-left");
}

#[test]
fn resolve_click_uses_the_gradient_at_the_normalized_position() {
    let mut surfaces = SurfaceSet::new();
    surfaces.connect(1, 10);
    surfaces.configure(10, 37, 11);
    let index = corners();
    for (x, y) in [(0, 0), (36, 10), (18, 5), (5, 9), (30, 2)] {
        let color = gradient(normalize(x, y, 37, 11).unwrap());
        let expected = index.nearest(&color).unwrap();
        let outcome = resolve_click(&surfaces, &index, &release(10, x, y));
        let matched = match outcome {
            ClickOutcome::Launch { app, .. } => app,
            ClickOutcome::Refused { app, .. } => app,
            ClickOutcome::NotLaunchable { app } => app,
            other => panic!("click at ({x}, {y}) gave {other:?}"),
        };
        assert_eq!(matched, expected);
    }
}

#[test]
fn batch_gives_one_outcome_per_event() {
    let launcher = configured_launcher();
    let events = vec![
        release(10, 0, 0),
        PointerEvent { surface: 10, x: 1, y: 1, kind: PointerKind::Other },
        release(10, 0, 99),
        release(10, 99, 99),
    ];
    assert_eq!(
        launcher.pointer_frame(&events),
        vec![
            ClickOutcome::Launch { app: 0, command: "tl  --flag".to_string() },
            ClickOutcome::Ignored,
            ClickOutcome::NotLaunchable { app: 2 },
            ClickOutcome::Launch { app: 3, command: "br ".to_string() },
        ]
    );
}

#[test]
fn batch_goes_on_after_a_refused_command() {
    let launcher = configured_launcher();
    let events = vec![release(10, 0, 0), release(10, 99, 0), release(10, 99, 99)];
    assert_eq!(
        launcher.pointer_frame(&events),
        vec![
            ClickOutcome::Launch { app: 0, command: "tl  --flag".to_string() },
            ClickOutcome::Refused { app: 1, command: "tr %u".to_string() },
            ClickOutcome::Launch { app: 3, command: "br ".to_string() },
        ]
    );
}

#[test]
fn batch_goes_on_after_an_unknown_surface() {
    let launcher = configured_launcher();
    let events = vec![release(11, 0, 0), release(10, 0, 0)];
    assert_eq!(
        launcher.pointer_frame(&events),
        vec![
            ClickOutcome::NoSurface,
            ClickOutcome::Launch { app: 0, command: "tl  --flag".to_string() },
        ]
    );
}

#[test]
fn empty_batch_has_no_outcome() {
    let launcher = configured_launcher();
    assert_eq!(launcher.pointer_frame(&Vec::new()), Vec::new());
}
