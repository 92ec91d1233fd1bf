use colorlaunch::color::Oklab;
use colorlaunch::gpu::{
    Acquired, AppGpuState, DrawStep, InputUniform, SurfaceGpuState, COLOR_RECORD_BYTES,
    PROGRESS_OFFSET, UNIFORM_BYTES, VERTEX_COUNT,
};

#[test]
fn buffer_layout_constants() {
    assert_eq!(UNIFORM_BYTES, 16);
    assert_eq!(PROGRESS_OFFSET, 8);
    assert_eq!(COLOR_RECORD_BYTES, 16);
    assert_eq!(VERTEX_COUNT, 6);
}

#[test]
fn storage_holds_sixteen_bytes_per_color() {
    let colors = vec![Oklab { l: 1, a: 2, b: 3 }, Oklab { l: 4, a: 5, b: 6 }, Oklab { l: 7, a: 8, b: 9 }];
    let state = AppGpuState::new(colors.clone());
    assert_eq!(state.desktop_colors(), &colors);
    assert_eq!(state.storage_bytes(), Some(48));
    assert_eq!(AppGpuState::new(Vec::new()).storage_bytes(), Some(0));
}

#[test]
fn new_surface_has_no_size_and_no_progress() {
    let state = SurfaceGpuState::new();
    assert_eq!(state.uniform(), InputUniform { width: 0, height: 0, voronoi_progress: 0 });
}

#[test]
fn resize_writes_the_size_and_restarts_progress() {
    let mut state = SurfaceGpuState::new();
    state.set_voronoi_progress(750_000);
    assert!(state.resize(1920, 1080));
    assert_eq!(state.uniform(), InputUniform { width: 1920, height: 1080, voronoi_progress: 0 });
}

#[test]
fn resize_to_an_empty_side_is_not_configurable() {
    let mut state = SurfaceGpuState::new();
    assert!(!state.resize(0, 1080));
    assert_eq!(state.uniform(), InputUniform { width: 0, height: 1080, voronoi_progress: 0 });
    assert!(!state.resize(1920, 0));
}

#[test]
fn progress_changes_without_touching_the_size() {
    let mut state = SurfaceGpuState::new();
    state.resize(800, 600);
    state.set_voronoi_progress(250_000);
    assert_eq!(state.uniform(), InputUniform { width: 800, height: 600, voronoi_progress: 250_000 });
    state.set_voronoi_progress(1_000_000);
    assert_eq!(state.uniform(), InputUniform { width: 800, height: 600, voronoi_progress: 1_000_000 });
}

#[test]
fn ready_texture_is_rendered() {
    let mut state = SurfaceGpuState::new();
    state.resize(800, 600);
    assert_eq!(state.draw(Acquired::Texture, false), DrawStep::Render);
    assert_eq!(state.draw(Acquired::Texture, true), DrawStep::Render);
}

#[test]
fn outdated_or_lost_surface_is_configured_again_once() {
    let mut state = SurfaceGpuState::new();
    state.resize(800, 600);
    let again = DrawStep::Reconfigure { width: 800, height: 600 };
    assert_eq!(state.draw(Acquired::Outdated, false), again);
    assert_eq!(state.draw(Acquired::Lost, false), again);
    assert_eq!(state.draw(Acquired::Outdated, true), DrawStep::Abort);
    assert_eq!(state.draw(Acquired::Lost, true), DrawStep::Abort);
}

#[test]
fn other_failures_end_the_draw() {
    let mut state = SurfaceGpuState::new();
    state.resize(800, 600);
    for failure in [Acquired::Timeout, Acquired::OutOfMemory, Acquired::Other] {
        assert_eq!(state.draw(failure, false), DrawStep::Abort);
        assert_eq!(state.draw(failure, true), DrawStep::Abort);
    }
}

#[test]
fn surface_without_size_is_not_configured_again() {
    let state = SurfaceGpuState::new();
    assert_eq!(state.draw(Acquired::Outdated, false), DrawStep::Abort);
}
