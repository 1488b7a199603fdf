use live_wallpaper::present::{
    acquire_outcome, choose_surface_settings, copy_region, plan_surface_update, AcquireError,
    AcquireOutcome, AlphaModeKind, CanvasImageState, CopyRegion, PresentModeKind, SurfaceUpdate,
};

#[test]
fn image_resizes_once_per_generation() {
    let mut st = CanvasImageState::new();
    assert_eq!(st.sync_canvas_image(None, 3), None);
    assert_eq!(st.last_applied_generation, 0);
    assert_eq!(st.sync_canvas_image(Some((200, 100)), 3), Some((200, 100)));
    assert_eq!(st.last_applied_generation, 3);
    assert_eq!(st.sync_canvas_image(Some((300, 100)), 3), None);
    assert_eq!(st.sync_canvas_image(Some((300, 100)), 4), Some((300, 100)));
}

#[test]
fn surface_update_plans() {
    assert_eq!(
        plan_surface_update(false, None, 0, 0, 0, 50),
        SurfaceUpdate { recreate: true, reconfigure: true, width: 1, height: 50 }
    );
    assert_eq!(
        plan_surface_update(true, Some((10, 20)), 4, 4, 10, 20),
        SurfaceUpdate { recreate: false, reconfigure: false, width: 10, height: 20 }
    );
    assert_eq!(
        plan_surface_update(true, Some((10, 20)), 4, 4, 11, 20),
        SurfaceUpdate { recreate: false, reconfigure: true, width: 11, height: 20 }
    );
    assert_eq!(
        plan_surface_update(true, Some((10, 20)), 4, 5, 10, 20),
        SurfaceUpdate { recreate: true, reconfigure: true, width: 10, height: 20 }
    );
}

#[test]
fn settings_prefer_srgb_low_latency_opaque() {
    let c = choose_surface_settings(
        &vec![false, true, true],
        &vec![PresentModeKind::Fifo, PresentModeKind::Immediate, PresentModeKind::Mailbox],
        &vec![AlphaModeKind::Auto, AlphaModeKind::Opaque],
        0,
        768,
    )
    .unwrap();
    assert_eq!(c.format_index, 1);
    assert_eq!(c.present_mode, PresentModeKind::Immediate);
    assert_eq!(c.alpha_mode, AlphaModeKind::Opaque);
    assert_eq!((c.width, c.height), (1, 768));
}

#[test]
fn settings_fall_back() {
    let c = choose_surface_settings(
        &vec![false, false],
        &vec![PresentModeKind::FifoRelaxed],
        &vec![AlphaModeKind::PreMultiplied, AlphaModeKind::Inherit],
        640,
        480,
    )
    .unwrap();
    assert_eq!(c.format_index, 0);
    assert_eq!(c.present_mode, PresentModeKind::Fifo);
    assert_eq!(c.alpha_mode, AlphaModeKind::PreMultiplied);
}

#[test]
fn settings_without_formats_fail() {
    assert!(choose_surface_settings(&Vec::new(), &Vec::new(), &vec![AlphaModeKind::Opaque], 1, 1).is_none());
    assert!(choose_surface_settings(&vec![true], &Vec::new(), &Vec::new(), 1, 1).is_none());
}

#[test]
fn crop_regions() {
    assert_eq!(
        copy_region(1920, -300, -1280, -300, 1080, 1920, 4280, 1920),
        CopyRegion { origin_x: 3200, origin_y: 0, width: 1080, height: 1920 }
    );
    assert_eq!(
        copy_region(0, 0, 0, 0, 800, 600, 640, 900),
        CopyRegion { origin_x: 0, origin_y: 0, width: 640, height: 600 }
    );
    assert_eq!(
        copy_region(-10, 5, 0, 0, 10, 10, 10, 10),
        CopyRegion { origin_x: 0, origin_y: 5, width: 10, height: 10 }
    );
}

#[test]
fn acquire_errors() {
    assert_eq!(acquire_outcome(AcquireError::Outdated), AcquireOutcome::Discard);
    assert_eq!(acquire_outcome(AcquireError::Lost), AcquireOutcome::Discard);
    assert_eq!(acquire_outcome(AcquireError::OutOfMemory), AcquireOutcome::Discard);
    assert_eq!(acquire_outcome(AcquireError::Timeout), AcquireOutcome::Retry);
    assert_eq!(acquire_outcome(AcquireError::Other), AcquireOutcome::Retry);
}
