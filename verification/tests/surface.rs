use orbital_viewer::surface::{choose_surface_format, frame_plan, FramePlan, SurfaceSize, SurfaceStatus};

#[test]
fn resize_takes_only_positive_sizes() {
    let mut s = SurfaceSize::new(800, 600);
    assert!(!s.configured);
    assert!(!s.resize(0, 600));
    assert_eq!(s, SurfaceSize { width: 800, height: 600, configured: false });
    assert!(s.resize(1024, 768));
    assert_eq!(s, SurfaceSize { width: 1024, height: 768, configured: true });
    assert!(!s.resize(1024, 0));
    assert!(s.configured);
    assert_eq!(s.width, 1024);
    assert!(s.resize(1024, 768));
    assert_eq!(s, SurfaceSize { width: 1024, height: 768, configured: true });
}

#[test]
fn frame_plans() {
    assert_eq!(frame_plan(SurfaceStatus::Success), FramePlan::Draw { reconfigure_first: false });
    assert_eq!(frame_plan(SurfaceStatus::Suboptimal), FramePlan::Draw { reconfigure_first: true });
    assert_eq!(frame_plan(SurfaceStatus::Timeout), FramePlan::Skip);
    assert_eq!(frame_plan(SurfaceStatus::Occluded), FramePlan::Skip);
    assert_eq!(frame_plan(SurfaceStatus::Validation), FramePlan::Skip);
    assert_eq!(frame_plan(SurfaceStatus::Outdated), FramePlan::ReconfigureAndSkip);
    assert_eq!(frame_plan(SurfaceStatus::Lost), FramePlan::DeviceLost);
}

#[test]
fn first_srgb_format_or_else_the_first() {
    assert_eq!(choose_surface_format(&vec![false, true, true]), 1);
    assert_eq!(choose_surface_format(&vec![true]), 0);
    assert_eq!(choose_surface_format(&vec![false, false]), 0);
}
