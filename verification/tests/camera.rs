use wutengine::camera::{camera_bind_group, render_target_action, CameraTarget, MissingCameraBindGroupErr, RenderTargetAction};
use wutengine::window::manager::WindowManager;
use wutengine::window::Window;

#[test]
fn render_target_decisions() {
    assert_eq!(RenderTargetAction::Free, render_target_action(None, Some((10, 10))));
    assert_eq!(RenderTargetAction::Wait, render_target_action(Some((0, 10)), Some((10, 10))));
    assert_eq!(RenderTargetAction::Keep, render_target_action(Some((10, 10)), Some((10, 10))));
    assert_eq!(RenderTargetAction::Recreate { width: 20, height: 10 }, render_target_action(Some((20, 10)), Some((10, 10))));
    assert_eq!(RenderTargetAction::Recreate { width: 20, height: 10 }, render_target_action(Some((20, 10)), None));
}

#[test]
fn camera_target_sizes() {
    let mut m = WindowManager::new();
    m.new_window(Window(1), 10, "w".to_string());
    m.refresh_window(Window(1), "w".to_string(), (300, 200), true, None, false, false);
    assert_eq!((300, 200), CameraTarget::Window(Window(1)).size(&m));
    assert_eq!((0, 0), CameraTarget::Window(Window(2)).size(&m));
    assert_eq!((64, 32), CameraTarget::Texture((64, 32)).size(&m));
}

#[test]
fn camera_bind_group_presence() {
    assert_eq!(Err(MissingCameraBindGroupErr), camera_bind_group::<u8>(&None));
    assert_eq!(Ok(&5u8), camera_bind_group(&Some(5u8)));
}
