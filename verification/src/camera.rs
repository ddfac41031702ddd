//! Camera render targets: the size of what a camera renders to, and when its render
//! texture is recreated

use vstd::prelude::*;

use crate::window::Window;
use crate::window::manager::{WindowManager, has_window};

verus! {

/// The target surface on which a camera renders its viewport
#[derive(Debug, Clone, Copy)]
pub enum CameraTarget {
    /// The camera renders to the window
    Window(Window),
    /// The camera renders to a render texture of the given size
    Texture((u32, u32)),
}

impl CameraTarget {
    /// Returns the size in pixels of this target; (0, 0) for a window that is not open
    pub fn size(&self, manager: &WindowManager) -> (r: (u32, u32))
        requires
            manager.wf(),
        ensures
            r == match self {
                CameraTarget::Window(w) => if has_window(manager.windows@, *w) { manager.info(*w).inner_size } else { (0u32, 0u32) },
                CameraTarget::Texture(size) => *size,
            },
    {
        match self {
            CameraTarget::Window(w) => w.get_size(manager),
            CameraTarget::Texture(size) => *size,
        }
    }
}

/// What to do with the render texture of a camera
#[derive(Debug, Clone, Copy, PartialEq, Eq, Structural)]
pub enum RenderTargetAction {
    /// The camera has no target: free the render texture, if there is one
    Free,
    /// The target has no size yet (or any more): leave everything as it is
    Wait,
    /// The render texture has the size of the target: keep it
    Keep,
    /// Create a render texture of the size, destroying the current one if there is one
    Recreate {
        /// The width of the new texture
        width: u32,
        /// The height of the new texture
        height: u32,
    },
}

/// Decides what happens to the render texture of a camera, given the size of its target
/// (`None` when it has no target) and the size of its current render texture, if any
pub fn render_target_action(target_size: Option<(u32, u32)>, current: Option<(u32, u32)>) -> (r: RenderTargetAction)
    ensures
        r == match target_size {
            None => RenderTargetAction::Free,
            Some(s) => if s.0 == 0 || s.1 == 0 {
                RenderTargetAction::Wait
            } else if current == Some(s) {
                RenderTargetAction::Keep
            } else {
                RenderTargetAction::Recreate { width: s.0, height: s.1 }
            },
        },
{
    match target_size {
        None => RenderTargetAction::Free,
        Some(s) => {
            if s.0 == 0 || s.1 == 0 {
                return RenderTargetAction::Wait;
            }
            match current {
                Some(c) => if c.0 == s.0 && c.1 == s.1 {
                    RenderTargetAction::Keep
                } else {
                    RenderTargetAction::Recreate { width: s.0, height: s.1 }
                },
                None => RenderTargetAction::Recreate { width: s.0, height: s.1 },
            }
        },
    }
}

/// The camera's bind group is not yet initialized: set it from inside a render pass only
#[derive(Debug, Clone, Copy, PartialEq, Eq, Structural)]
pub struct MissingCameraBindGroupErr;

/// Returns the camera's bind group, or [MissingCameraBindGroupErr] when it has none yet
pub fn camera_bind_group<B>(parameters: &Option<B>) -> (r: Result<&B, MissingCameraBindGroupErr>)
    ensures
        match parameters {
            Some(b) => r == Ok::<&B, MissingCameraBindGroupErr>(b),
            None => r == Err::<&B, MissingCameraBindGroupErr>(MissingCameraBindGroupErr),
        },
{
    match parameters {
        Some(b) => Ok(b),
        None => Err(MissingCameraBindGroupErr),
    }
}

} // verus!
