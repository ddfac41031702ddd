use wutengine::window::{
        config_change_reconfigures, pick_surface_format, surface_texture_outcome, SurfaceFormatTraits, SurfaceStatus,
    };
use wutengine::window::{plan_fullscreen, BorderlessTarget, FullscreenPlan, FullscreenRequest};
use wutengine::window::manager::{MonitorSnapshot, WindowManager, WindowState};
use wutengine::window::{
    exit, force_exit, get_best_present_mode, lock, request_frame, unlock, window_sizing, Display,
    MainThreadEvent, MainThreadQueue, PresentMode, Window, WindowUpdateEvent,
};

fn manager_with_windows() -> WindowManager {
    let mut m = WindowManager::new();
    m.new_window(Window(1), 100, "One".to_string());
    m.new_window(Window(2), 200, "Two".to_string());
    m.new_window(Window(3), 300, "Three".to_string());
    m
}

#[test]
fn first_window_is_primary() {
    let m = manager_with_windows();
    assert_eq!(Some(Window(1)), Window::primary(&m));
    assert!(Window(1).is_primary(&m));
    assert!(!Window(2).is_primary(&m));
    assert_eq!(vec![Window(1), Window(2), Window(3)], Window::opened(&m));
    assert_eq!(3, m.num_windows());
}

#[test]
fn make_primary_moves_the_primary_flag() {
    let mut m = manager_with_windows();
    Window(3).make_primary(&mut m);
    assert_eq!(Some(Window(3)), Window::primary(&m));
    assert!(!Window(1).is_primary(&m));
    // Unknown windows change nothing
    Window(9).make_primary(&mut m);
    assert_eq!(Some(Window(3)), Window::primary(&m));
}

#[test]
fn closing_the_primary_window_appoints_another() {
    let mut m = manager_with_windows();
    assert_eq!(2, m.close_window(Window(1)));
    let primary = Window::primary(&m).unwrap();
    assert!(primary == Window(2) || primary == Window(3));
    assert_eq!(1, Window::opened(&m).iter().filter(|w| w.is_primary(&m)).count());
    assert!(!Window(1).is_ready(&m));
    assert_eq!(WindowState::BeingDestroyed, m.find_id(100));
    assert_eq!(WindowState::Alive(Window(2)), m.find_id(200));
    assert!(m.winit_window_destroyed(100));
    assert_eq!(WindowState::NotFound, m.find_id(100));
    assert!(!m.winit_window_destroyed(100));
    // Closing an unknown window does nothing
    assert_eq!(2, m.close_window(Window(1)));
    m.close_window(Window(2));
    m.close_window(Window(3));
    assert_eq!(None, Window::primary(&m));
}

#[test]
fn window_queries_and_defaults() {
    let mut m = manager_with_windows();
    assert_eq!((0, 0), Window(2).get_size(&m));
    assert!(m.refresh_window(Window(2), "Renamed".to_string(), (640, 480), false, Some(true), true, false));
    assert_eq!((640, 480), Window(2).get_size(&m));
    assert_eq!("Renamed", Window(2).title(&m));
    assert!(!Window(2).is_focused(&m));
    assert!(Window(2).is_minimized(&m));
    assert!(Window(2).is_maximized(&m));
    assert!(!Window(2).is_foreground(&m));
    // Same size: no reconfiguration unless forced; unknown minimized state is kept
    assert!(!m.refresh_window(Window(2), "Renamed".to_string(), (640, 480), true, None, false, false));
    assert!(Window(2).is_minimized(&m));
    assert!(m.refresh_window(Window(2), "Renamed".to_string(), (640, 480), true, Some(false), false, true));
    // A zero size is never configured
    assert!(!m.refresh_window(Window(2), "Renamed".to_string(), (0, 0), true, None, false, false));
    m.notify_window_occluded(Window(2), true);
    assert!(Window(2).is_occluded(&m));
    assert!(!Window(2).is_foreground(&m));

    // Windows that are not open
    let gone = Window(42);
    assert!(!gone.is_ready(&m));
    assert_eq!((0, 0), gone.get_size(&m));
    assert!(gone.is_focused(&m));
    assert!(!gone.is_occluded(&m));
    assert!(!gone.is_minimized(&m));
    assert!(!gone.is_maximized(&m));
    assert!(gone.is_foreground(&m));
    assert_eq!("", gone.title(&m));
    assert!(!m.refresh_window(gone, String::new(), (1, 1), true, None, false, true));
}

#[test]
fn displays_keep_their_handles() {
    let mut m = WindowManager::new();
    m.refresh_displays(vec![
        MonitorSnapshot { existing: None, is_primary: false, name: Some("Left".to_string()), size: (1920, 1080), refresh_rate_millihertz: 60000 },
        MonitorSnapshot { existing: None, is_primary: true, name: None, size: (2560, 1440), refresh_rate_millihertz: 144000 },
    ]);
    let displays = Display::available(&m);
    assert_eq!(2, displays.len());
    let (left, right) = (displays[0], displays[1]);
    assert_ne!(left, right);
    assert_eq!(right, Display::primary(&m));
    assert!(right.is_primary(&m));
    assert_eq!(Some("Left".to_string()), left.name(&m));
    assert_eq!(None, right.name(&m));
    assert_eq!((2560, 1440), right.resolution(&m));
    assert_eq!(144000, right.refresh_rate_millihertz(&m));

    m.refresh_displays(vec![
        MonitorSnapshot { existing: Some(right), is_primary: false, name: None, size: (2560, 1440), refresh_rate_millihertz: 120000 },
        MonitorSnapshot { existing: None, is_primary: false, name: None, size: (800, 600), refresh_rate_millihertz: 50000 },
    ]);
    let displays = Display::available(&m);
    assert_eq!(right, displays[0]);
    assert_ne!(left, displays[1]);
    assert_ne!(right, displays[1]);
    assert_eq!(120000, right.refresh_rate_millihertz(&m));
    assert_eq!((0, 0), left.resolution(&m));
    assert_eq!(0, left.refresh_rate_millihertz(&m));
    assert!(!left.is_primary(&m));
    // No primary reported: an arbitrary connected display is used
    assert!(displays.contains(&Display::primary(&m)));
}

#[test]
fn main_thread_requests() {
    let mut q = MainThreadQueue::new(false);
    exit(&mut q);
    force_exit(&mut q);
    assert!(q.events.is_empty());
    request_frame(&mut q);
    assert!(matches!(q.events[0], MainThreadEvent::Wake));

    let mut q = MainThreadQueue::new(true);
    exit(&mut q);
    force_exit(&mut q);
    lock(&mut q);
    unlock(&mut q);
    Window(4).destroy(&mut q);
    Window(4).hide_cursor(&mut q);
    Window(4).show_cursor(&mut q);
    Window(4).set_title("Hello".to_string(), &mut q);
    Window(4).force_reconfigure(&mut q);
    Window(4).set_cursor(cursor_icon::CursorIcon::Pointer, &mut q);
    assert_eq!(10, q.events.len());
    assert!(matches!(q.events[0], MainThreadEvent::RuntimeExitRequested(false)));
    assert!(matches!(q.events[1], MainThreadEvent::RuntimeExitRequested(true)));
    assert!(matches!(q.events[2], MainThreadEvent::CursorLock(true)));
    assert!(matches!(q.events[3], MainThreadEvent::CursorLock(false)));
    assert!(matches!(q.events[4], MainThreadEvent::CloseWindow(Window(4))));
    assert!(matches!(q.events[5], MainThreadEvent::UpdateWindow(Window(4), WindowUpdateEvent::CursorVisibility(false))));
    assert!(matches!(q.events[6], MainThreadEvent::UpdateWindow(Window(4), WindowUpdateEvent::CursorVisibility(true))));
    match &q.events[7] {
        MainThreadEvent::UpdateWindow(Window(4), WindowUpdateEvent::UpdateTitle(t)) => assert_eq!("Hello", t),
        _ => panic!("expected a title update"),
    }
    assert!(matches!(q.events[8], MainThreadEvent::ForceSurfaceReconfigure(Window(4))));
    assert!(matches!(
        q.events[9],
        MainThreadEvent::UpdateWindow(Window(4), WindowUpdateEvent::UpdateCursor(cursor_icon::CursorIcon::Pointer))
    ));

    let m = manager_with_windows();
    let mut q = MainThreadQueue::new(true);
    m.reconfigure_all_windows(&mut q);
    assert_eq!(3, q.events.len());
    assert!(matches!(q.events[2], MainThreadEvent::ForceSurfaceReconfigure(Window(3))));
}

#[test]
fn window_size_limits_are_clamped() {
    let s = window_sizing((1280, 720), (0, 0), None);
    assert_eq!((1, 1), s.min_size);
    assert_eq!(None, s.max_size);
    assert_eq!((1280, 720), s.inner_size);

    let s = window_sizing((100, 100), (200, 50), Some((150, 80)));
    assert_eq!((200, 50), s.min_size);
    assert_eq!(Some((200, 80)), s.max_size);
    assert_eq!((200, 80), s.inner_size);
}

#[test]
fn present_mode_selection() {
    let all = vec![PresentMode::Fifo, PresentMode::FifoRelaxed, PresentMode::Mailbox, PresentMode::Immediate];
    assert_eq!(PresentMode::FifoRelaxed, get_best_present_mode(true, &all));
    assert_eq!(PresentMode::Mailbox, get_best_present_mode(false, &all));
    let basic = vec![PresentMode::Fifo, PresentMode::Immediate];
    assert_eq!(PresentMode::Fifo, get_best_present_mode(true, &basic));
    assert_eq!(PresentMode::Immediate, get_best_present_mode(false, &basic));
    assert_eq!(PresentMode::Fifo, get_best_present_mode(false, &vec![PresentMode::Fifo]));
}

#[test]
fn window_identifiers_round_trip() {
    let id = Window(17).to_identifier();
    assert_eq!(17, id.raw());
    assert_eq!(Ok(Window(17)), Window::try_from_identifier(id));
    assert_eq!(Err(0), Window::try_from_identifier(wutengine::input::WindowIdentifier::new(0)));
    assert_eq!(Err(1 << 40), Window::try_from_identifier(wutengine::input::WindowIdentifier::new(1 << 40)));
}

#[test]
fn surface_decisions() {
    assert!(config_change_reconfigures("wutengine.window.vsync"));
    assert!(config_change_reconfigures("wutengine.window.triple_buffering"));
    assert!(!config_change_reconfigures("wutengine.window.title"));

    let ok = surface_texture_outcome(SurfaceStatus::Success);
    assert!(ok.use_texture && !ok.reconfigure);
    let sub = surface_texture_outcome(SurfaceStatus::Suboptimal);
    assert!(sub.use_texture && sub.reconfigure);
    let occluded = surface_texture_outcome(SurfaceStatus::Occluded);
    assert!(!occluded.use_texture && !occluded.reconfigure);
    let outdated = surface_texture_outcome(SurfaceStatus::Outdated);
    assert!(!outdated.use_texture && outdated.reconfigure);

    let formats = vec![
        SurfaceFormatTraits { srgb: false, compressed: false },
        SurfaceFormatTraits { srgb: true, compressed: true },
        SurfaceFormatTraits { srgb: true, compressed: false },
    ];
    assert_eq!(2, pick_surface_format(&formats));
    assert_eq!(0, pick_surface_format(&vec![SurfaceFormatTraits { srgb: false, compressed: true }]));
}

#[test]
fn fullscreen_plans() {
    let mut m = WindowManager::new();
    m.refresh_displays(vec![
        MonitorSnapshot { existing: None, is_primary: false, name: None, size: (800, 600), refresh_rate_millihertz: 60000 },
        MonitorSnapshot { existing: None, is_primary: true, name: None, size: (1920, 1080), refresh_rate_millihertz: 60000 },
    ]);
    let displays = Display::available(&m);
    let (first, primary) = (displays[0], displays[1]);
    let gone = Display(99);
    assert_eq!(FullscreenPlan::Exclusive(first), plan_fullscreen(FullscreenRequest::Exclusive(first), true, &m));
    assert_eq!(FullscreenPlan::Borderless(Some(first)), plan_fullscreen(FullscreenRequest::Exclusive(first), false, &m));
    assert_eq!(FullscreenPlan::Borderless(Some(primary)), plan_fullscreen(FullscreenRequest::Exclusive(gone), true, &m));
    assert_eq!(FullscreenPlan::Borderless(None), plan_fullscreen(FullscreenRequest::Exclusive(gone), false, &m));
    assert_eq!(FullscreenPlan::Borderless(None), plan_fullscreen(FullscreenRequest::Borderless(BorderlessTarget::Current), true, &m));
    assert_eq!(
        FullscreenPlan::Borderless(Some(primary)),
        plan_fullscreen(FullscreenRequest::Borderless(BorderlessTarget::Primary), true, &m)
    );
    assert_eq!(
        FullscreenPlan::Borderless(None),
        plan_fullscreen(FullscreenRequest::Borderless(BorderlessTarget::Specific(gone)), true, &m)
    );
    let empty = WindowManager::new();
    assert_eq!(
        FullscreenPlan::Borderless(None),
        plan_fullscreen(FullscreenRequest::Borderless(BorderlessTarget::Primary), true, &empty)
    );
}

#[test]
fn frame_latency() {
    assert_eq!(2, wutengine::window::desired_maximum_frame_latency(true));
    assert_eq!(1, wutengine::window::desired_maximum_frame_latency(false));
}

#[test]
fn icon_updates_only_for_converted_icons() {
    let mut queue = MainThreadQueue::new(true);
    Window(1).set_icon(None, &mut queue);
    assert!(queue.events.is_empty());
    let icon = winit::window::Icon::from_rgba(vec![255; 4], 1, 1).unwrap();
    Window(1).set_icon(Some(icon), &mut queue);
    assert_eq!(1, queue.events.len());
    assert!(matches!(queue.events[0], MainThreadEvent::UpdateWindow(Window(1), WindowUpdateEvent::UpdateIcon(_))));
}
