use wutengine::logger::{subsystem_from_target, subsystem_level, LevelFilter, SubsystemLoggers};

#[test]
fn engine_targets_are_internal() {
    assert_eq!((true, "window"), subsystem_from_target("wutengine::window::manager"));
    assert_eq!((true, "runtime"), subsystem_from_target("wutengine::runtime"));
    assert_eq!((true, "graphics"), subsystem_from_target("wutengine_graphics::mesh"));
    assert_eq!((true, "input"), subsystem_from_target("wutengine_input"));
}

#[test]
fn known_external_crates_are_internal() {
    assert_eq!((true, "naga"), subsystem_from_target("naga::front::wgsl"));
    assert_eq!((true, "wgpu_hal"), subsystem_from_target("wgpu_hal"));
    assert_eq!((true, "gilrs"), subsystem_from_target("gilrs::ff"));
    assert_eq!((true, "wgpu_core"), subsystem_from_target("wgpu_core::device"));
    assert_eq!((true, "symphonia_core"), subsystem_from_target("symphonia_core::io"));
}

#[test]
fn other_targets_are_external() {
    assert_eq!((false, "hyper"), subsystem_from_target("hyper::client::conn"));
    assert_eq!((false, "my_game"), subsystem_from_target("my_game"));
    assert_eq!((false, "wutengine"), subsystem_from_target("wutengine"));
    assert_eq!((false, "a:b"), subsystem_from_target("a:b::c"));
    assert_eq!((false, ""), subsystem_from_target(""));
}

#[test]
fn subsystem_levels() {
    assert_eq!(LevelFilter::Trace, subsystem_level(Some(LevelFilter::Trace), true, LevelFilter::Info, LevelFilter::Warn));
    assert_eq!(LevelFilter::Info, subsystem_level(None, true, LevelFilter::Info, LevelFilter::Warn));
    assert_eq!(LevelFilter::Warn, subsystem_level(None, false, LevelFilter::Info, LevelFilter::Warn));
}

#[test]
fn one_logger_per_subsystem() {
    let mut loggers: SubsystemLoggers<u32> = SubsystemLoggers::new();
    assert!(loggers.get("config").is_none());
    assert!(loggers.insert_if_absent("config", 1));
    assert!(loggers.insert_if_absent("window", 2));
    assert!(!loggers.insert_if_absent("config", 3));
    assert_eq!(Some(&1), loggers.get("config"));
    assert_eq!(Some(&2), loggers.get("window"));
    assert_eq!(2, loggers.loggers.len());
}
