use wutengine::schedule::{
    dependencies_satisfiable, Phase, PendingSystem, SystemId, SystemIdGenerator, SystemManager, SystemManifest,
};

fn system(id: u32, phase: Phase, deps: Vec<SystemId>, shared: Vec<u64>, exclusive: Vec<u64>) -> PendingSystem {
    PendingSystem {
        system_id: SystemId(id, phase),
        phase,
        name: format!("system {id}"),
        dependencies: deps,
        shared_borrows: shared,
        exclusive_borrows: exclusive,
    }
}

fn manifest(systems: Vec<PendingSystem>) -> SystemManifest {
    let mut m = SystemManifest::empty();
    m.merge(SystemManifest { systems });
    m
}

fn stage_ids(manager: &SystemManager, phase: Phase) -> Vec<Vec<u32>> {
    manager
        .find_sets_for_phase(phase)
        .map(|sets| sets.iter().map(|s| s.system_ids.iter().map(|id| id.id()).collect()).collect())
        .unwrap_or_default()
}

#[test]
fn conflicting_systems_go_to_separate_stages() {
    let mut manager = SystemManager::new();
    manager.queue_system(manifest(vec![
        system(1, Phase::Update, vec![], vec![10], vec![]),
        system(2, Phase::Update, vec![], vec![], vec![10]),
        system(3, Phase::Update, vec![SystemId(1, Phase::Update)], vec![20], vec![]),
    ]));
    assert!(manager.is_schedulable());
    manager.update_schedule();
    assert!(manager.pending_systems.is_none());
    assert_eq!(vec![vec![1], vec![2, 3]], stage_ids(&manager, Phase::Update));
    assert!(manager.find_sets_for_phase(Phase::FixedUpdate).is_none());
}

#[test]
fn shared_borrows_run_together() {
    let mut manager = SystemManager::new();
    manager.queue_system(manifest(vec![
        system(1, Phase::LateUpdate, vec![], vec![10, 11], vec![]),
        system(2, Phase::LateUpdate, vec![], vec![10], vec![12]),
        system(3, Phase::LateUpdate, vec![], vec![], vec![11]),
    ]));
    manager.update_schedule();
    assert_eq!(vec![vec![1, 2], vec![3]], stage_ids(&manager, Phase::LateUpdate));
}

#[test]
fn dependencies_run_in_earlier_stages() {
    let mut manager = SystemManager::new();
    manager.queue_system(manifest(vec![
        system(1, Phase::Update, vec![], vec![], vec![]),
        system(2, Phase::Update, vec![SystemId(1, Phase::Update)], vec![], vec![]),
        system(3, Phase::Update, vec![SystemId(2, Phase::Update)], vec![], vec![]),
        system(4, Phase::PreRender, vec![], vec![], vec![]),
    ]));
    manager.update_schedule();
    assert_eq!(vec![vec![1], vec![2], vec![3]], stage_ids(&manager, Phase::Update));
    assert_eq!(vec![vec![4]], stage_ids(&manager, Phase::PreRender));
}

#[test]
fn queued_systems_are_merged_into_the_schedule() {
    let mut manager = SystemManager::new();
    manager.queue_system(manifest(vec![system(1, Phase::Update, vec![], vec![], vec![5])]));
    manager.update_schedule();
    manager.queue_system(manifest(vec![system(2, Phase::Update, vec![], vec![5], vec![])]));
    manager.queue_system(manifest(vec![system(3, Phase::Update, vec![], vec![6], vec![])]));
    assert!(manager.is_schedulable());
    manager.update_schedule();
    assert_eq!(3, manager.current_manifest.systems.len());
    assert_eq!(vec![vec![1, 3], vec![2]], stage_ids(&manager, Phase::Update));
}

#[test]
fn missing_or_later_dependencies_are_not_schedulable() {
    let missing = manifest(vec![system(2, Phase::Update, vec![SystemId(1, Phase::Update)], vec![], vec![])]);
    assert!(!dependencies_satisfiable(&missing));
    let later = manifest(vec![
        system(1, Phase::Update, vec![SystemId(2, Phase::Update)], vec![], vec![]),
        system(2, Phase::Update, vec![], vec![], vec![]),
    ]);
    assert!(!dependencies_satisfiable(&later));
    let other_phase = manifest(vec![
        system(1, Phase::FixedUpdate, vec![], vec![], vec![]),
        system(2, Phase::Update, vec![SystemId(1, Phase::FixedUpdate)], vec![], vec![]),
    ]);
    assert!(!dependencies_satisfiable(&other_phase));
    let fine = manifest(vec![
        system(1, Phase::Update, vec![], vec![], vec![]),
        system(2, Phase::Update, vec![SystemId(1, Phase::Update)], vec![], vec![]),
    ]);
    assert!(dependencies_satisfiable(&fine));

    let mut manager = SystemManager::new();
    manager.queue_system(missing);
    assert!(!manager.is_schedulable());
}

#[test]
fn system_id_accessors() {
    let id = SystemId(42, Phase::PreRender);
    assert_eq!(42, id.id());
    assert_eq!(Phase::PreRender, id.phase());
}

#[test]
fn phase_names() {
    assert_eq!("Fixed Update", Phase::FixedUpdate.str());
    assert_eq!("Update", Phase::Update.str());
    assert_eq!("Late Update", Phase::LateUpdate.str());
    assert_eq!("Pre-render", Phase::PreRender.str());
}

#[test]
fn system_ids_count_up() {
    let mut ids = SystemIdGenerator::new();
    assert_eq!(SystemId(0, Phase::Update), SystemId::next(&mut ids, Phase::Update));
    assert_eq!(SystemId(1, Phase::PreRender), SystemId::next(&mut ids, Phase::PreRender));
    assert_eq!(2, ids.next);
    let mut last = SystemIdGenerator { next: u32::MAX };
    assert_eq!(SystemId(u32::MAX, Phase::Update), SystemId::next(&mut last, Phase::Update));
    assert_eq!(0, last.next);
}

#[test]
fn systems_placed_in_raw_id_order() {
    let mut manager = SystemManager::new();
    manager.queue_system(manifest(vec![
        system(3, Phase::Update, vec![], vec![], vec![10]),
        system(1, Phase::Update, vec![], vec![], vec![10]),
        system(2, Phase::Update, vec![], vec![11], vec![]),
    ]));
    manager.update_schedule();
    // System 1 comes first by ID and takes the first stage; 3 clashes with it and goes on
    assert_eq!(vec![vec![1, 2], vec![3]], stage_ids(&manager, Phase::Update));
}

#[test]
fn system_ids_order_by_raw_id() {
    assert!(SystemId(2, Phase::Update) > SystemId(1, Phase::PreRender));
    assert!(SystemId(0, Phase::LateUpdate) < SystemId(7, Phase::FixedUpdate));
    assert!(Phase::FixedUpdate < Phase::PreRender);
}
