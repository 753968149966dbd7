use ollama_bridge::supervisor::EngineState;
use ollama_bridge::supervisor::StartAction;
use ollama_bridge::supervisor::StopAction;
use ollama_bridge::supervisor::Supervisor;
use ollama_bridge::supervisor::apply_start_plan;
use ollama_bridge::supervisor::apply_stop_plan;
use ollama_bridge::prober::ProbeStep;
use ollama_bridge::prober::prober_step;
use ollama_bridge::prober::run_prober;
use ollama_bridge::watch::WatchEventKind;
use ollama_bridge::watch::WatchRegistry;
use ollama_bridge::watch::should_notify;
use ollama_bridge::events::BridgeError;

#[test]
fn start_reclaims_stale_instances() {
    let mut sup = Supervisor::new();
    assert_eq!(sup.current_state(), EngineState::NotStarted);
    // One stale engine process is left over from a crashed session.
    let mut table: Vec<u64> = vec![111];
    let plan = sup.begin_start(true, table.len()).unwrap();
    assert_eq!(
        plan,
        vec![StartAction::ReclaimStale, StartAction::AwaitCleanup, StartAction::SpawnEngine]
    );
    apply_start_plan(&mut table, &plan, 222);
    assert_eq!(table, vec![222]);
    sup.confirm_started(222);
    assert_eq!(sup.current_state(), EngineState::Running);
    assert_eq!(sup.current_pid(), Some(222));
}

#[test]
fn start_twice_leaves_one_engine() {
    let mut sup = Supervisor::new();
    let mut table: Vec<u64> = Vec::new();
    let plan = sup.begin_start(true, table.len()).unwrap();
    apply_start_plan(&mut table, &plan, 1);
    sup.confirm_started(1);
    // A second start with the first process still alive: the stale probe
    // sees it, the plan reclaims it, and exactly one engine remains.
    let second = sup.begin_start(true, table.len()).unwrap();
    assert_eq!(
        second,
        vec![StartAction::ReclaimStale, StartAction::AwaitCleanup, StartAction::SpawnEngine]
    );
    apply_start_plan(&mut table, &second, 2);
    assert_eq!(table, vec![2]);
    sup.confirm_started(2);
    assert_eq!(sup.current_pid(), Some(2));
}

#[test]
fn start_without_stale_spawns_directly() {
    let mut sup = Supervisor::new();
    let plan = sup.begin_start(true, 0).unwrap();
    assert_eq!(plan, vec![StartAction::SpawnEngine]);
}

#[test]
fn start_with_missing_binary_fails_fast() {
    let mut sup = Supervisor::new();
    let r = sup.begin_start(false, 0);
    assert!(matches!(r, Err(BridgeError::BinaryMissing)));
    assert_eq!(sup.current_state(), EngineState::NotStarted);
    assert_eq!(sup.current_pid(), None);
}

#[test]
fn stop_when_never_started_is_safe() {
    let mut sup = Supervisor::new();
    let plan = sup.begin_stop();
    assert_eq!(plan, vec![StopAction::ReclaimStale]);
    let mut table: Vec<u64> = Vec::new();
    apply_stop_plan(&mut table, &plan);
    assert!(table.is_empty());
    sup.confirm_stopped();
    assert_eq!(sup.current_state(), EngineState::Stopped);
}

#[test]
fn stop_terminates_children_engine_and_strays() {
    let mut sup = Supervisor::new();
    let plan = sup.begin_start(true, 0).unwrap();
    let mut table: Vec<u64> = Vec::new();
    apply_start_plan(&mut table, &plan, 7);
    sup.confirm_started(7);
    let stop = sup.begin_stop();
    assert_eq!(
        stop,
        vec![
            StopAction::TerminateChildren { pid: 7 },
            StopAction::TerminateEngine { pid: 7 },
            StopAction::AwaitExit { pid: 7 },
            StopAction::ReclaimStale,
        ]
    );
    apply_stop_plan(&mut table, &stop);
    assert!(table.is_empty());
    assert_eq!(sup.current_pid(), None);
}

#[test]
fn restart_swaps_the_handle() {
    let mut sup = Supervisor::new();
    let mut table: Vec<u64> = Vec::new();
    let plan = sup.begin_start(true, 0).unwrap();
    apply_start_plan(&mut table, &plan, 10);
    sup.confirm_started(10);
    // Restart: stop, pause, start again.
    let stop = sup.begin_stop();
    apply_stop_plan(&mut table, &stop);
    sup.confirm_stopped();
    let again = sup.begin_start(true, table.len()).unwrap();
    apply_start_plan(&mut table, &again, 11);
    sup.confirm_started(11);
    assert_eq!(table, vec![11]);
    assert_eq!(sup.current_pid(), Some(11));
}

#[test]
fn prober_succeeds_on_fifth_attempt() {
    let mut outcomes = vec![false, false, false, false, true];
    outcomes.extend(std::iter::repeat(false).take(25));
    let r = run_prober(&outcomes, 30);
    assert!(r.ready);
    assert_eq!(r.attempts, 5);
}

#[test]
fn prober_gives_up_after_all_attempts() {
    let outcomes = vec![false; 30];
    let r = run_prober(&outcomes, 30);
    assert!(!r.ready);
    assert_eq!(r.attempts, 30);
}

#[test]
fn prober_first_attempt_can_succeed() {
    let outcomes = vec![true, false, false];
    let r = run_prober(&outcomes, 3);
    assert!(r.ready);
    assert_eq!(r.attempts, 1);
}

#[test]
fn prober_single_step_decisions() {
    assert_eq!(prober_step(true, 1, 30), ProbeStep::Ready);
    assert_eq!(prober_step(false, 1, 30), ProbeStep::RetryAfterDelay);
    assert_eq!(prober_step(false, 30, 30), ProbeStep::GiveUp);
}

#[test]
fn watch_twice_keeps_one_entry() {
    let mut reg: WatchRegistry<u32> = WatchRegistry::new();
    let path = String::from("/tmp/books");
    if !reg.contains_path(&path) {
        reg.insert(path.clone(), 41);
    }
    // The second watch request finds the entry and creates nothing.
    assert!(reg.contains_path(&path));
    assert_eq!(reg.watched_count(), 1);
}

#[test]
fn unwatch_of_unknown_path_is_a_noop() {
    let mut reg: WatchRegistry<u32> = WatchRegistry::new();
    let path = String::from("/never/watched");
    assert_eq!(reg.remove(&path), None);
    assert_eq!(reg.watched_count(), 0);
}

#[test]
fn unwatch_returns_the_resource_to_dispose() {
    let mut reg: WatchRegistry<u32> = WatchRegistry::new();
    reg.insert(String::from("/a"), 1);
    reg.insert(String::from("/b"), 2);
    assert_eq!(reg.watched_count(), 2);
    assert_eq!(reg.remove(&String::from("/a")), Some(1));
    assert_eq!(reg.watched_count(), 1);
    assert!(!reg.contains_path(&String::from("/a")));
    assert!(reg.contains_path(&String::from("/b")));
}

#[test]
fn notify_only_on_settled_changes() {
    assert!(!should_notify(&Vec::new()));
    assert!(!should_notify(&vec![WatchEventKind::Ongoing]));
    assert!(should_notify(&vec![WatchEventKind::Ongoing, WatchEventKind::Settled]));
}
