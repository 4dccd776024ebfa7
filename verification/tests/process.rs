use oh_tray::config::AppItem;
use oh_tray::process::{
    watch, AppState, PollStatus, StartAction, StartEvent, WatchStep, POLL_INTERVAL_MS,
    RESTART_PAUSE_MS,
};
use oh_tray::shell::Host;

const HOST: Host = Host { windows: false, script_id: 0 };

fn item(id: usize, home: &str) -> AppItem {
    AppItem {
        name: "app".to_string(),
        home: home.to_string(),
        start: "run it".to_string(),
        stop: String::new(),
        restart: String::new(),
        auto_start: true,
        address: String::new(),
        auto_open: false,
        uniq_id: id,
    }
}

#[test]
fn a_start_asks_for_the_process() {
    let mut state: AppState<u32> = AppState::new();
    match item(1, "").a_start(&mut state, StartEvent::Begin, HOST) {
        StartAction::Spawn(plan) => {
            assert_eq!(plan.shell.program, "sh");
            assert_eq!(plan.shell.args, vec!["-c".to_string(), "run it".to_string()]);
            assert!(plan.current_dir.is_none());
        }
        _ => panic!("no process asked for"),
    }
    assert!(state.procs.is_empty());
}

#[test]
fn a_start_asks_for_the_home_directory() {
    let mut state: AppState<u32> = AppState::new();
    match item(1, "/srv").a_start(&mut state, StartEvent::Begin, HOST) {
        StartAction::Spawn(plan) => assert_eq!(plan.current_dir, Some("/srv".to_string())),
        _ => panic!("no process asked for"),
    }
}

#[test]
fn a_start_on_windows_asks_for_a_script() {
    let mut state: AppState<u32> = AppState::new();
    let host = Host { windows: true, script_id: 9 };
    match item(1, "").a_start(&mut state, StartEvent::Begin, host) {
        StartAction::Spawn(plan) => {
            assert_eq!(plan.shell.program, "wscript.exe");
            assert_eq!(plan.shell.script.unwrap().file_name, "oh_tray_9.vbs");
        }
        _ => panic!("no process asked for"),
    }
}

#[test]
fn a_start_runs_its_course() {
    let mut state: AppState<u32> = AppState::new();
    let app = item(4, "");
    let action = app.a_start(&mut state, StartEvent::Spawned(77), HOST);
    assert!(matches!(action, StartAction::Watch((4, true))));
    assert_eq!(state.procs.get(&4), Some(&77));
    let action = app.a_start(&mut state, StartEvent::Ended, HOST);
    assert!(matches!(action, StartAction::Finish((4, false))));
    assert!(state.procs.is_empty());
}

#[test]
fn a_running_application_is_not_started_again() {
    let mut state: AppState<u32> = AppState::new();
    let app = item(4, "");
    app.a_start(&mut state, StartEvent::Spawned(77), HOST);
    let action = app.a_start(&mut state, StartEvent::Begin, HOST);
    assert!(matches!(action, StartAction::AlreadyRunning));
    assert_eq!(state.procs.get(&4), Some(&77));
    let action = item(5, "").a_start(&mut state, StartEvent::Begin, HOST);
    assert!(matches!(action, StartAction::Spawn(_)));
}

#[test]
fn a_failed_start_changes_nothing() {
    let mut state: AppState<u32> = AppState::new();
    item(9, "").a_start(&mut state, StartEvent::Spawned(1), HOST);
    let action = item(4, "").a_start(&mut state, StartEvent::SpawnFailed, HOST);
    assert!(matches!(action, StartAction::GiveUp));
    assert_eq!(state.procs.len(), 1);
}

#[test]
fn the_watch_ends_with_the_process() {
    assert_eq!(watch(PollStatus::Running), WatchStep::Rest(POLL_INTERVAL_MS));
    assert_eq!(watch(PollStatus::Exited), WatchStep::Leave);
    assert_eq!(watch(PollStatus::Failed), WatchStep::Leave);
    assert_eq!(POLL_INTERVAL_MS, 200);
}

#[test]
fn a_stop_takes_the_process_out() {
    let mut state: AppState<u32> = AppState::new();
    item(4, "").a_start(&mut state, StartEvent::Spawned(77), HOST);
    item(5, "").a_start(&mut state, StartEvent::Spawned(78), HOST);
    let step = item(4, "").a_stop(&mut state);
    assert_eq!(step.kill, Some(77));
    assert_eq!(step.notice, (4, false));
    assert_eq!(state.procs.get(&4), None);
    assert_eq!(state.procs.get(&5), Some(&78));
}

#[test]
fn a_second_stop_finds_nothing() {
    let mut state: AppState<u32> = AppState::new();
    let step = item(4, "").a_stop(&mut state);
    assert_eq!(step.kill, None);
    assert_eq!(step.notice, (4, false));
}

#[test]
fn a_restart_is_a_stop_and_a_start() {
    let mut state: AppState<u32> = AppState::new();
    let app = item(4, "");
    app.a_start(&mut state, StartEvent::Spawned(77), HOST);
    let step = app.restart(&mut state);
    assert_eq!(step.stop.kill, Some(77));
    assert_eq!(step.stop.notice, (4, false));
    assert_eq!(step.pause_ms, RESTART_PAUSE_MS);
    assert_eq!(RESTART_PAUSE_MS, 200);
    let action = app.a_start(&mut state, step.start, HOST);
    assert!(matches!(action, StartAction::Spawn(_)));
}

#[test]
fn stopping_all_lists_every_process_once() {
    let mut state: AppState<u32> = AppState::new();
    for id in [3usize, 1, 2] {
        item(id, "").a_start(&mut state, StartEvent::Spawned(id as u32 + 10), HOST);
    }
    let mut list: Vec<(usize, u32)> = state.stop_all().iter().map(|p| (p.0, *p.1)).collect();
    list.sort();
    assert_eq!(list, vec![(1, 11), (2, 12), (3, 13)]);
    assert_eq!(state.procs.len(), 3);
}

#[test]
fn killing_all_empties_the_table() {
    let mut state: AppState<u32> = AppState::new();
    for id in [3usize, 1, 2] {
        item(id, "").a_start(&mut state, StartEvent::Spawned(0), HOST);
    }
    let ids: Vec<usize> = state.stop_all().iter().map(|p| p.0).collect();
    for id in ids {
        item(id, "").a_start(&mut state, StartEvent::Ended, HOST);
    }
    assert!(state.procs.is_empty());
}
