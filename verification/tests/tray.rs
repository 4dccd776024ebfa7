use oh_tray::config::{AppConfig, AppItem};
use oh_tray::icon::get_menu_icon;
use oh_tray::menu::{
    find_action, make_group_entries, push_group_actions, Action, MenuEntry, TopEntry, EVENT_QUIT,
};
use oh_tray::process::{AppState, StartAction, StartEvent};
use oh_tray::shell::Host;
use oh_tray::tray::{auto_start, Tray};
use oh_tray::ui::{TitleMenu, UiEntry};

fn item(id: usize, address: &str, auto_start: bool, auto_open: bool) -> AppItem {
    AppItem {
        name: format!("app{}", id),
        home: String::new(),
        start: "run".to_string(),
        stop: String::new(),
        restart: String::new(),
        auto_start,
        address: address.to_string(),
        auto_open,
        uniq_id: id,
    }
}

fn config(groups: Vec<AppItem>) -> AppConfig {
    AppConfig { title: "My tray".to_string(), icon: String::new(), groups }
}

fn two() -> AppConfig {
    config(vec![item(1, "", true, false), item(2, "http://localhost", true, true)])
}

fn label(entry: &MenuEntry) -> String {
    match entry {
        MenuEntry::Label { text } => format!("label {}", text),
        MenuEntry::Item { id, text, enabled } => format!("item {} {} {}", id, text, enabled),
        MenuEntry::IconItem { id, text, enabled } => format!("icon {} {} {}", id, text, enabled),
        MenuEntry::Separator => "separator".to_string(),
    }
}

fn shows(entry: &UiEntry, running: bool, browser: bool) {
    assert_eq!(entry.start, !running);
    assert_eq!(entry.stop, running);
    assert_eq!(entry.restart, running);
    assert_eq!(entry.open, if browser { Some(running) } else { None });
    match &entry.title {
        TitleMenu::Submenu(Some(icon)) => assert_eq!(icon.rgba, get_menu_icon(running).rgba),
        TitleMenu::Submenu(None) => panic!("no mark"),
    }
}

#[test]
fn entries_follow_the_state() {
    for browser in [false, true] {
        let mut entry = UiEntry::new(browser);
        assert!(matches!(entry.title, TitleMenu::Submenu(None)));
        for running in [false, true, true, false] {
            entry.set_running(running);
            shows(&entry, running, browser);
        }
    }
}

#[test]
fn a_submenu_without_an_address_has_no_browser_entry() {
    let entries = make_group_entries(3, &item(1, "", true, false), false);
    let labels: Vec<String> = entries.iter().map(label).collect();
    assert_eq!(
        labels,
        vec![
            "label app1",
            "separator",
            "item 3_start Start true",
            "item 3_stop Stop false",
            "item 3_restart Restart false",
        ]
    );
}

#[test]
fn a_submenu_with_an_address_has_a_browser_entry() {
    let entries = make_group_entries(12, &item(1, "x", true, false), true);
    let labels: Vec<String> = entries.iter().map(label).collect();
    assert_eq!(
        labels,
        vec![
            "label app1",
            "separator",
            "item 12_start 启动 true",
            "item 12_stop 停止 false",
            "item 12_restart 重启 false",
            "separator",
            "icon 12_browser 打开 false",
        ]
    );
}

#[test]
fn the_menu_holds_title_applications_and_quit() {
    let tray = Tray::new(&two(), false);
    let labels: Vec<String> = tray
        .menu
        .iter()
        .map(|entry| match entry {
            TopEntry::Entry(entry) => label(entry),
            TopEntry::Group { name, entries } => format!("group {} {}", name, entries.len()),
        })
        .collect();
    assert_eq!(
        labels,
        vec![
            "label My tray",
            "separator",
            "group app1 5",
            "group app2 7",
            "separator",
            "item quit Quit true",
        ]
    );
    match Tray::new(&config(vec![]), true).menu.last() {
        Some(TopEntry::Entry(entry)) => assert_eq!(label(entry), "item quit 退出 true"),
        _ => panic!("no last entry"),
    }
}

#[test]
fn choices_lead_to_their_actions() {
    let tray = Tray::new(&two(), false);
    let action = |id: &str| tray.on_choice(id).action;
    assert_eq!(action("0_start"), Some(Action::Start(0)));
    assert_eq!(action("0_stop"), Some(Action::Stop(0)));
    assert_eq!(action("0_restart"), Some(Action::Restart(0)));
    assert_eq!(action("0_browser"), None);
    assert_eq!(action("1_start"), Some(Action::Start(1)));
    assert_eq!(action("1_browser"), Some(Action::OpenBrowser(1)));
    assert_eq!(action("2_start"), None);
    assert_eq!(action("00_start"), None);
    assert_eq!(action(""), None);
    assert_eq!(action("quit"), Some(Action::StopAll));
}

#[test]
fn only_quit_ends_the_program() {
    let tray = Tray::new(&two(), false);
    assert!(tray.on_choice(EVENT_QUIT).exit);
    assert!(!tray.on_choice("0_stop").exit);
    assert!(!tray.on_choice("quit ").exit);
    assert!(!tray.on_choice("unknown").exit);
}

#[test]
fn every_entry_with_an_identifier_has_an_action_of_its_own() {
    let groups: Vec<AppItem> = (0..12).map(|i| item(i + 1, "x", true, true)).collect();
    let tray = Tray::new(&config(groups), false);
    let mut seen: Vec<Action> = vec![];
    for entry in &tray.menu {
        if let TopEntry::Group { entries, .. } = entry {
            for entry in entries {
                let id = match entry {
                    MenuEntry::Item { id, .. } => id,
                    MenuEntry::IconItem { id, .. } => id,
                    _ => continue,
                };
                let action = tray.on_choice(id).action.unwrap();
                assert!(!seen.contains(&action));
                seen.push(action);
            }
        }
    }
    assert_eq!(seen.len(), 48);
}

#[test]
fn the_last_action_under_an_identifier_counts() {
    let mut actions: Vec<(String, Action)> = vec![];
    push_group_actions(&mut actions, 0, &item(1, "", true, false));
    assert_eq!(actions.len(), 3);
    actions.push(("0_stop".to_string(), Action::StopAll));
    assert_eq!(find_action(&actions, "0_stop"), Some(Action::StopAll));
    assert_eq!(find_action(&actions, "0_start"), Some(Action::Start(0)));
    assert_eq!(find_action(&actions, "0_browser"), None);
}

#[test]
fn a_new_tray_shows_nothing_running() {
    let tray = Tray::new(&two(), false);
    assert_eq!(tray.ui_map.len(), 2);
    shows(&tray.ui_map[&1], false, false);
    shows(&tray.ui_map[&2], false, true);
}

#[test]
fn applications_with_one_number_share_the_entries_of_the_last() {
    let tray = Tray::new(&config(vec![item(1, "x", true, true), item(1, "", true, true)]), false);
    assert_eq!(tray.ui_map.len(), 1);
    shows(&tray.ui_map[&1], false, false);
}

#[test]
fn news_change_one_application() {
    let mut tray = Tray::new(&two(), false);
    assert!(tray.on_notice((2, true)));
    shows(&tray.ui_map[&1], false, false);
    shows(&tray.ui_map[&2], true, true);
    assert!(!tray.on_notice((3, true)));
    assert_eq!(tray.ui_map.len(), 2);
    assert!(tray.on_notice((2, false)));
    shows(&tray.ui_map[&2], false, true);
}

#[test]
fn the_menu_shows_what_runs() {
    let cfg = two();
    let host = Host { windows: false, script_id: 0 };
    let mut tray = Tray::new(&cfg, false);
    let mut state: AppState<u32> = AppState::new();
    let mut news: Vec<(usize, bool)> = vec![];
    for (i, event) in [
        (0usize, StartEvent::Begin),
        (0, StartEvent::Spawned(1)),
        (1, StartEvent::Begin),
        (1, StartEvent::Spawned(2)),
        (0, StartEvent::Begin),
        (0, StartEvent::Ended),
        (0, StartEvent::SpawnFailed),
    ] {
        match cfg.groups[i].a_start(&mut state, event, host) {
            StartAction::Watch(notice) => news.push(notice),
            StartAction::Finish(notice) => news.push(notice),
            _ => {}
        }
    }
    assert_eq!(news, vec![(1, true), (2, true), (1, false)]);
    for notice in news {
        tray.on_notice(notice);
    }
    for item in &cfg.groups {
        assert_eq!(tray.ui_map[&item.uniq_id].stop, state.procs.contains_key(&item.uniq_id));
    }
    assert!(tray.ui_map[&2].stop);
    let step = cfg.groups[1].a_stop(&mut state);
    tray.on_notice(step.notice);
    assert!(!tray.ui_map[&2].stop);
}

#[test]
fn marks_decide_what_comes_up() {
    let cfg = config(vec![
        item(1, "x", true, true),
        item(2, "x", false, true),
        item(3, "x", true, false),
        item(4, "", true, true),
    ]);
    assert_eq!(
        auto_start(&cfg),
        vec![
            Action::Start(0),
            Action::OpenBrowser(0),
            Action::Start(2),
            Action::Start(3),
            Action::OpenBrowser(3),
        ]
    );
    assert!(auto_start(&config(vec![])).is_empty());
}
