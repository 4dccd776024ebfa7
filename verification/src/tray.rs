//! The tray as a whole: its menu, what choosing an entry does, and what the menu shows of the
//! applications.

use std::collections::HashMap;
use vstd::prelude::*;

use crate::config::{AppConfig, AppItem};
use crate::icon::menu_icon;
use crate::locale::lang_text;
use crate::menu::{
    action_under, actions_view, entries_view, find_action, group_actions, group_entries, id_of,
    in_language, law_submenu_of_an_application, make_group_entries, push_group_actions, top_view,
    Action, MenuEntry, MenuEntryView, TopEntry, TopEntryView, EVENT_QUIT,
};
use crate::process::Notice;
use crate::text::decimal_text;
use crate::ui::{TitleMenu, UiEntry};

verus! {

broadcast use vstd::std_specs::hash::group_hash_axioms;

/// The tray.
#[derive(Debug)]
pub struct Tray {
    /// The menu as it is first shown.
    pub menu: Vec<TopEntry>,
    /// What choosing an entry does, under the identifier of the entry.
    pub actions: Vec<(String, Action)>,
    /// The entries of each application, under its number.
    pub ui_map: HashMap<usize, UiEntry>,
}

/// What follows when an entry was chosen.
#[derive(Clone, Copy, Debug, PartialEq, Eq, Structural)]
pub struct MenuOutcome {
    /// What is done, if anything.
    pub action: Option<Action>,
    /// Whether the program ends after that.
    pub exit: bool,
}

/// The submenus of the applications.
pub open spec fn group_menus(groups: Seq<AppItem>, zh: bool) -> Seq<TopEntryView> {
    Seq::new(
        groups.len(),
        |i: int|
            TopEntryView::Group {
                name: groups[i].name@,
                entries: group_entries(i as usize, groups[i], zh),
            },
    )
}

/// The menu: the title, the submenus of the applications, and the entry that ends the program.
pub open spec fn tray_menu(cfg: AppConfig, zh: bool) -> Seq<TopEntryView> {
    seq![
        TopEntryView::Entry(MenuEntryView::Label { text: cfg.title@ }),
        TopEntryView::Entry(MenuEntryView::Separator),
    ] + group_menus(cfg.groups@, zh) + seq![
        TopEntryView::Entry(MenuEntryView::Separator),
        TopEntryView::Entry(
            MenuEntryView::Item {
                id: id_of(Action::StopAll),
                text: in_language(zh, "退出"@, "Quit"@),
                enabled: true,
            },
        ),
    ]
}

/// The menu shows the configuration: the title, a line, one submenu for each application, in their
/// order and under their names, a line, and the entry that ends the program. The submenu of the
/// application at place `i` holds the application's name, a line, and the entries to start, to
/// stop and to restart it; where the application has an address, also a line and the entry that
/// opens a browser. The identifiers of these entries begin with `i`.
pub proof fn law_menu_shows_the_configuration(menu: Seq<TopEntry>, cfg: AppConfig, zh: bool)
    requires
        top_view(menu) == tray_menu(cfg, zh),
        cfg.groups@.len() <= usize::MAX,
    ensures
        menu.len() == cfg.groups@.len() + 4,
        menu[0] matches TopEntry::Entry(MenuEntry::Label { text }) && text@ == cfg.title@,
        menu[1] == TopEntry::Entry(MenuEntry::Separator),
        forall|k: int|
            #![trigger menu[k]]
            2 <= k < menu.len() - 2 ==> {
                &&& menu[k] matches TopEntry::Group { name, entries }
                &&& name@ == cfg.groups@[k - 2].name@
                &&& entries@.len() == (if cfg.groups@[k - 2].address@.len() == 0 {
                    5int
                } else {
                    7int
                })
                &&& entries@[0] matches MenuEntry::Label { text } && text@
                    == cfg.groups@[k - 2].name@
                &&& entries@[1] is Separator
                &&& cfg.groups@[k - 2].address@.len() > 0 ==> entries@[5] is Separator
            },
        forall|k: int|
            #![trigger menu[k]]
            2 <= k < menu.len() - 2 ==> (menu[k]->entries@[2] matches
                MenuEntry::Item { id, text, enabled } && id@ == decimal_text((k - 2) as nat)
                + "_start"@ && text@ == (if zh {
                "启动"@
            } else {
                "Start"@
            }) && enabled),
        forall|k: int|
            #![trigger menu[k]]
            2 <= k < menu.len() - 2 ==> (menu[k]->entries@[3] matches
                MenuEntry::Item { id, text, enabled } && id@ == decimal_text((k - 2) as nat)
                + "_stop"@ && text@ == (if zh {
                "停止"@
            } else {
                "Stop"@
            }) && !enabled),
        forall|k: int|
            #![trigger menu[k]]
            2 <= k < menu.len() - 2 ==> (menu[k]->entries@[4] matches
                MenuEntry::Item { id, text, enabled } && id@ == decimal_text((k - 2) as nat)
                + "_restart"@ && text@ == (if zh {
                "重启"@
            } else {
                "Restart"@
            }) && !enabled),
        forall|k: int|
            #![trigger menu[k]]
            2 <= k < menu.len() - 2 && cfg.groups@[k - 2].address@.len() > 0 ==> (
            menu[k]->entries@[6] matches
                MenuEntry::IconItem { id, text, enabled } && id@ == decimal_text((k - 2) as nat)
                + "_browser"@ && text@ == (if zh {
                "打开"@
            } else {
                "Browser"@
            }) && !enabled),
        menu[menu.len() - 2] == TopEntry::Entry(MenuEntry::Separator),
        menu[menu.len() - 1] matches TopEntry::Entry(
            MenuEntry::Item { id, text, enabled },
        ) && id@ == "quit"@ && text@ == (if zh {
            "退出"@
        } else {
            "Quit"@
        }) && enabled,
{
    let groups = cfg.groups@;
    let n = menu.len() as int;
    let shown = tray_menu(cfg, zh);
    assert(top_view(menu).len() == n && shown.len() == groups.len() + 4);
    assert forall|k: int| 0 <= k < n implies (#[trigger] menu[k])@ == shown[k] by {
        assert(top_view(menu)[k] == menu[k]@);
    }
    assert(menu[0]@ == shown[0] && menu[1]@ == shown[1]);
    assert(menu[n - 2]@ == shown[n - 2] && menu[n - 1]@ == shown[n - 1]);
    assert forall|k: int| 2 <= k < n - 2 implies ({
        let own = group_entries((k - 2) as usize, groups[k - 2], zh);
        &&& #[trigger] menu[k] matches TopEntry::Group { name, entries }
        &&& name@ == groups[k - 2].name@
        &&& entries@.len() == own.len()
        &&& entries@[0]@ == own[0] && entries@[1]@ == own[1] && entries@[2]@ == own[2]
        &&& entries@[3]@ == own[3] && entries@[4]@ == own[4]
        &&& own.len() > 5 ==> entries@[5]@ == own[5] && entries@[6]@ == own[6]
    }) by {
        let own = group_entries((k - 2) as usize, groups[k - 2], zh);
        law_submenu_of_an_application((k - 2) as usize, groups[k - 2], zh);
        assert(menu[k]@ == shown[k]);
        assert(shown[k] == group_menus(groups, zh)[k - 2]);
        let entries = menu[k]->entries;
        assert(entries_view(entries@) == own);
        assert(forall|p: int|
            0 <= p < own.len() ==> (#[trigger] entries@[p])@ == entries_view(entries@)[p]);
    }
}

/// The actions of the applications, in the order of the configuration.
pub open spec fn groups_actions(groups: Seq<AppItem>) -> Seq<(Seq<char>, Action)>
    decreases groups.len(),
{
    if groups.len() == 0 {
        seq![]
    } else {
        groups_actions(groups.drop_last()) + group_actions(
            (groups.len() - 1) as usize,
            groups.last(),
        )
    }
}

/// The actions of the menu.
pub open spec fn tray_actions(groups: Seq<AppItem>) -> Seq<(Seq<char>, Action)> {
    groups_actions(groups).push((id_of(Action::StopAll), Action::StopAll))
}

/// The numbers of the applications, each with whether the application can be opened in a
/// browser. Where applications share a number, the last one counts.
pub open spec fn browsers(groups: Seq<AppItem>) -> Map<usize, bool>
    decreases groups.len(),
{
    if groups.len() == 0 {
        Map::empty()
    } else {
        browsers(groups.drop_last()).insert(
            groups.last().uniq_id,
            groups.last().address@.len() > 0,
        )
    }
}

/// The menu knows the numbers of the configured applications and no others, and of applications
/// that share a number it is the last one that decides whether there is a browser to open.
pub proof fn law_last_application_of_a_number_counts(groups: Seq<AppItem>)
    ensures
        forall|id: usize| #[trigger]
            browsers(groups).contains_key(id) <==> exists|i: int|
                0 <= i < groups.len() && (#[trigger] groups[i]).uniq_id == id,
        forall|i: int|
            0 <= i < groups.len() && (forall|j: int|
                i < j < groups.len() ==> (#[trigger] groups[j]).uniq_id != groups[i].uniq_id)
                ==> browsers(groups)[(#[trigger] groups[i]).uniq_id] == (groups[i].address@.len()
                > 0),
    decreases groups.len(),
{
    if groups.len() > 0 {
        let last = groups.len() - 1;
        let rest = groups.drop_last();
        law_last_application_of_a_number_counts(rest);
        assert(forall|i: int| 0 <= i < last ==> #[trigger] groups[i] == rest[i]);
        assert forall|id: usize| #[trigger] browsers(groups).contains_key(id) <==> exists|i: int|
            0 <= i < groups.len() && (#[trigger] groups[i]).uniq_id == id by {
            if browsers(rest).contains_key(id) {
                let i = choose|i: int| 0 <= i < rest.len() && (#[trigger] rest[i]).uniq_id == id;
                assert(groups[i].uniq_id == id);
            }
            if id == groups[last].uniq_id {
                assert(groups.last() == groups[last]);
            }
            if exists|i: int| 0 <= i < groups.len() && (#[trigger] groups[i]).uniq_id == id {
                let i = choose|i: int|
                    0 <= i < groups.len() && (#[trigger] groups[i]).uniq_id == id;
                if i < last {
                    assert(rest[i].uniq_id == id);
                }
            }
        }
        assert forall|i: int|
            0 <= i < groups.len() && (forall|j: int|
                i < j < groups.len() ==> (#[trigger] groups[j]).uniq_id
                    != groups[i].uniq_id) implies browsers(groups)[(#[trigger] groups[i]).uniq_id]
            == (groups[i].address@.len() > 0) by {
            if i < last {
                assert(groups[last].uniq_id != groups[i].uniq_id);
                assert(forall|j: int|
                    i < j < rest.len() ==> (#[trigger] rest[j]).uniq_id == groups[j].uniq_id);
                assert(rest[i] == groups[i]);
            }
        }
    }
}

/// What is done for one application when the tray comes up.
pub open spec fn launches_of(index: usize, item: AppItem) -> Seq<Action> {
    if !item.auto_start {
        seq![]
    } else if !item.auto_open {
        seq![Action::Start(index)]
    } else {
        seq![Action::Start(index), Action::OpenBrowser(index)]
    }
}

/// What is done when the tray comes up: the applications that are marked for it are started, in
/// the order of the configuration, and a browser is opened right after the start where the
/// application is marked for that too.
pub open spec fn launches(groups: Seq<AppItem>) -> Seq<Action>
    decreases groups.len(),
{
    if groups.len() == 0 {
        seq![]
    } else {
        launches(groups.drop_last()) + launches_of((groups.len() - 1) as usize, groups.last())
    }
}

/// What is done when the tray comes up is fixed by the marks: nothing but starts of applications
/// that are marked for it, in the order of the configuration, and browsers, each right behind the
/// start of an application that is marked for both. Nothing is done twice, and no application
/// that is marked is passed over.
pub proof fn law_marks_fix_what_comes_up(groups: Seq<AppItem>)
    requires
        groups.len() <= usize::MAX,
    ensures
        forall|k: int|
            0 <= k < launches(groups).len() ==> match #[trigger] launches(groups)[k] {
                Action::Start(i) => i < groups.len() && groups[i as int].auto_start,
                Action::OpenBrowser(i) => i < groups.len() && groups[i as int].auto_start
                    && groups[i as int].auto_open && k > 0,
                _ => false,
            },
        forall|j: int, k: int|
            0 <= j < k < launches(groups).len() ==> match (
                #[trigger] launches(groups)[j],
                #[trigger] launches(groups)[k],
            ) {
                (Action::Start(a), Action::Start(b)) => a < b,
                (Action::Start(a), Action::OpenBrowser(b)) => if k == j + 1 {
                    a == b
                } else {
                    a < b
                },
                (Action::OpenBrowser(a), Action::Start(b)) => a < b,
                (Action::OpenBrowser(a), Action::OpenBrowser(b)) => a < b && k > j + 1,
                _ => false,
            },
        launches(groups).no_duplicates(),
        forall|i: int|
            0 <= i < groups.len() && (#[trigger] groups[i]).auto_start ==> launches(
                groups,
            ).contains(Action::Start(i as usize)),
        forall|i: int|
            0 <= i < groups.len() && (#[trigger] groups[i]).auto_start && groups[i].auto_open
                ==> launches(groups).contains(Action::OpenBrowser(i as usize)),
    decreases groups.len(),
{
    if groups.len() > 0 {
        let last = groups.len() - 1;
        let rest = groups.drop_last();
        let before = launches(rest);
        let own = launches_of(last as usize, groups.last());
        let all = launches(groups);
        law_marks_fix_what_comes_up(rest);
        assert(all == before + own);
        assert(forall|k: int| 0 <= k < before.len() ==> all[k] == #[trigger] before[k]);
        assert(forall|k: int|
            before.len() <= k < all.len() ==> #[trigger] all[k] == own[k - before.len()]);
        assert(forall|i: int| 0 <= i < last ==> #[trigger] groups[i] == rest[i]);
        assert forall|action: Action| before.contains(action) implies #[trigger] all.contains(
            action,
        ) by {
            let k = choose|k: int| 0 <= k < before.len() && before[k] == action;
            assert(all[k] == action);
        }
        if groups.last().auto_start {
            assert(all[before.len() as int] == Action::Start(last as usize));
            if groups.last().auto_open {
                assert(all[before.len() as int + 1] == Action::OpenBrowser(last as usize));
            }
        }
    }
}

/// Lists what is done when the tray comes up.
pub fn auto_start(cfg: &AppConfig) -> (list: Vec<Action>)
    ensures
        list@ == launches(cfg.groups@),
        forall|k: int|
            0 <= k < list@.len() ==> match #[trigger] list@[k] {
                Action::Start(i) => i < cfg.groups@.len() && cfg.groups@[i as int].auto_start,
                Action::OpenBrowser(i) => i < cfg.groups@.len() && cfg.groups@[i as int].auto_start
                    && cfg.groups@[i as int].auto_open && k > 0,
                _ => false,
            },
        forall|j: int, k: int|
            0 <= j < k < list@.len() ==> match (#[trigger] list@[j], #[trigger] list@[k]) {
                (Action::Start(a), Action::Start(b)) => a < b,
                (Action::Start(a), Action::OpenBrowser(b)) => if k == j + 1 {
                    a == b
                } else {
                    a < b
                },
                (Action::OpenBrowser(a), Action::Start(b)) => a < b,
                (Action::OpenBrowser(a), Action::OpenBrowser(b)) => a < b && k > j + 1,
                _ => false,
            },
        list@.no_duplicates(),
        forall|i: int|
            0 <= i < cfg.groups@.len() && (#[trigger] cfg.groups@[i]).auto_start ==> list@.contains(
                Action::Start(i as usize),
            ),
        forall|i: int|
            0 <= i < cfg.groups@.len() && (#[trigger] cfg.groups@[i]).auto_start
                && cfg.groups@[i].auto_open ==> list@.contains(Action::OpenBrowser(i as usize)),
{
    let mut list: Vec<Action> = Vec::new();
    for i in 0..cfg.groups.len()
        invariant
            list@ == launches(cfg.groups@.take(i as int)),
    {
        let ghost before = list@;
        let item = &cfg.groups[i];
        proof {
            assert(cfg.groups@.take(i + 1).drop_last() =~= cfg.groups@.take(i as int));
        }
        if item.auto_start {
            list.push(Action::Start(i));
            if item.auto_open {
                list.push(Action::OpenBrowser(i));
            }
        }
        proof {
            assert(list@ =~= before + launches_of(i, *item));
        }
    }
    proof {
        assert(cfg.groups@.take(cfg.groups@.len() as int) =~= cfg.groups@);
        law_marks_fix_what_comes_up(cfg.groups@);
    }
    list
}

/// What the menu shows after it was told a piece of news: applications that it does not know are
/// passed over.
pub open spec fn shown_after_notice(shown: Map<usize, bool>, notice: Notice) -> Map<usize, bool> {
    if shown.contains_key(notice.0) {
        shown.insert(notice.0, notice.1)
    } else {
        shown
    }
}

impl Tray {
    /// Whether the entries of every application agree with each other on whether it is running.
    pub open spec fn wf(self) -> bool {
        forall|id: usize| #[trigger]
            self.ui_map@.contains_key(id) ==> self.ui_map@[id].shows(self.ui_map@[id].stop)
    }

    /// What the menu shows: of each application that it knows, whether it is running.
    pub open spec fn shown(self) -> Map<usize, bool> {
        self.ui_map@.map_values(|entry: UiEntry| entry.stop)
    }

    /// Builds the tray of a configuration. It shows that nothing is running yet.
    pub fn new(cfg: &AppConfig, zh: bool) -> (tray: Tray)
        ensures
            top_view(tray.menu@) == tray_menu(*cfg, zh),
            actions_view(tray.actions@) == tray_actions(cfg.groups@),
            tray.ui_map@.dom() == browsers(cfg.groups@).dom(),
            forall|id: usize| #[trigger]
                tray.ui_map@.contains_key(id) ==> tray.ui_map@[id].shows(false)
                    && tray.ui_map@[id].open is Some == browsers(cfg.groups@)[id],
            tray.wf(),
            tray.menu@.len() == cfg.groups@.len() + 4,
            tray.menu@[0] matches TopEntry::Entry(MenuEntry::Label { text }) && text@ == cfg.title@,
            tray.menu@[1] == TopEntry::Entry(MenuEntry::Separator),
            forall|k: int|
                #![trigger tray.menu@[k]]
                2 <= k < tray.menu@.len() - 2 ==> {
                    &&& tray.menu@[k] matches TopEntry::Group { name, entries }
                    &&& name@ == cfg.groups@[k - 2].name@
                    &&& entries@.len() == (if cfg.groups@[k - 2].address@.len() == 0 {
                        5int
                    } else {
                        7int
                    })
                    &&& entries@[0] matches MenuEntry::Label { text } && text@
                        == cfg.groups@[k - 2].name@
                    &&& entries@[1] is Separator
                    &&& cfg.groups@[k - 2].address@.len() > 0 ==> entries@[5] is Separator
                },
            forall|k: int|
                #![trigger tray.menu@[k]]
                2 <= k < tray.menu@.len() - 2 ==> (tray.menu@[k]->entries@[2] matches
                    MenuEntry::Item { id: own, text, enabled } && own@ == decimal_text(
                    (k - 2) as nat,
                ) + "_start"@ && text@ == (if zh {
                    "启动"@
                } else {
                    "Start"@
                }) && enabled),
            forall|k: int|
                #![trigger tray.menu@[k]]
                2 <= k < tray.menu@.len() - 2 ==> (tray.menu@[k]->entries@[3] matches
                    MenuEntry::Item { id: own, text, enabled } && own@ == decimal_text(
                    (k - 2) as nat,
                ) + "_stop"@ && text@ == (if zh {
                    "停止"@
                } else {
                    "Stop"@
                }) && !enabled),
            forall|k: int|
                #![trigger tray.menu@[k]]
                2 <= k < tray.menu@.len() - 2 ==> (tray.menu@[k]->entries@[4] matches
                    MenuEntry::Item { id: own, text, enabled } && own@ == decimal_text(
                    (k - 2) as nat,
                ) + "_restart"@ && text@ == (if zh {
                    "重启"@
                } else {
                    "Restart"@
                }) && !enabled),
            forall|k: int|
                #![trigger tray.menu@[k]]
                2 <= k < tray.menu@.len() - 2 && cfg.groups@[k - 2].address@.len() > 0 ==> (
                tray.menu@[k]->entries@[6] matches
                    MenuEntry::IconItem { id: own, text, enabled } && own@ == decimal_text(
                    (k - 2) as nat,
                ) + "_browser"@ && text@ == (if zh {
                    "打开"@
                } else {
                    "Browser"@
                }) && !enabled),
            tray.menu@[tray.menu@.len() - 2] == TopEntry::Entry(MenuEntry::Separator),
            tray.menu@[tray.menu@.len() - 1] matches TopEntry::Entry(
                MenuEntry::Item { id: own, text, enabled },
            ) && own@ == "quit"@ && text@ == (if zh {
                "退出"@
            } else {
                "Quit"@
            }) && enabled,
            forall|id: usize| #[trigger]
                tray.ui_map@.contains_key(id) <==> exists|i: int|
                    0 <= i < cfg.groups@.len() && (#[trigger] cfg.groups@[i]).uniq_id == id,
            forall|id: usize| #[trigger]
                tray.ui_map@.contains_key(id) ==> {
                    &&& tray.ui_map@[id].start
                    &&& !tray.ui_map@[id].stop
                    &&& !tray.ui_map@[id].restart
                    &&& tray.ui_map@[id].title matches TitleMenu::Submenu(Some(mark)) && mark@
                        == menu_icon(false)
                },
            forall|i: int|
                0 <= i < cfg.groups@.len() && (forall|j: int|
                    i < j < cfg.groups@.len() ==> (#[trigger] cfg.groups@[j]).uniq_id
                        != cfg.groups@[i].uniq_id) ==> tray.ui_map@[(
                #[trigger] cfg.groups@[i]).uniq_id].open == (if cfg.groups@[i].address@.len() == 0 {
                    None
                } else {
                    Some(false)
                }),
    {
        let mut menu: Vec<TopEntry> = Vec::new();
        let mut actions: Vec<(String, Action)> = Vec::new();
        let mut ui_map: HashMap<usize, UiEntry> = HashMap::new();
        menu.push(TopEntry::Entry(MenuEntry::Label { text: cfg.title.clone() }));
        menu.push(TopEntry::Entry(MenuEntry::Separator));
        let ghost head = top_view(menu@);
        let ghost groups = cfg.groups@;
        proof {
            assert(head =~= seq![
                TopEntryView::Entry(MenuEntryView::Label { text: cfg.title@ }),
                TopEntryView::Entry(MenuEntryView::Separator),
            ]);
            assert(head + group_menus(groups.take(0), zh) =~= head);
            assert(actions_view(actions@) =~= groups_actions(groups.take(0)));
            assert(ui_map@ =~= Map::<usize, UiEntry>::empty());
            assert(ui_map@.dom() =~= browsers(groups.take(0)).dom());
        }
        for i in 0..cfg.groups.len()
            invariant
                groups == cfg.groups@,
                top_view(menu@) == head + group_menus(groups.take(i as int), zh),
                actions_view(actions@) == groups_actions(groups.take(i as int)),
                ui_map@.dom() == browsers(groups.take(i as int)).dom(),
                forall|id: usize| #[trigger]
                    ui_map@.contains_key(id) ==> ui_map@[id].shows(false) && ui_map@[id].open is Some
                        == browsers(groups.take(i as int))[id],
        {
            let ghost menu_before = menu@;
            let ghost map_before = ui_map@;
            let item = &cfg.groups[i];
            proof {
                assert(groups.take(i + 1).drop_last() =~= groups.take(i as int));
                assert(groups.take(i + 1).last() == *item);
            }
            let entries = make_group_entries(i, item, zh);
            menu.push(TopEntry::Group { name: item.name.clone(), entries });
            proof {
                let entry = TopEntryView::Group {
                    name: item.name@,
                    entries: group_entries(i, *item, zh),
                };
                assert(top_view(menu@) =~= top_view(menu_before).push(entry));
                assert(group_menus(groups.take(i + 1), zh) =~= group_menus(
                    groups.take(i as int),
                    zh,
                ).push(entry));
                assert(top_view(menu@) =~= head + group_menus(groups.take(i + 1), zh));
            }
            let mut entry = UiEntry::new(!item.address.as_str().is_empty());
            entry.set_running(false);
            ui_map.insert(item.uniq_id, entry);
            push_group_actions(&mut actions, i, item);
            proof {
                assert(ui_map@.dom() =~= browsers(groups.take(i + 1)).dom());
                assert forall|id: usize| #[trigger] ui_map@.contains_key(id) implies ui_map@[id].shows(
                    false,
                ) && ui_map@[id].open is Some == browsers(groups.take(i + 1))[id] by {
                    if id != item.uniq_id {
                        assert(map_before.contains_key(id));
                    }
                }
            }
        }
        let ghost menu_before = menu@;
        let ghost actions_before = actions@;
        proof {
            assert(groups.take(groups.len() as int) =~= groups);
        }
        menu.push(TopEntry::Entry(MenuEntry::Separator));
        menu.push(
            TopEntry::Entry(
                MenuEntry::Item {
                    id: EVENT_QUIT.to_owned(),
                    text: lang_text(zh, "退出", "Quit").to_owned(),
                    enabled: true,
                },
            ),
        );
        actions.push((EVENT_QUIT.to_owned(), Action::StopAll));
        proof {
            assert(top_view(menu@) =~= tray_menu(*cfg, zh));
            assert(actions_view(actions@) =~= tray_actions(groups));
            law_last_application_of_a_number_counts(groups);
            law_menu_shows_the_configuration(menu@, *cfg, zh);
            assert forall|i: int| 0 <= i < groups.len() implies ui_map@.contains_key(
                (#[trigger] groups[i]).uniq_id,
            ) by {
                assert(browsers(groups).contains_key(groups[i].uniq_id));
            }
        }
        Tray { menu, actions, ui_map }
    }

    /// Tells the menu whether an application is running. Says whether the menu knows it.
    pub fn on_notice(&mut self, notice: Notice) -> (known: bool)
        ensures
            known == old(self).ui_map@.contains_key(notice.0),
            final(self).ui_map@.dom() == old(self).ui_map@.dom(),
            known ==> final(self).ui_map@[notice.0].shows(notice.1)
                && final(self).ui_map@[notice.0].open is Some
                == old(self).ui_map@[notice.0].open is Some,
            forall|id: usize|
                id != notice.0 && old(self).ui_map@.contains_key(id)
                    ==> #[trigger] final(self).ui_map@[id] == old(self).ui_map@[id],
            final(self).shown() == shown_after_notice(old(self).shown(), notice),
            known ==> {
                let entry = final(self).ui_map@[notice.0];
                &&& entry.start == !notice.1
                &&& entry.stop == notice.1
                &&& entry.restart == notice.1
                &&& entry.open == (if old(self).ui_map@[notice.0].open is Some {
                    Some(notice.1)
                } else {
                    None
                })
                &&& entry.title matches TitleMenu::Submenu(Some(mark)) && mark@ == menu_icon(
                    notice.1,
                )
            },
            old(self).wf() ==> final(self).wf(),
            final(self).menu == old(self).menu,
            final(self).actions == old(self).actions,
    {
        match self.ui_map.remove(&notice.0) {
            Some(entry) => {
                let mut entry = entry;
                entry.set_running(notice.1);
                self.ui_map.insert(notice.0, entry);
                proof {
                    assert(self.ui_map@.dom() =~= old(self).ui_map@.dom());
                    assert(self.shown() =~= shown_after_notice(old(self).shown(), notice));
                }
                true
            },
            None => {
                proof {
                    assert(self.ui_map@ =~= old(self).ui_map@);
                }
                false
            },
        }
    }

    /// Decides what follows when the entry with the given identifier was chosen.
    pub fn on_choice(&self, id: &str) -> (outcome: MenuOutcome)
        ensures
            outcome.action == action_under(actions_view(self.actions@), id@),
            outcome.exit == (id@ == EVENT_QUIT@),
            outcome.exit == (id@ == "quit"@),
            outcome.action is None ==> forall|k: int|
                0 <= k < self.actions@.len() ==> (#[trigger] self.actions@[k]).0@ != id@,
            outcome.action matches Some(action) ==> exists|k: int|
                0 <= k < self.actions@.len() && (#[trigger] self.actions@[k]).0@ == id@
                    && self.actions@[k].1 == action && forall|j: int|
                    k < j < self.actions@.len() ==> (#[trigger] self.actions@[j]).0@ != id@,
    {
        let action = find_action(&self.actions, id);
        let exit = id.to_owned() == EVENT_QUIT.to_owned();
        MenuOutcome { action, exit }
    }
}

} // verus!
