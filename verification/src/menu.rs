//! The entries of the tray's menu and what choosing them does.

use vstd::prelude::*;
use vstd::string::StringExecFns;

use crate::config::AppItem;
use crate::locale::lang_text;
use crate::text::{
    decimal, decimal_text, is_digit, lemma_decimal_digits, lemma_decimal_injective,
};

verus! {

/// The identifier of the entry that ends the program.
pub const EVENT_QUIT: &'static str = "quit";

/// What choosing an entry does. The number is the application's place in the configuration.
#[derive(Clone, Copy, Debug, PartialEq, Eq, Structural)]
pub enum Action {
    Start(usize),
    Stop(usize),
    Restart(usize),
    OpenBrowser(usize),
    StopAll,
}

/// An entry of the menu.
#[derive(Debug)]
pub enum MenuEntry {
    /// An entry without an identifier: it is enabled, and choosing it does nothing.
    Label { text: String },
    /// A plain entry.
    Item { id: String, text: String, enabled: bool },
    /// An entry that can carry an icon.
    IconItem { id: String, text: String, enabled: bool },
    /// A line between entries.
    Separator,
}

/// An entry at the top of the menu.
#[derive(Debug)]
pub enum TopEntry {
    Entry(MenuEntry),
    /// The submenu of an application.
    Group { name: String, entries: Vec<MenuEntry> },
}

/// The contents of a [`MenuEntry`].
pub enum MenuEntryView {
    Label { text: Seq<char> },
    Item { id: Seq<char>, text: Seq<char>, enabled: bool },
    IconItem { id: Seq<char>, text: Seq<char>, enabled: bool },
    Separator,
}

/// The contents of a [`TopEntry`].
pub enum TopEntryView {
    Entry(MenuEntryView),
    Group { name: Seq<char>, entries: Seq<MenuEntryView> },
}

impl View for MenuEntry {
    type V = MenuEntryView;

    open spec fn view(&self) -> MenuEntryView {
        match *self {
            MenuEntry::Label { text } => MenuEntryView::Label { text: text@ },
            MenuEntry::Item { id, text, enabled } => MenuEntryView::Item {
                id: id@,
                text: text@,
                enabled,
            },
            MenuEntry::IconItem { id, text, enabled } => MenuEntryView::IconItem {
                id: id@,
                text: text@,
                enabled,
            },
            MenuEntry::Separator => MenuEntryView::Separator,
        }
    }
}

/// The contents of a list of entries.
pub open spec fn entries_view(entries: Seq<MenuEntry>) -> Seq<MenuEntryView> {
    entries.map_values(|entry: MenuEntry| entry@)
}

impl View for TopEntry {
    type V = TopEntryView;

    open spec fn view(&self) -> TopEntryView {
        match *self {
            TopEntry::Entry(entry) => TopEntryView::Entry(entry@),
            TopEntry::Group { name, entries } => TopEntryView::Group {
                name: name@,
                entries: entries_view(entries@),
            },
        }
    }
}

/// The contents of the list of top entries.
pub open spec fn top_view(entries: Seq<TopEntry>) -> Seq<TopEntryView> {
    entries.map_values(|entry: TopEntry| entry@)
}

/// The contents of a list of actions under their identifiers.
pub open spec fn actions_view(actions: Seq<(String, Action)>) -> Seq<(Seq<char>, Action)> {
    actions.map_values(|bound: (String, Action)| (bound.0@, bound.1))
}

/// The identifier of an application's entry: its place in the configuration and a suffix.
pub open spec fn entry_id(index: usize, suffix: Seq<char>) -> Seq<char> {
    decimal_text(index as nat) + suffix
}

/// Writes the identifier of an application's entry.
fn make_id(index: usize, suffix: &str) -> (id: String)
    ensures
        id@ == entry_id(index, suffix@),
{
    let mut id = decimal(index);
    id.append(suffix);
    id
}

/// The identifier of the entry that an action belongs to.
pub open spec fn id_of(action: Action) -> Seq<char> {
    match action {
        Action::Start(index) => entry_id(index, "_start"@),
        Action::Stop(index) => entry_id(index, "_stop"@),
        Action::Restart(index) => entry_id(index, "_restart"@),
        Action::OpenBrowser(index) => entry_id(index, "_browser"@),
        Action::StopAll => EVENT_QUIT@,
    }
}

/// The text of a language.
pub open spec fn in_language(zh: bool, chinese: Seq<char>, english: Seq<char>) -> Seq<char> {
    if zh {
        chinese
    } else {
        english
    }
}

/// The entries in the submenu of an application. As it is not running yet, it can be started
/// and nothing else.
pub open spec fn group_entries(index: usize, item: AppItem, zh: bool) -> Seq<MenuEntryView> {
    seq![
        MenuEntryView::Label { text: item.name@ },
        MenuEntryView::Separator,
        MenuEntryView::Item {
            id: id_of(Action::Start(index)),
            text: in_language(zh, "启动"@, "Start"@),
            enabled: true,
        },
        MenuEntryView::Item {
            id: id_of(Action::Stop(index)),
            text: in_language(zh, "停止"@, "Stop"@),
            enabled: false,
        },
        MenuEntryView::Item {
            id: id_of(Action::Restart(index)),
            text: in_language(zh, "重启"@, "Restart"@),
            enabled: false,
        },
    ] + if item.address@.len() == 0 {
        seq![]
    } else {
        seq![
            MenuEntryView::Separator,
            MenuEntryView::IconItem {
                id: id_of(Action::OpenBrowser(index)),
                text: in_language(zh, "打开"@, "Browser"@),
                enabled: false,
            },
        ]
    }
}

/// The submenu of an application holds its name, a line, and the entries to start, to stop and to
/// restart it, in this order; of an application with an address it also holds a line and the
/// entry that opens a browser, and of one without an address no more than that. The identifiers
/// begin with the place of the application, the texts are in the language of the menu, and only
/// the start can be chosen at first.
pub proof fn law_submenu_of_an_application(index: usize, item: AppItem, zh: bool)
    ensures
        group_entries(index, item, zh).len() == (if item.address@.len() == 0 {
            5int
        } else {
            7int
        }),
        group_entries(index, item, zh)[0] == (MenuEntryView::Label { text: item.name@ }),
        group_entries(index, item, zh)[1] == MenuEntryView::Separator,
        group_entries(index, item, zh)[2] == (MenuEntryView::Item {
            id: decimal_text(index as nat) + "_start"@,
            text: if zh {
                "启动"@
            } else {
                "Start"@
            },
            enabled: true,
        }),
        group_entries(index, item, zh)[3] == (MenuEntryView::Item {
            id: decimal_text(index as nat) + "_stop"@,
            text: if zh {
                "停止"@
            } else {
                "Stop"@
            },
            enabled: false,
        }),
        group_entries(index, item, zh)[4] == (MenuEntryView::Item {
            id: decimal_text(index as nat) + "_restart"@,
            text: if zh {
                "重启"@
            } else {
                "Restart"@
            },
            enabled: false,
        }),
        item.address@.len() > 0 ==> group_entries(index, item, zh)[5] == MenuEntryView::Separator
            && group_entries(index, item, zh)[6] == (MenuEntryView::IconItem {
            id: decimal_text(index as nat) + "_browser"@,
            text: if zh {
                "打开"@
            } else {
                "Browser"@
            },
            enabled: false,
        }),
{
}

/// Makes the entries in the submenu of an application.
pub fn make_group_entries(index: usize, item: &AppItem, zh: bool) -> (entries: Vec<MenuEntry>)
    ensures
        entries_view(entries@) == group_entries(index, *item, zh),
        entries@.len() == (if item.address@.len() == 0 {
            5int
        } else {
            7int
        }),
        entries@[0] matches MenuEntry::Label { text } && text@ == item.name@,
        entries@[1] is Separator,
        entries@[2] matches MenuEntry::Item { id, text, enabled } && id@ == decimal_text(
            index as nat,
        ) + "_start"@ && text@ == (if zh {
            "启动"@
        } else {
            "Start"@
        }) && enabled,
        entries@[3] matches MenuEntry::Item { id, text, enabled } && id@ == decimal_text(
            index as nat,
        ) + "_stop"@ && text@ == (if zh {
            "停止"@
        } else {
            "Stop"@
        }) && !enabled,
        entries@[4] matches MenuEntry::Item { id, text, enabled } && id@ == decimal_text(
            index as nat,
        ) + "_restart"@ && text@ == (if zh {
            "重启"@
        } else {
            "Restart"@
        }) && !enabled,
        item.address@.len() > 0 ==> entries@[5] is Separator && (entries@[6] matches
            MenuEntry::IconItem { id, text, enabled } && id@ == decimal_text(index as nat)
            + "_browser"@ && text@ == (if zh {
            "打开"@
        } else {
            "Browser"@
        }) && !enabled),
{
    let mut entries: Vec<MenuEntry> = Vec::new();
    entries.push(MenuEntry::Label { text: item.name.clone() });
    entries.push(MenuEntry::Separator);
    entries.push(
        MenuEntry::Item {
            id: make_id(index, "_start"),
            text: lang_text(zh, "启动", "Start").to_owned(),
            enabled: true,
        },
    );
    entries.push(
        MenuEntry::Item {
            id: make_id(index, "_stop"),
            text: lang_text(zh, "停止", "Stop").to_owned(),
            enabled: false,
        },
    );
    entries.push(
        MenuEntry::Item {
            id: make_id(index, "_restart"),
            text: lang_text(zh, "重启", "Restart").to_owned(),
            enabled: false,
        },
    );
    if !item.address.as_str().is_empty() {
        entries.push(MenuEntry::Separator);
        entries.push(
            MenuEntry::IconItem {
                id: make_id(index, "_browser"),
                text: lang_text(zh, "打开", "Browser").to_owned(),
                enabled: false,
            },
        );
    }
    proof {
        assert(entries_view(entries@) =~= group_entries(index, *item, zh));
    }
    entries
}

/// The actions of an application, each under the identifier of its entry.
pub open spec fn group_actions(index: usize, item: AppItem) -> Seq<(Seq<char>, Action)> {
    (if item.address@.len() == 0 {
        seq![]
    } else {
        seq![(id_of(Action::OpenBrowser(index)), Action::OpenBrowser(index))]
    }) + seq![
        (id_of(Action::Start(index)), Action::Start(index)),
        (id_of(Action::Stop(index)), Action::Stop(index)),
        (id_of(Action::Restart(index)), Action::Restart(index)),
    ]
}

/// Adds the actions of an application to a list.
pub fn push_group_actions(actions: &mut Vec<(String, Action)>, index: usize, item: &AppItem)
    ensures
        actions_view(final(actions)@) == actions_view(old(actions)@) + group_actions(index, *item),
        final(actions)@.take(old(actions)@.len() as int) == old(actions)@,
        final(actions)@.len() == old(actions)@.len() + (if item.address@.len() == 0 {
            3int
        } else {
            4int
        }),
        ({
            let end = final(actions)@.len();
            let start = final(actions)@[end - 3];
            let stop = final(actions)@[end - 2];
            let restart = final(actions)@[end - 1];
            &&& start.0@ == decimal_text(index as nat) + "_start"@
            &&& start.1 == Action::Start(index)
            &&& stop.0@ == decimal_text(index as nat) + "_stop"@
            &&& stop.1 == Action::Stop(index)
            &&& restart.0@ == decimal_text(index as nat) + "_restart"@
            &&& restart.1 == Action::Restart(index)
        }),
        item.address@.len() > 0 ==> {
            let browser = final(actions)@[old(actions)@.len() as int];
            browser.0@ == decimal_text(index as nat) + "_browser"@ && browser.1
                == Action::OpenBrowser(index)
        },
{
    if !item.address.as_str().is_empty() {
        actions.push((make_id(index, "_browser"), Action::OpenBrowser(index)));
    }
    actions.push((make_id(index, "_start"), Action::Start(index)));
    actions.push((make_id(index, "_stop"), Action::Stop(index)));
    actions.push((make_id(index, "_restart"), Action::Restart(index)));
    proof {
        assert(actions_view(actions@) =~= actions_view(old(actions)@) + group_actions(
            index,
            *item,
        ));
    }
}

/// The action that a list binds to an identifier: the one that was added last.
pub open spec fn action_under(actions: Seq<(Seq<char>, Action)>, id: Seq<char>) -> Option<Action>
    decreases actions.len(),
{
    if actions.len() == 0 {
        None
    } else if actions.last().0 == id {
        Some(actions.last().1)
    } else {
        action_under(actions.drop_last(), id)
    }
}

/// The action under an identifier is that of the last pair with the identifier; there is none if
/// and only if no pair has it.
pub proof fn law_last_binding_counts(actions: Seq<(Seq<char>, Action)>, id: Seq<char>)
    ensures
        action_under(actions, id) is None ==> forall|k: int|
            0 <= k < actions.len() ==> (#[trigger] actions[k]).0 != id,
        action_under(actions, id) matches Some(action) ==> exists|k: int|
            0 <= k < actions.len() && #[trigger] actions[k] == (id, action) && forall|j: int|
                k < j < actions.len() ==> (#[trigger] actions[j]).0 != id,
    decreases actions.len(),
{
    if actions.len() > 0 {
        let last = actions.len() - 1;
        let rest = actions.drop_last();
        law_last_binding_counts(rest, id);
        if actions[last].0 == id {
            assert(actions[last] == (id, actions[last].1));
        } else {
            assert(forall|k: int| 0 <= k < last ==> rest[k] == #[trigger] actions[k]);
            match action_under(rest, id) {
                Some(action) => {
                    let k = choose|k: int|
                        0 <= k < rest.len() && #[trigger] rest[k] == (id, action) && forall|j: int|
                            k < j < rest.len() ==> (#[trigger] rest[j]).0 != id;
                    assert(actions[k] == (id, action));
                },
                None => {},
            }
        }
    }
}

/// Finds the action that a list binds to an identifier.
pub fn find_action(actions: &Vec<(String, Action)>, id: &str) -> (action: Option<Action>)
    ensures
        action == action_under(actions_view(actions@), id@),
        action is None ==> forall|k: int|
            0 <= k < actions@.len() ==> (#[trigger] actions@[k]).0@ != id@,
        action matches Some(found) ==> exists|k: int|
            0 <= k < actions@.len() && (#[trigger] actions@[k]).0@ == id@ && actions@[k].1 == found
                && forall|j: int| k < j < actions@.len() ==> (#[trigger] actions@[j]).0@ != id@,
{
    let wanted = id.to_owned();
    let ghost all = actions_view(actions@);
    let mut n: usize = actions.len();
    proof {
        assert(all.take(n as int) =~= all);
    }
    while n > 0
        invariant
            all == actions_view(actions@),
            wanted@ == id@,
            n <= actions@.len(),
            action_under(all, id@) == action_under(all.take(n as int), id@),
            forall|j: int| n <= j < actions@.len() ==> (#[trigger] actions@[j]).0@ != id@,
        decreases n,
    {
        n = n - 1;
        proof {
            assert(all.take(n + 1).last() == (actions@[n as int].0@, actions@[n as int].1));
            assert(all.take(n + 1).drop_last() =~= all.take(n as int));
        }
        if actions[n].0 == wanted {
            return Some(actions[n].1);
        }
    }
    None
}

/// The part of an entry's identifier behind the number.
pub open spec fn suffix_of(action: Action) -> Seq<char> {
    match action {
        Action::Start(_) => "_start"@,
        Action::Stop(_) => "_stop"@,
        Action::Restart(_) => "_restart"@,
        Action::OpenBrowser(_) => "_browser"@,
        Action::StopAll => EVENT_QUIT@,
    }
}

proof fn lemma_split_id(i: usize, s: Seq<char>, j: usize, t: Seq<char>)
    requires
        entry_id(i, s) == entry_id(j, t),
        s.len() > 0,
        t.len() > 0,
        !is_digit(s[0]),
        !is_digit(t[0]),
    ensures
        i == j,
        s == t,
{
    let a = decimal_text(i as nat);
    let b = decimal_text(j as nat);
    lemma_decimal_digits(i as nat);
    lemma_decimal_digits(j as nat);
    if a.len() < b.len() {
        assert((a + s)[a.len() as int] == s[0]);
        assert((b + t)[a.len() as int] == b[a.len() as int]);
    } else if b.len() < a.len() {
        assert((b + t)[b.len() as int] == t[0]);
        assert((a + s)[b.len() as int] == a[b.len() as int]);
    }
    assert(a =~= (a + s).take(a.len() as int));
    assert(b =~= (b + t).take(b.len() as int));
    assert(s =~= (a + s).skip(a.len() as int));
    assert(t =~= (b + t).skip(b.len() as int));
    lemma_decimal_injective(i as nat, j as nat);
}

/// The place of the application that an action is about.
pub open spec fn index_of(action: Action) -> usize {
    match action {
        Action::Start(index) => index,
        Action::Stop(index) => index,
        Action::Restart(index) => index,
        Action::OpenBrowser(index) => index,
        Action::StopAll => 0,
    }
}

/// An identifier belongs to one action only: no two entries of the menu share one.
pub proof fn law_ids_are_distinct(a: Action, b: Action)
    requires
        id_of(a) == id_of(b),
    ensures
        a == b,
{
    reveal_strlit("_start");
    reveal_strlit("_stop");
    reveal_strlit("_restart");
    reveal_strlit("_browser");
    reveal_strlit("quit");
    lemma_decimal_digits(index_of(a) as nat);
    lemma_decimal_digits(index_of(b) as nat);
    if a is StopAll || b is StopAll {
        assert(a !is StopAll ==> id_of(a)[0] == decimal_text(index_of(a) as nat)[0]);
        assert(b !is StopAll ==> id_of(b)[0] == decimal_text(index_of(b) as nat)[0]);
        assert(EVENT_QUIT@[0] == 'q');
    } else {
        lemma_split_id(index_of(a), suffix_of(a), index_of(b), suffix_of(b));
        assert(suffix_of(a)[1] == suffix_of(b)[1]);
        assert(suffix_of(a)[3] == suffix_of(b)[3]);
    }
}

} // verus!
