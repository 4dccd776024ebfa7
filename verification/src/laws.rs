//! What holds of the tray as a whole, over any run of starts and stops.

use vstd::prelude::*;

use crate::config::{AppConfig, AppItem};
use crate::menu::{
    action_under, group_actions, group_entries, id_of, law_ids_are_distinct, Action, MenuEntry,
    MenuEntryView, TopEntry,
};
use crate::process::{notices_of_start, table_after_start, Notice, StartEvent};
use crate::text::decimal_text;
use crate::tray::{
    browsers, groups_actions, launches, launches_of, shown_after_notice, tray_actions, MenuOutcome,
    Tray,
};

verus! {

/// One step in the life of the applications: a start of one of them meets an event, or one of
/// them is stopped. The number is the application's own.
pub enum Step<C> {
    Start(usize, StartEvent<C>),
    Stop(usize),
}

/// The table of running processes after a step.
pub open spec fn table_after<C>(procs: Map<usize, C>, step: Step<C>) -> Map<usize, C> {
    match step {
        Step::Start(id, event) => table_after_start(procs, id, event),
        Step::Stop(id) => procs.remove(id),
    }
}

/// The news that a step passes on.
pub open spec fn notices_of<C>(step: Step<C>) -> Seq<Notice> {
    match step {
        Step::Start(id, event) => notices_of_start(id, event),
        Step::Stop(id) => seq![(id, false)],
    }
}

/// The application that a step is about.
pub open spec fn subject<C>(step: Step<C>) -> usize {
    match step {
        Step::Start(id, _) => id,
        Step::Stop(id) => id,
    }
}

/// The table of running processes after a run of steps.
pub open spec fn table_after_run<C>(procs: Map<usize, C>, steps: Seq<Step<C>>) -> Map<usize, C>
    decreases steps.len(),
{
    if steps.len() == 0 {
        procs
    } else {
        table_after(table_after_run(procs, steps.drop_last()), steps.last())
    }
}

/// The news that a run of steps passes on, in the order of the steps.
pub open spec fn notices_of_run<C>(steps: Seq<Step<C>>) -> Seq<Notice>
    decreases steps.len(),
{
    if steps.len() == 0 {
        seq![]
    } else {
        notices_of_run(steps.drop_last()) + notices_of(steps.last())
    }
}

/// What the menu shows after it was told some news, in their order.
pub open spec fn shown_after(shown: Map<usize, bool>, notices: Seq<Notice>) -> Map<usize, bool>
    decreases notices.len(),
{
    if notices.len() == 0 {
        shown
    } else {
        shown_after_notice(shown_after(shown, notices.drop_last()), notices.last())
    }
}

/// Whether the menu shows of every application that it knows what the table says.
pub open spec fn agrees<C>(shown: Map<usize, bool>, procs: Map<usize, C>) -> bool {
    forall|id: usize| #[trigger] shown.contains_key(id) ==> shown[id] == procs.contains_key(id)
}

proof fn lemma_shown_after_concat(shown: Map<usize, bool>, a: Seq<Notice>, b: Seq<Notice>)
    ensures
        shown_after(shown, a + b) == shown_after(shown_after(shown, a), b),
    decreases b.len(),
{
    if b.len() == 0 {
        assert(a + b =~= a);
    } else {
        assert((a + b).drop_last() =~= a + b.drop_last());
        assert((a + b).last() == b.last());
        lemma_shown_after_concat(shown, a, b.drop_last());
    }
}

proof fn lemma_step_agrees<C>(shown: Map<usize, bool>, procs: Map<usize, C>, step: Step<C>)
    requires
        agrees(shown, procs),
    ensures
        agrees(shown_after(shown, notices_of(step)), table_after(procs, step)),
{
    let notices = notices_of(step);
    if notices.len() == 1 {
        assert(notices.drop_last() =~= seq![]);
        assert(shown_after(shown, notices.drop_last()) == shown);
        assert(shown_after(shown, notices) == shown_after_notice(shown, notices[0]));
    }
}

/// The menu shows what runs: where it agrees with the table of running processes, it agrees with
/// it again after any run of steps, once it was told the news of that run in order.
pub proof fn law_menu_shows_what_runs<C>(
    shown: Map<usize, bool>,
    procs: Map<usize, C>,
    steps: Seq<Step<C>>,
)
    requires
        agrees(shown, procs),
    ensures
        agrees(shown_after(shown, notices_of_run(steps)), table_after_run(procs, steps)),
    decreases steps.len(),
{
    if steps.len() > 0 {
        let before = notices_of_run(steps.drop_last());
        law_menu_shows_what_runs(shown, procs, steps.drop_last());
        lemma_step_agrees(
            shown_after(shown, before),
            table_after_run(procs, steps.drop_last()),
            steps.last(),
        );
        lemma_shown_after_concat(shown, before, notices_of(steps.last()));
    }
}

/// A menu that shows nothing as running, as a new one does, agrees with a table without processes.
pub proof fn law_new_menu_agrees_with_empty_table<C>(tray: Tray)
    requires
        forall|id: usize| #[trigger]
            tray.ui_map@.contains_key(id) ==> tray.ui_map@[id].shows(false),
    ensures
        agrees(tray.shown(), Map::<usize, C>::empty()),
{
    assert forall|id: usize| #[trigger] tray.shown().contains_key(id) implies !tray.shown()[id] by {
        assert(tray.ui_map@.contains_key(id));
    }
}

/// News about an application says nothing of the others: the menu goes on showing of them what
/// it showed, and it neither learns of applications nor forgets any.
pub proof fn law_news_concern_one_application(
    shown: Map<usize, bool>,
    notices: Seq<Notice>,
    other: usize,
)
    requires
        forall|i: int| 0 <= i < notices.len() ==> (#[trigger] notices[i]).0 != other,
    ensures
        shown_after(shown, notices).dom() == shown.dom(),
        shown.contains_key(other) ==> shown_after(shown, notices)[other] == shown[other],
    decreases notices.len(),
{
    if notices.len() > 0 {
        law_news_concern_one_application(shown, notices.drop_last(), other);
        assert(notices.last().0 != other);
        assert(shown_after(shown, notices).dom() =~= shown.dom());
    }
}

/// Starts and stops concern one application: the processes of the others stay in the table.
pub proof fn law_steps_concern_one_application<C>(
    procs: Map<usize, C>,
    steps: Seq<Step<C>>,
    other: usize,
)
    requires
        forall|i: int| 0 <= i < steps.len() ==> subject(#[trigger] steps[i]) != other,
    ensures
        table_after_run(procs, steps).contains_key(other) == procs.contains_key(other),
        procs.contains_key(other) ==> table_after_run(procs, steps)[other] == procs[other],
    decreases steps.len(),
{
    if steps.len() > 0 {
        law_steps_concern_one_application(procs, steps.drop_last(), other);
        assert(subject(steps.last()) != other);
    }
}

/// A start runs its course: an application that was not running is in the table, with its
/// process, from the moment the process was created until it is found gone, and the table is
/// then what it was. The news are that the application is running and that it is not.
pub proof fn law_start_runs_its_course<C>(procs: Map<usize, C>, id: usize, child: C)
    requires
        !procs.contains_key(id),
    ensures
        ({
            let created = seq![
                Step::Start(id, StartEvent::<C>::Begin),
                Step::Start(id, StartEvent::Spawned(child)),
            ];
            let course = created.push(Step::Start(id, StartEvent::Ended));
            &&& table_after_run(procs, created) == procs.insert(id, child)
            &&& notices_of_run(created) == seq![(id, true)]
            &&& table_after_run(procs, course) == procs
            &&& notices_of_run(course) == seq![(id, true), (id, false)]
        }),
{
    let begin = Step::Start(id, StartEvent::<C>::Begin);
    let spawned = Step::Start(id, StartEvent::Spawned(child));
    let ended = Step::Start(id, StartEvent::<C>::Ended);
    let created = seq![begin, spawned];
    let course = created.push(ended);
    assert(created.drop_last() =~= seq![begin]);
    assert(seq![begin].drop_last() =~= Seq::<Step<C>>::empty());
    assert(course.drop_last() =~= created);
    reveal_with_fuel(table_after_run, 3);
    reveal_with_fuel(notices_of_run, 3);
    assert(notices_of_run(created) =~= seq![(id, true)]);
    assert(table_after_run(procs, created) == procs.insert(id, child));
    assert(course.last() == ended);
    assert(procs.insert(id, child).remove(id) =~= procs);
    assert(notices_of_run(course) =~= seq![(id, true), (id, false)]);
}

/// A stop leaves nothing behind, so the start of a restart is not refused; and a second stop
/// finds nothing and changes nothing.
pub proof fn law_stop_leaves_nothing<C>(procs: Map<usize, C>, id: usize)
    ensures
        !table_after(procs, Step::Stop(id)).contains_key(id),
        table_after(table_after(procs, Step::Stop(id)), Step::Stop(id)) == table_after(
            procs,
            Step::Stop(id),
        ),
{
    assert(procs.remove(id).remove(id) =~= procs.remove(id));
}

/// The step in which the watch over an application's process finds it gone.
pub open spec fn ended<C>(id: usize) -> Step<C> {
    Step::Start(id, StartEvent::Ended)
}

proof fn lemma_ended_leave_table<C>(procs: Map<usize, C>, ids: Seq<usize>, id: usize)
    ensures
        table_after_run(procs, ids.map_values(|id: usize| ended::<C>(id))).contains_key(id)
            <==> procs.contains_key(id) && !ids.contains(id),
    decreases ids.len(),
{
    let steps = ids.map_values(|id: usize| ended::<C>(id));
    if ids.len() > 0 {
        lemma_ended_leave_table(procs, ids.drop_last(), id);
        assert(steps.drop_last() =~= ids.drop_last().map_values(|id: usize| ended::<C>(id)));
        assert(steps.last() == ended::<C>(ids.last()));
        if ids.contains(id) {
            let k = choose|k: int| 0 <= k < ids.len() && ids[k] == id;
            if k < ids.len() - 1 {
                assert(ids.drop_last()[k] == id);
            }
        }
        if ids.drop_last().contains(id) {
            let k = choose|k: int| 0 <= k < ids.len() - 1 && ids.drop_last()[k] == id;
            assert(ids[k] == id);
        }
        if ids.last() == id {
            assert(ids[ids.len() - 1] == id);
        }
    }
}

/// Once every process of the table was killed and found gone by its watch, in any order, the
/// table is empty.
pub proof fn law_killing_all_empties_the_table<C>(procs: Map<usize, C>, ids: Seq<usize>)
    requires
        forall|id: usize| #[trigger] procs.contains_key(id) ==> ids.contains(id),
    ensures
        table_after_run(procs, ids.map_values(|id: usize| ended::<C>(id))) == Map::<
            usize,
            C,
        >::empty(),
{
    let steps = ids.map_values(|id: usize| ended::<C>(id));
    assert forall|id: usize| !(#[trigger] table_after_run(procs, steps).contains_key(id)) by {
        lemma_ended_leave_table(procs, ids, id);
    }
    assert(table_after_run(procs, steps) =~= Map::<usize, C>::empty());
}

/// Whether the menu of a configuration offers an action: everything for every application, but a
/// browser only for one that has an address; and the end of the program.
pub open spec fn offers(groups: Seq<AppItem>, action: Action) -> bool {
    match action {
        Action::Start(index) => index < groups.len(),
        Action::Stop(index) => index < groups.len(),
        Action::Restart(index) => index < groups.len(),
        Action::OpenBrowser(index) => index < groups.len() && groups[index as int].address@.len()
            > 0,
        Action::StopAll => true,
    }
}

proof fn lemma_groups_actions(groups: Seq<AppItem>, action: Action)
    requires
        groups.len() <= usize::MAX,
    ensures
        groups_actions(groups).contains((id_of(action), action)) <==> offers(groups, action)
            && action !is StopAll,
        forall|i: int|
            0 <= i < groups_actions(groups).len() ==> (#[trigger] groups_actions(groups)[i]).0
                == id_of(groups_actions(groups)[i].1),
    decreases groups.len(),
{
    let pair = (id_of(action), action);
    if groups.len() > 0 {
        let rest = groups_actions(groups.drop_last());
        let index = (groups.len() - 1) as usize;
        let own = group_actions(index, groups.last());
        let n = own.len();
        lemma_groups_actions(groups.drop_last(), action);
        assert(own[n - 3] == (id_of(Action::Start(index)), Action::Start(index)));
        assert(own[n - 2] == (id_of(Action::Stop(index)), Action::Stop(index)));
        assert(own[n - 1] == (id_of(Action::Restart(index)), Action::Restart(index)));
        assert(n == 4 ==> own[0] == (
            id_of(Action::OpenBrowser(index)),
            Action::OpenBrowser(index),
        ));
        assert((rest + own).contains(pair) <==> rest.contains(pair) || own.contains(pair)) by {
            if rest.contains(pair) {
                let k = choose|k: int| 0 <= k < rest.len() && rest[k] == pair;
                assert((rest + own)[k] == pair);
            }
            if own.contains(pair) {
                let k = choose|k: int| 0 <= k < own.len() && own[k] == pair;
                assert((rest + own)[rest.len() + k] == pair);
            }
        }
        assert(own.contains(pair) <==> offers(groups, action) && action !is StopAll
            && !offers(groups.drop_last(), action)) by {
            if own.contains(pair) {
                let k = choose|k: int| 0 <= k < own.len() && own[k] == pair;
            }
        }
    }
}

proof fn lemma_action_under(actions: Seq<(Seq<char>, Action)>, id: Seq<char>, action: Action)
    requires
        forall|i: int| 0 <= i < actions.len() ==> (#[trigger] actions[i]).0 == id_of(actions[i].1),
    ensures
        action_under(actions, id) == Some(action) <==> id == id_of(action) && actions.contains(
            (id, action),
        ),
    decreases actions.len(),
{
    if actions.len() > 0 {
        let rest = actions.drop_last();
        assert forall|i: int| 0 <= i < rest.len() implies (#[trigger] rest[i]).0 == id_of(
            rest[i].1,
        ) by {
            assert(rest[i] == actions[i]);
        }
        lemma_action_under(rest, id, action);
        assert(actions.last().0 == id_of(actions.last().1));
        if actions.last().0 == id {
            if id == id_of(action) {
                law_ids_are_distinct(actions.last().1, action);
                assert(actions[actions.len() - 1] == (id, action));
            }
        } else if actions.contains((id, action)) {
            let k = choose|k: int| 0 <= k < actions.len() && actions[k] == (id, action);
            assert(rest[k] == (id, action));
        } else if rest.contains((id, action)) {
            let k = choose|k: int| 0 <= k < rest.len() && rest[k] == (id, action);
            assert(actions[k] == (id, action));
        }
    }
}

/// Choosing an entry does what the entry is for: an identifier leads to an action if and only if
/// it is the action's own and the menu offers the action. So every other identifier leads to
/// nothing, and the entry that ends the program always stops every application.
pub proof fn law_choices_lead_to_their_actions(
    groups: Seq<AppItem>,
    id: Seq<char>,
    action: Action,
)
    requires
        groups.len() <= usize::MAX,
    ensures
        action_under(tray_actions(groups), id) == Some(action) <==> id == id_of(action) && offers(
            groups,
            action,
        ),
{
    let all = tray_actions(groups);
    let rest = groups_actions(groups);
    let pair = (id, action);
    lemma_groups_actions(groups, action);
    assert forall|i: int| 0 <= i < all.len() implies (#[trigger] all[i]).0 == id_of(all[i].1) by {
        if i < rest.len() {
            assert(all[i] == rest[i]);
        }
    }
    lemma_action_under(all, id, action);
    if id == id_of(action) {
        if rest.contains(pair) {
            let k = choose|k: int| 0 <= k < rest.len() && rest[k] == pair;
            assert(all[k] == pair);
        }
        if action is StopAll {
            assert(all[all.len() - 1] == pair);
        }
        if all.contains(pair) {
            let k = choose|k: int| 0 <= k < all.len() && all[k] == pair;
            if k < rest.len() {
                assert(rest[k] == pair);
            }
        }
    }
}

/// The action that an entry of an application's submenu is for, if it is for any: by its place
/// among the entries.
pub open spec fn action_at(index: usize, place: int) -> Option<Action> {
    if place == 2 {
        Some(Action::Start(index))
    } else if place == 3 {
        Some(Action::Stop(index))
    } else if place == 4 {
        Some(Action::Restart(index))
    } else if place == 6 {
        Some(Action::OpenBrowser(index))
    } else {
        None
    }
}

/// Every entry of an application's submenu that has an identifier leads to its action.
pub proof fn law_entries_lead_to_their_actions(
    groups: Seq<AppItem>,
    index: usize,
    zh: bool,
    place: int,
)
    requires
        groups.len() <= usize::MAX,
        index < groups.len(),
        0 <= place < group_entries(index, groups[index as int], zh).len(),
    ensures
        match group_entries(index, groups[index as int], zh)[place] {
            MenuEntryView::Item { id, .. } => action_at(index, place) is Some && action_under(
                tray_actions(groups),
                id,
            ) == action_at(index, place),
            MenuEntryView::IconItem { id, .. } => action_at(index, place) is Some && action_under(
                tray_actions(groups),
                id,
            ) == action_at(index, place),
            MenuEntryView::Label { .. } => action_at(index, place) is None,
            MenuEntryView::Separator => action_at(index, place) is None,
        },
{
    match action_at(index, place) {
        Some(action) => {
            law_choices_lead_to_their_actions(groups, id_of(action), action);
        },
        None => {},
    }
}

/// Choosing an entry acts on the application whose submenu holds it: in a tray that was built for
/// a configuration, the submenu after the title, the line and `i` others bears the name of the
/// application at place `i`, and whatever entry of it with an identifier is chosen, the outcome is
/// about that application. In the order of the entries it is started, stopped, restarted, and
/// opened in a browser. The program goes on.
pub proof fn law_choosing_an_entry_acts_on_its_application(
    cfg: &AppConfig,
    zh: bool,
    tray: Tray,
    i: int,
    place: int,
    id: &str,
    outcome: MenuOutcome,
)
    requires
        call_ensures(Tray::new, (cfg, zh), tray),
        call_ensures(Tray::on_choice, (&tray, id), outcome),
        cfg.groups@.len() <= usize::MAX,
        0 <= i < cfg.groups@.len(),
        0 <= place < tray.menu@[2 + i]->entries@.len(),
        match tray.menu@[2 + i]->entries@[place] {
            MenuEntry::Item { id: own, .. } => own@ == id@,
            MenuEntry::IconItem { id: own, .. } => own@ == id@,
            _ => false,
        },
    ensures
        tray.menu@[2 + i] matches TopEntry::Group { name, .. } && name@ == cfg.groups@[i].name@,
        place == 2 || place == 3 || place == 4 || place == 6,
        place == 2 ==> outcome.action == Some(Action::Start(i as usize)),
        place == 3 ==> outcome.action == Some(Action::Stop(i as usize)),
        place == 4 ==> outcome.action == Some(Action::Restart(i as usize)),
        place == 6 ==> outcome.action == Some(Action::OpenBrowser(i as usize))
            && cfg.groups@[i].address@.len() > 0,
        !outcome.exit,
{
    let index = i as usize;
    let entries = tray.menu@[2 + i]->entries;
    let action = if place == 2 {
        Action::Start(index)
    } else if place == 3 {
        Action::Stop(index)
    } else if place == 4 {
        Action::Restart(index)
    } else {
        Action::OpenBrowser(index)
    };
    assert(id@ == id_of(action));
    law_choices_lead_to_their_actions(cfg.groups@, id@, action);
    if id@ == "quit"@ {
        law_ids_are_distinct(action, Action::StopAll);
    }
}

/// Choosing the entry that ends the program stops every application and ends the program,
/// whatever is configured.
pub proof fn law_choosing_quit_ends_the_program(
    cfg: &AppConfig,
    zh: bool,
    tray: Tray,
    id: &str,
    outcome: MenuOutcome,
)
    requires
        call_ensures(Tray::new, (cfg, zh), tray),
        call_ensures(Tray::on_choice, (&tray, id), outcome),
        cfg.groups@.len() <= usize::MAX,
        tray.menu@.last() matches TopEntry::Entry(MenuEntry::Item { id: own, .. }) && own@ == id@,
    ensures
        outcome.action == Some(Action::StopAll),
        outcome.exit,
{
    law_choices_lead_to_their_actions(cfg.groups@, id@, Action::StopAll);
}

/// Nothing comes of an identifier that no entry has: what a choice leads to tells the identifier
/// that was chosen. It is the place of the application and the word of the action; there is such
/// an application, and one that is opened in a browser has an address.
pub proof fn law_outcomes_tell_what_was_chosen(
    cfg: &AppConfig,
    zh: bool,
    tray: Tray,
    id: &str,
    outcome: MenuOutcome,
)
    requires
        call_ensures(Tray::new, (cfg, zh), tray),
        call_ensures(Tray::on_choice, (&tray, id), outcome),
        cfg.groups@.len() <= usize::MAX,
    ensures
        match outcome.action {
            Some(Action::Start(i)) => i < cfg.groups@.len() && id@ == decimal_text(i as nat)
                + "_start"@,
            Some(Action::Stop(i)) => i < cfg.groups@.len() && id@ == decimal_text(i as nat)
                + "_stop"@,
            Some(Action::Restart(i)) => i < cfg.groups@.len() && id@ == decimal_text(i as nat)
                + "_restart"@,
            Some(Action::OpenBrowser(i)) => i < cfg.groups@.len()
                && cfg.groups@[i as int].address@.len() > 0 && id@ == decimal_text(i as nat)
                + "_browser"@,
            Some(Action::StopAll) => id@ == "quit"@,
            None => id@ != "quit"@,
        },
{
    match outcome.action {
        Some(action) => {
            law_choices_lead_to_their_actions(cfg.groups@, id@, action);
        },
        None => {
            law_choices_lead_to_their_actions(cfg.groups@, id@, Action::StopAll);
        },
    }
}

/// Where the numbers of the applications differ, every application has entries of its own, and
/// the entry that opens a browser is among them if and only if it has an address.
pub proof fn law_every_application_has_its_entries(groups: Seq<AppItem>, i: int)
    requires
        0 <= i < groups.len(),
        forall|j: int, k: int|
            0 <= j < k < groups.len() ==> (#[trigger] groups[j]).uniq_id != (
            #[trigger] groups[k]).uniq_id,
    ensures
        browsers(groups).contains_key(groups[i].uniq_id),
        browsers(groups)[groups[i].uniq_id] == (groups[i].address@.len() > 0),
    decreases groups.len(),
{
    let rest = groups.drop_last();
    if i < groups.len() - 1 {
        assert(rest[i] == groups[i]);
        law_every_application_has_its_entries(rest, i);
        assert(groups[i].uniq_id != groups[groups.len() - 1].uniq_id);
    }
}

/// When the tray comes up, exactly the applications that are marked for it are started, and a
/// browser is opened for exactly those of them that are marked for that too.
pub proof fn law_marks_decide_what_comes_up(groups: Seq<AppItem>, index: usize)
    requires
        groups.len() <= usize::MAX,
    ensures
        launches(groups).contains(Action::Start(index)) <==> index < groups.len()
            && groups[index as int].auto_start,
        launches(groups).contains(Action::OpenBrowser(index)) <==> index < groups.len()
            && groups[index as int].auto_start && groups[index as int].auto_open,
    decreases groups.len(),
{
    if groups.len() > 0 {
        let last = (groups.len() - 1) as usize;
        let rest = launches(groups.drop_last());
        let own = launches_of(last, groups.last());
        law_marks_decide_what_comes_up(groups.drop_last(), index);
        lemma_contains_concat(rest, own, Action::Start(index));
        lemma_contains_concat(rest, own, Action::OpenBrowser(index));
        assert(own.contains(Action::Start(index)) <==> index == last && groups.last().auto_start)
            by {
            if index == last && groups.last().auto_start {
                assert(own[0] == Action::Start(index));
            }
        }
        assert(own.contains(Action::OpenBrowser(index)) <==> index == last
            && groups.last().auto_start && groups.last().auto_open) by {
            if index == last && groups.last().auto_start && groups.last().auto_open {
                assert(own[1] == Action::OpenBrowser(index));
            }
        }
    }
}

proof fn lemma_contains_concat(a: Seq<Action>, b: Seq<Action>, action: Action)
    ensures
        (a + b).contains(action) <==> a.contains(action) || b.contains(action),
{
    if a.contains(action) {
        let k = choose|k: int| 0 <= k < a.len() && a[k] == action;
        assert((a + b)[k] == action);
    }
    if b.contains(action) {
        let k = choose|k: int| 0 <= k < b.len() && b[k] == action;
        assert((a + b)[a.len() + k] == action);
    }
}

} // verus!
