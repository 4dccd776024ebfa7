//! What the menu shows of an application: which of its entries can be chosen, and its mark.

use vstd::prelude::*;

use crate::icon::{get_menu_icon, icon_view, menu_icon, IconImage};

verus! {

/// The entry that heads an application's part of the menu.
#[derive(Debug)]
pub enum TitleMenu {
    /// A submenu, with the mark beside its name.
    Submenu(Option<IconImage>),
}

/// The entries of an application: whether each can be chosen, and the title's mark.
#[derive(Debug)]
pub struct UiEntry {
    pub start: bool,
    pub stop: bool,
    pub restart: bool,
    pub title: TitleMenu,
    /// The entry that opens a browser, for an application that has an address.
    pub open: Option<bool>,
}

impl UiEntry {
    /// Whether the entries show that the application is running, or that it is not: it can be
    /// started only when it is not running, and stopped, restarted and opened only when it is.
    pub open spec fn shows(self, running: bool) -> bool {
        &&& self.start == !running
        &&& self.stop == running
        &&& self.restart == running
        &&& self.title matches TitleMenu::Submenu(icon) && icon_view(icon) == Some(
            menu_icon(running),
        )
        &&& self.open matches Some(enabled) ==> enabled == running
    }

    /// The entries of an application as the menu is built: it can be started, and nothing else.
    pub fn new(browser: bool) -> (entry: UiEntry)
        ensures
            entry.start,
            !entry.stop,
            !entry.restart,
            entry.title == TitleMenu::Submenu(None),
            entry.open == (if browser {
                Some(false)
            } else {
                None
            }),
    {
        UiEntry {
            start: true,
            stop: false,
            restart: false,
            title: TitleMenu::Submenu(None),
            open: if browser {
                Some(false)
            } else {
                None
            },
        }
    }

    /// Makes the entries show that the application is running, or that it is not.
    pub fn set_running(&mut self, running: bool)
        ensures
            final(self).shows(running),
            final(self).open is Some == old(self).open is Some,
            final(self).start == !running,
            final(self).stop == running,
            final(self).restart == running,
            final(self).open == (if old(self).open is Some {
                Some(running)
            } else {
                None
            }),
            final(self).title matches TitleMenu::Submenu(Some(mark)) && mark@ == menu_icon(running),
    {
        self.start = !running;
        self.stop = running;
        self.restart = running;
        self.title = TitleMenu::Submenu(Some(get_menu_icon(running)));
        if self.open.is_some() {
            self.open = Some(running);
        }
    }
}

} // verus!
