//! The main menu: a single entry, which clears the directory index.

use crate::controller::Message;
use vstd::prelude::*;

verus! {

/// The main menu.
#[derive(Clone, Copy, Debug, PartialEq, Eq, Structural)]
pub struct MainMenu {}

/// An entry of the main menu.
#[derive(Clone, Copy, Debug, PartialEq, Eq, Structural)]
pub enum MenuEntry {
    InvalidateCache,
}

impl MainMenu {
    /// The main menu.
    pub fn new() -> (menu: MainMenu)
        ensures
            menu == (MainMenu {  }),
    {
        MainMenu {  }
    }

    /// The entries of the menu, in order.
    pub fn entries(&self) -> (entries: Vec<MenuEntry>)
        ensures
            entries@ == seq![MenuEntry::InvalidateCache],
    {
        let mut entries: Vec<MenuEntry> = Vec::new();
        entries.push(MenuEntry::InvalidateCache);
        assert(entries@ =~= seq![MenuEntry::InvalidateCache]);
        entries
    }

    /// The message that choosing an entry sends.
    pub fn message(&self, entry: MenuEntry) -> (message: Message)
        ensures
            message is InvalidateDircache,
    {
        match entry {
            MenuEntry::InvalidateCache => Message::InvalidateDircache,
        }
    }
}

} // verus!
