//! The tab bar: four tabs in a fixed order and the one that is selected.
use vstd::prelude::*;
use crate::config::{is_mapped, is_total, key_of, Action};
use crate::selection::{styled, PrintStyle, Selection};
use crate::terminal::{goto_seq, Cursor};
use crate::text::{push_all, same_text, trim, trimmed};

verus! {

/// One of the top-level views.
#[derive(Clone, Copy, Debug, PartialEq, Eq, Structural)]
pub enum MenuItem {
    Todo,
    Done,
    Settings,
    Help,
}

pub open spec fn menu_name(item: MenuItem) -> Seq<char> {
    match item {
        MenuItem::Todo => "TODO"@,
        MenuItem::Done => "DONE"@,
        MenuItem::Settings => "SETTINGS"@,
        MenuItem::Help => "HELP"@,
    }
}

/// The label drawn for a tab: its name with a space on each side.
pub open spec fn menu_label(item: MenuItem) -> Seq<char> {
    seq![' '] + menu_name(item) + seq![' ']
}

/// The tab that a name denotes, if any.
pub open spec fn menu_named(s: Seq<char>) -> Option<MenuItem> {
    if s == "TODO"@ {
        Some(MenuItem::Todo)
    } else if s == "DONE"@ {
        Some(MenuItem::Done)
    } else if s == "SETTINGS"@ {
        Some(MenuItem::Settings)
    } else if s == "HELP"@ {
        Some(MenuItem::Help)
    } else {
        None
    }
}

/// The tabs, left to right.
pub open spec fn menu_order() -> Seq<MenuItem> {
    seq![MenuItem::Todo, MenuItem::Done, MenuItem::Settings, MenuItem::Help]
}

pub open spec fn menu_index(item: MenuItem) -> int {
    match item {
        MenuItem::Todo => 0,
        MenuItem::Done => 1,
        MenuItem::Settings => 2,
        MenuItem::Help => 3,
    }
}

/// The tab left of `item`, or `item` itself at the left end.
pub open spec fn prev_item(item: MenuItem) -> MenuItem {
    if menu_index(item) > 0 {
        menu_order()[menu_index(item) - 1]
    } else {
        item
    }
}

/// The tab right of `item`, or `item` itself at the right end.
pub open spec fn next_item(item: MenuItem) -> MenuItem {
    if menu_index(item) < 3 {
        menu_order()[menu_index(item) + 1]
    } else {
        item
    }
}

/// The text that draws one tab.
pub open spec fn tab_text(selected: MenuItem, style: Selection, item: MenuItem) -> Seq<char> {
    styled(
        menu_label(item),
        if item == selected {
            Some(style)
        } else {
            None
        },
        false,
        seq![' ', ' ', ' '],
    )
}

/// The text that draws the tab bar from the top-left corner.
pub open spec fn menu_text(selected: MenuItem, style: Selection) -> Seq<char> {
    goto_seq(1, 1) + tab_text(selected, style, MenuItem::Todo) + tab_text(
        selected,
        style,
        MenuItem::Done,
    ) + tab_text(selected, style, MenuItem::Settings) + tab_text(selected, style, MenuItem::Help)
}

/// The navigation, among the menu's actions, that `key` triggers; moving
/// left wins when both share a key.
pub open spec fn menu_action(m: Seq<(Action, char)>, key: char) -> Option<Action> {
    if key == key_of(m, Action::PrevMenu) {
        Some(Action::PrevMenu)
    } else if key == key_of(m, Action::NextMenu) {
        Some(Action::NextMenu)
    } else {
        None
    }
}

impl MenuItem {
    /// The label drawn for this tab.
    pub fn as_str(&self) -> (r: String)
        ensures
            r@ == menu_label(*self),
    {
        let mut r = String::new();
        r.push(' ');
        match self {
            MenuItem::Todo => push_all(&mut r, "TODO"),
            MenuItem::Done => push_all(&mut r, "DONE"),
            MenuItem::Settings => push_all(&mut r, "SETTINGS"),
            MenuItem::Help => push_all(&mut r, "HELP"),
        }
        r.push(' ');
        proof {
            assert(r@ =~= menu_label(*self));
        }
        r
    }

    /// The tab named by `s`, ignoring surrounding whitespace.
    pub fn from_str(s: &str) -> (r: Option<MenuItem>)
        ensures
            r == menu_named(trim(s@)),
    {
        let t = trimmed(s);
        let t = t.as_str();
        if same_text(t, "TODO") {
            Some(MenuItem::Todo)
        } else if same_text(t, "DONE") {
            Some(MenuItem::Done)
        } else if same_text(t, "SETTINGS") {
            Some(MenuItem::Settings)
        } else if same_text(t, "HELP") {
            Some(MenuItem::Help)
        } else {
            None
        }
    }
}

/// The tab bar's state.
pub struct Menu {
    pub menu: [MenuItem; 4],
    pub selected_menu: MenuItem,
    pub selection_style: Selection,
    pub key_mapping: Vec<(Action, char)>,
}

impl Menu {
    pub open spec fn wf(&self) -> bool {
        &&& self.menu@ == menu_order()
        &&& is_total(self.key_mapping@)
    }

    /// The tab bar with the first tab selected.
    pub fn init(selection_style: &Selection, key_mapping: &Vec<(Action, char)>) -> (r: Menu)
        requires
            is_total(key_mapping@),
        ensures
            r.wf(),
            r.selected_menu == MenuItem::Todo,
            r.selection_style == *selection_style,
            r.key_mapping@ == key_mapping@,
    {
        let mut km: Vec<(Action, char)> = Vec::new();
        let mut i: usize = 0;
        while i < key_mapping.len()
            invariant
                i <= key_mapping@.len(),
                km@ == key_mapping@.take(i as int),
            decreases key_mapping@.len() - i,
        {
            km.push(key_mapping[i]);
            i += 1;
            assert(km@ =~= key_mapping@.take(i as int));
        }
        assert(km@ =~= key_mapping@);
        let menu = [MenuItem::Todo, MenuItem::Done, MenuItem::Settings, MenuItem::Help];
        assert(menu@ =~= menu_order());
        Menu {
            menu,
            selected_menu: MenuItem::Todo,
            selection_style: *selection_style,
            key_mapping: km,
        }
    }

    pub fn set_selected_menu(&mut self, menu_item: MenuItem)
        ensures
            final(self).selected_menu == menu_item,
            final(self).menu == old(self).menu,
            final(self).selection_style == old(self).selection_style,
            final(self).key_mapping == old(self).key_mapping,
    {
        self.selected_menu = menu_item;
    }

    /// The position of the selected tab.
    fn position(&self) -> (r: usize)
        requires
            self.wf(),
        ensures
            r == menu_index(self.selected_menu),
    {
        let mut k: usize = 0;
        while k < 4
            invariant
                k <= 4,
                self.wf(),
                forall|j: int| 0 <= j < k ==> self.menu@[j] != self.selected_menu,
            decreases 4 - k,
        {
            if self.menu[k] == self.selected_menu {
                return k;
            }
            k += 1;
        }
        proof {
            let j = menu_index(self.selected_menu);
            assert(self.menu@[j] == self.selected_menu);
        }
        0
    }

    /// The tab left of the selected one, or the selected one at the left end.
    pub fn get_prev_menu(&self) -> (r: MenuItem)
        requires
            self.wf(),
        ensures
            r == prev_item(self.selected_menu),
    {
        let index = self.position();
        if index > 0 {
            self.menu[index - 1]
        } else {
            self.selected_menu
        }
    }

    /// The tab right of the selected one, or the selected one at the right end.
    pub fn get_next_menu(&self) -> (r: MenuItem)
        requires
            self.wf(),
        ensures
            r == next_item(self.selected_menu),
    {
        let index = self.position();
        if index < 3 {
            self.menu[index + 1]
        } else {
            self.selected_menu
        }
    }

    /// Selects the tab to the left; a no-op at the left end.
    pub fn select_previous(&mut self)
        requires
            old(self).wf(),
        ensures
            final(self).wf(),
            final(self).selected_menu == prev_item(old(self).selected_menu),
            final(self).selection_style == old(self).selection_style,
            final(self).key_mapping@ == old(self).key_mapping@,
    {
        let chosen = self.get_prev_menu();
        self.set_selected_menu(chosen);
    }

    /// Selects the tab to the right; a no-op at the right end.
    pub fn select_next(&mut self)
        requires
            old(self).wf(),
        ensures
            final(self).wf(),
            final(self).selected_menu == next_item(old(self).selected_menu),
            final(self).selection_style == old(self).selection_style,
            final(self).key_mapping@ == old(self).key_mapping@,
    {
        let chosen = self.get_next_menu();
        self.set_selected_menu(chosen);
    }

    /// The text that draws the tab bar, the selected tab in the selection
    /// style.
    pub fn render(&self) -> (r: String)
        requires
            self.wf(),
        ensures
            r@ == menu_text(self.selected_menu, self.selection_style),
    {
        let mut out = Cursor::reset();
        let mut k: usize = 0;
        while k < 4
            invariant
                k <= 3,
                self.wf(),
                out@ == goto_seq(1, 1) + (if k >= 1 {
                    tab_text(self.selected_menu, self.selection_style, MenuItem::Todo)
                } else {
                    Seq::<char>::empty()
                }) + (if k >= 2 {
                    tab_text(self.selected_menu, self.selection_style, MenuItem::Done)
                } else {
                    Seq::<char>::empty()
                }) + (if k >= 3 {
                    tab_text(self.selected_menu, self.selection_style, MenuItem::Settings)
                } else {
                    Seq::<char>::empty()
                }),
            decreases 4 - k,
        {
            let item = self.menu[k];
            let label = item.as_str();
            let mut spacing = String::new();
            spacing.push(' ');
            spacing.push(' ');
            spacing.push(' ');
            let style = PrintStyle {
                selection: if item == self.selected_menu {
                    Some(self.selection_style)
                } else {
                    None
                },
                strikethrough: false,
                spacing: Some(spacing),
            };
            let drawn = Selection::print_styled(label.as_str(), style);
            let ghost before = out@;
            push_all(&mut out, drawn.as_str());
            proof {
                assert(item == menu_order()[k as int]);
                assert(drawn@ == tab_text(self.selected_menu, self.selection_style, item));
                if k == 0 {
                    assert(out@ =~= goto_seq(1, 1) + tab_text(
                        self.selected_menu,
                        self.selection_style,
                        MenuItem::Todo,
                    ));
                } else if k == 1 {
                    assert(out@ =~= goto_seq(1, 1) + tab_text(
                        self.selected_menu,
                        self.selection_style,
                        MenuItem::Todo,
                    ) + tab_text(self.selected_menu, self.selection_style, MenuItem::Done));
                } else if k == 2 {
                    assert(out@ =~= goto_seq(1, 1) + tab_text(
                        self.selected_menu,
                        self.selection_style,
                        MenuItem::Todo,
                    ) + tab_text(self.selected_menu, self.selection_style, MenuItem::Done)
                        + tab_text(self.selected_menu, self.selection_style, MenuItem::Settings));
                } else {
                    assert(out@ =~= menu_text(self.selected_menu, self.selection_style));
                }
            }
            if k == 3 {
                return out;
            }
            k += 1;
        }
        out
    }

    /// Handles one key: the previous or next tab is selected when the key is
    /// bound to it. Returns whether the key was one of these, so that the
    /// screen is cleared.
    pub fn listen_keys(&mut self, key: char) -> (r: bool)
        requires
            old(self).wf(),
        ensures
            final(self).wf(),
            final(self).selection_style == old(self).selection_style,
            final(self).key_mapping@ == old(self).key_mapping@,
            r == (menu_action(old(self).key_mapping@, key) is Some),
            final(self).selected_menu == match menu_action(old(self).key_mapping@, key) {
                Some(Action::PrevMenu) => prev_item(old(self).selected_menu),
                Some(Action::NextMenu) => next_item(old(self).selected_menu),
                _ => old(self).selected_menu,
            },
    {
        proof {
            assert(is_mapped(self.key_mapping@, Action::PrevMenu));
            assert(is_mapped(self.key_mapping@, Action::NextMenu));
        }
        if key == Action::get_action_char(&self.key_mapping, Action::PrevMenu) {
            self.select_previous();
            true
        } else if key == Action::get_action_char(&self.key_mapping, Action::NextMenu) {
            self.select_next();
            true
        } else {
            false
        }
    }
}

} // verus!
