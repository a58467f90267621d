//! The application loop's decisions: which component a key goes to, when
//! the loop ends, and what is drawn after each key.
use vstd::prelude::*;
use crate::config::{is_mapped, is_total, key_of, Action, Config};
use crate::done::{description_lines, done_before, Done};
use crate::menu::{menu_action, menu_text, next_item, prev_item, Menu, MenuItem};
use crate::store::{rows_text, todo_step, Todo, TodoEffect};
use crate::text::push_all;
use crate::terminal::goto_seq;
use crate::timestamp::{day_number, Timestamp};
use crate::todo::{all_wf, item_views, TodoItem};

verus! {

/// What the loop does after a key.
#[derive(Clone, Copy, Debug, PartialEq, Eq, Structural)]
pub enum AppEffect {
    /// Stop: restore the cursor and return.
    Quit,
    /// Go on: clear the screen first if asked, carry out what the list
    /// asks, then draw again.
    Continue { clear_screen: bool, todo: TodoEffect },
}

/// The running application: the tab bar, the todo list, and the done tab
/// as it was when the application started.
pub struct App {
    pub menu: Menu,
    pub todo: Todo,
    pub done: Done,
    pub key_mapping: Vec<(Action, char)>,
}

/// What the selected tab draws: the list on the todo tab, the finished
/// records on the done tab, nothing on the others.
pub open spec fn tab_body(app: &App) -> Seq<char> {
    if app.menu.selected_menu == MenuItem::Todo {
        rows_text(
            app.todo.items(),
            app.todo.selected_index as int,
            app.todo.selection_style,
            app.todo.todo_list@.len() as int,
        ) + seq!['\n']
    } else if app.menu.selected_menu == MenuItem::Done {
        goto_seq(5, 2).push('\n') + description_lines(item_views(app.done.done_list@)) + seq!['\n']
    } else {
        Seq::<char>::empty()
    }
}

impl App {
    pub open spec fn wf(&self) -> bool {
        &&& self.menu.wf()
        &&& self.todo.wf()
        &&& is_total(self.key_mapping@)
    }

    /// The application over `todo_list`, with the first tab and the first
    /// record selected; the done tab shows what was finished before `today`.
    pub fn init(config: &Config, todo_list: Vec<TodoItem>, today: &Timestamp) -> (r: App)
        requires
            is_total(config.key_mapping@),
            all_wf(todo_list@),
            today.wf(),
        ensures
            item_views(r.done.done_list@) == done_before(item_views(todo_list@), day_number(today@)),
            r.wf(),
            r.menu.selected_menu == MenuItem::Todo,
            r.menu.selection_style == config.selection_style,
            r.todo.todo_list@ == todo_list@,
            r.todo.selected_index == 0,
            r.todo.selection_style == config.selection_style,
            r.key_mapping@ == config.key_mapping@,
    {
        let menu = Menu::init(&config.selection_style, &config.key_mapping);
        let done = Done::init(&todo_list, today);
        let todo = Todo::init(&config.selection_style, &config.key_mapping, todo_list);
        let mut key_mapping: Vec<(Action, char)> = Vec::new();
        let mut i: usize = 0;
        while i < config.key_mapping.len()
            invariant
                i <= config.key_mapping@.len(),
                key_mapping@ == config.key_mapping@.take(i as int),
            decreases config.key_mapping@.len() - i,
        {
            key_mapping.push(config.key_mapping[i]);
            i += 1;
            assert(key_mapping@ =~= config.key_mapping@.take(i as int));
        }
        assert(key_mapping@ =~= config.key_mapping@);
        App { menu, todo, done, key_mapping }
    }

    /// Handles one key. The quit key ends the loop and changes nothing.
    /// Any other key goes to the tab bar, then, if the todo tab is the one
    /// selected afterwards, to the list.
    pub fn handle_key(&mut self, key: char) -> (r: AppEffect)
        requires
            old(self).wf(),
        ensures
            final(self).wf(),
            key == key_of(old(self).key_mapping@, Action::Quit) ==> r == AppEffect::Quit
                && *final(self) == *old(self),
            key != key_of(old(self).key_mapping@, Action::Quit) ==> {
                &&& r matches AppEffect::Continue { clear_screen, todo }
                &&& clear_screen == (menu_action(old(self).menu.key_mapping@, key) is Some)
                &&& final(self).menu.selected_menu == match menu_action(
                    old(self).menu.key_mapping@,
                    key,
                ) {
                    Some(Action::PrevMenu) => prev_item(old(self).menu.selected_menu),
                    Some(Action::NextMenu) => next_item(old(self).menu.selected_menu),
                    _ => old(self).menu.selected_menu,
                }
                &&& final(self).menu.selection_style == old(self).menu.selection_style
                &&& final(self).key_mapping@ == old(self).key_mapping@
                &&& final(self).done == old(self).done
                &&& final(self).menu.selected_menu == MenuItem::Todo ==> todo_step(
                    old(self).todo,
                    final(self).todo,
                    key,
                    todo,
                )
                &&& final(self).menu.selected_menu != MenuItem::Todo ==> final(self).todo
                    == old(self).todo && todo == TodoEffect::Nothing
            },
    {
        proof {
            assert(is_mapped(self.key_mapping@, Action::Quit));
        }
        if key == Action::get_action_char(&self.key_mapping, Action::Quit) {
            return AppEffect::Quit;
        }
        let clear_screen = self.menu.listen_keys(key);
        let todo = if self.menu.selected_menu == MenuItem::Todo {
            self.todo.listen_keys(key)
        } else {
            TodoEffect::Nothing
        };
        AppEffect::Continue { clear_screen, todo }
    }

    /// What is drawn after each key: the list when its tab is selected,
    /// then the tab bar.
    pub fn render(&self) -> (r: String)
        requires
            self.wf(),
        ensures
            r@ == tab_body(self) + menu_text(self.menu.selected_menu, self.menu.selection_style),
    {
        let mut out = String::new();
        if self.menu.selected_menu == MenuItem::Todo {
            let list = self.todo.render();
            push_all(&mut out, list.as_str());
        } else if self.menu.selected_menu == MenuItem::Done {
            let list = self.done.render();
            push_all(&mut out, list.as_str());
        }
        let bar = self.menu.render();
        push_all(&mut out, bar.as_str());
        proof {
            assert(out@ =~= tab_body(self) + menu_text(self.menu.selected_menu, self.menu.selection_style));
        }
        out
    }
}

} // verus!
