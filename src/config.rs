//! User intents, the keys bound to them, and the settings read at startup.
use vstd::prelude::*;
use vstd::string::*;
use crate::selection::{selection_name, selection_named, Selection};
use crate::text::{chars_of, dec, push_dec};

verus! {

/// An abstract user intent, decoupled from the key that triggers it.
#[derive(Clone, Copy, Debug, PartialEq, Eq, Structural)]
pub enum Action {
    Up,
    Down,
    PrevMenu,
    NextMenu,
    Mark,
    Quit,
    AddTodo,
    RemoveTodo,
    EditTodo,
}

/// The name under which an action's key is configured.
pub open spec fn action_name(a: Action) -> Seq<char> {
    match a {
        Action::Up => "up"@,
        Action::Down => "down"@,
        Action::PrevMenu => "prev_menu"@,
        Action::NextMenu => "next_menu"@,
        Action::Mark => "mark"@,
        Action::Quit => "quit"@,
        Action::AddTodo => "add_todo"@,
        Action::RemoveTodo => "remove_todo"@,
        Action::EditTodo => "edit_todo"@,
    }
}

/// Every action, in the order in which they are configured.
pub open spec fn all_actions() -> Seq<Action> {
    seq![
        Action::Up,
        Action::Down,
        Action::PrevMenu,
        Action::NextMenu,
        Action::Mark,
        Action::Quit,
        Action::AddTodo,
        Action::RemoveTodo,
        Action::EditTodo,
    ]
}

/// The key bound to each action when nothing else is configured.
pub open spec fn default_key(a: Action) -> char {
    match a {
        Action::Up => 'j',
        Action::Down => 'k',
        Action::PrevMenu => 'h',
        Action::NextMenu => 'l',
        Action::Mark => 'f',
        Action::Quit => 'q',
        Action::AddTodo => 'a',
        Action::RemoveTodo => 'd',
        Action::EditTodo => 'e',
    }
}

pub open spec fn default_key_mapping() -> Seq<(Action, char)> {
    all_actions().map_values(|a: Action| (a, default_key(a)))
}

/// Whether `m` binds a key to `a`.
pub open spec fn is_mapped(m: Seq<(Action, char)>, a: Action) -> bool {
    exists|i: int| 0 <= i < m.len() && (#[trigger] m[i]).0 == a
}

/// Whether `m` binds a key to every action.
pub open spec fn is_total(m: Seq<(Action, char)>) -> bool {
    forall|a: Action| is_mapped(m, a)
}

/// The key of the first pair in `m` that names `a`.
pub open spec fn key_of(m: Seq<(Action, char)>, a: Action) -> char
    decreases m.len(),
{
    if m.len() == 0 {
        ' '
    } else if m[0].0 == a {
        m[0].1
    } else {
        key_of(m.drop_first(), a)
    }
}

impl Action {
    /// The name under which this action's key is configured.
    pub fn as_str(&self) -> (r: &'static str)
        ensures
            r@ == action_name(*self),
    {
        match self {
            Action::Up => "up",
            Action::Down => "down",
            Action::PrevMenu => "prev_menu",
            Action::NextMenu => "next_menu",
            Action::Mark => "mark",
            Action::Quit => "quit",
            Action::AddTodo => "add_todo",
            Action::RemoveTodo => "remove_todo",
            Action::EditTodo => "edit_todo",
        }
    }

    /// Every action, in the order in which they are configured.
    pub fn iterate() -> (r: Vec<Action>)
        ensures
            r@ == all_actions(),
    {
        let r = vec![
            Action::Up,
            Action::Down,
            Action::PrevMenu,
            Action::NextMenu,
            Action::Mark,
            Action::Quit,
            Action::AddTodo,
            Action::RemoveTodo,
            Action::EditTodo,
        ];
        assert(r@ =~= all_actions());
        r
    }

    /// The key bound to `action`: the first binding that names it.
    pub fn get_action_char(key_mapping: &Vec<(Self, char)>, action: Action) -> (r: char)
        requires
            is_mapped(key_mapping@, action),
        ensures
            r == key_of(key_mapping@, action),
    {
        let ghost m = key_mapping@;
        let mut i: usize = 0;
        assert(m.subrange(0, m.len() as int) =~= m);
        while i < key_mapping.len()
            invariant
                i <= m.len(),
                m == key_mapping@,
                key_of(m, action) == key_of(m.subrange(i as int, m.len() as int), action),
                forall|k: int| 0 <= k < i ==> (#[trigger] m[k]).0 != action,
                is_mapped(m, action),
            decreases m.len() - i,
        {
            let (a, c) = key_mapping[i];
            assert(m.subrange(i as int, m.len() as int)[0] == m[i as int]);
            if a == action {
                return c;
            }
            assert(m.subrange(i as int, m.len() as int).drop_first() =~= m.subrange(
                i + 1,
                m.len() as int,
            ));
            i += 1;
        }
        proof {
            let k = choose|k: int| 0 <= k < m.len() && (#[trigger] m[k]).0 == action;
            assert(m[k].0 != action);
        }
        ' '
    }
}

/// The first key of a configured key name, or the default when none is
/// configured; `None` when the configured name is empty.
pub open spec fn configured_key(a: Action, key: Option<Seq<char>>) -> Option<char> {
    match key {
        None => Some(default_key(a)),
        Some(k) => if k.len() > 0 {
            Some(k[0])
        } else {
            None
        },
    }
}

pub open spec fn bool_text(b: bool) -> Seq<char> {
    if b {
        "true"@
    } else {
        "false"@
    }
}

/// The bound on the menu timeout; larger values fall back to the default.
pub const MAX_HIDE_MENU_TIMEOUT: u64 = 60000;

pub const DEFAULT_HIDE_MENU_TIMEOUT: u16 = 500;

/// The configured timeout, or the default when it is missing or too large.
pub open spec fn timeout_of(t: Option<u64>) -> u16 {
    match t {
        Some(n) => if n > MAX_HIDE_MENU_TIMEOUT {
            DEFAULT_HIDE_MENU_TIMEOUT
        } else {
            n as u16
        },
        None => DEFAULT_HIDE_MENU_TIMEOUT,
    }
}

/// The configured style, or brackets when it is missing or unknown.
pub open spec fn style_of(s: Option<Seq<char>>) -> Selection {
    match s {
        Some(name) => match selection_named(name) {
            Some(st) => st,
            None => Selection::Brackets,
        },
        None => Selection::Brackets,
    }
}

/// A configuration key for which an empty key was given.
#[derive(Clone, Copy, Debug, PartialEq, Eq, Structural)]
pub struct MissingActionMapping {
    pub action: Action,
}

/// The settings as they were found in the configuration file, each absent
/// when the file does not give it.
pub struct Settings {
    pub auto_hide_menu: Option<bool>,
    pub display_todays: Option<bool>,
    pub remind_unfinished: Option<bool>,
    pub hide_menu_timeout: Option<u64>,
    pub selection_style: Option<String>,
    /// One entry per action, in the order of `Action::iterate`.
    pub keys: Vec<Option<String>>,
}

pub open spec fn opt_view(o: Option<String>) -> Option<Seq<char>> {
    match o {
        Some(s) => Some(s@),
        None => None,
    }
}

/// The application's settings.
pub struct Config {
    pub display_todays: bool,
    pub remind_unfinished: bool,
    pub auto_hide_menu: bool,
    pub hide_menu_timeout: u16,
    pub selection_style: Selection,
    pub key_mapping: Vec<(Action, char)>,
}

/// The entries written for a configuration: section, key and value.
pub open spec fn config_entries(c: Config) -> Seq<(Seq<char>, Seq<char>, Seq<char>)> {
    seq![
        ("general"@, "display_todays"@, bool_text(c.display_todays)),
        ("general"@, "remind_unfinished"@, bool_text(c.remind_unfinished)),
        ("general"@, "auto_hide_menu"@, bool_text(c.auto_hide_menu)),
        ("general"@, "hide_menu_timeout"@, dec(c.hide_menu_timeout as nat)),
        ("style"@, "selection_style"@, selection_name(c.selection_style)),
    ] + c.key_mapping@.map_values(
        |p: (Action, char)| ("key_mapping"@, action_name(p.0), seq![p.1]),
    )
}

pub open spec fn entry_views(e: Seq<(String, String, String)>) -> Seq<
    (Seq<char>, Seq<char>, Seq<char>),
> {
    e.map_values(|t: (String, String, String)| (t.0@, t.1@, t.2@))
}

fn bool_string(b: bool) -> (r: String)
    ensures
        r@ == bool_text(b),
{
    if b {
        String::from_str("true")
    } else {
        String::from_str("false")
    }
}

fn entry(section: &str, key: &str, value: String) -> (r: (String, String, String))
    ensures
        r.0@ == section@,
        r.1@ == key@,
        r.2@ == value@,
{
    (String::from_str(section), String::from_str(key), value)
}

impl Config {
    /// The settings used when nothing is configured.
    pub fn default() -> (r: Config)
        ensures
            r.display_todays,
            r.remind_unfinished,
            !r.auto_hide_menu,
            r.hide_menu_timeout == DEFAULT_HIDE_MENU_TIMEOUT,
            r.selection_style == Selection::Brackets,
            r.key_mapping@ == default_key_mapping(),
            is_total(r.key_mapping@),
    {
        let key_mapping = vec![
            (Action::Up, 'j'),
            (Action::Down, 'k'),
            (Action::PrevMenu, 'h'),
            (Action::NextMenu, 'l'),
            (Action::Mark, 'f'),
            (Action::Quit, 'q'),
            (Action::AddTodo, 'a'),
            (Action::RemoveTodo, 'd'),
            (Action::EditTodo, 'e'),
        ];
        proof {
            assert(key_mapping@ =~= default_key_mapping());
            lemma_default_total();
        }
        Config {
            display_todays: true,
            remind_unfinished: true,
            auto_hide_menu: false,
            hide_menu_timeout: DEFAULT_HIDE_MENU_TIMEOUT,
            selection_style: Selection::Brackets,
            key_mapping,
        }
    }

    /// The configuration that the given settings describe: a missing value
    /// takes its default, a timeout over the bound takes the default, an
    /// unknown style is brackets, and a missing key its default key. Fails
    /// on the first action whose configured key is empty.
    pub fn from_settings(settings: Settings) -> (r: Result<Config, MissingActionMapping>)
        requires
            settings.keys@.len() == 9,
        ensures
            (forall|i: int|
                0 <= i < 9 ==> configured_key(
                    all_actions()[i],
                    opt_view(#[trigger] settings.keys@[i]),
                ) is Some) <==> r is Ok,
            r matches Err(e) ==> exists|i: int|
                0 <= i < 9 && e.action == all_actions()[i] && configured_key(
                    all_actions()[i],
                    opt_view(#[trigger] settings.keys@[i]),
                ) is None,
            r matches Ok(c) ==> {
                &&& c.auto_hide_menu == match settings.auto_hide_menu {
                    Some(b) => b,
                    None => false,
                }
                &&& c.display_todays == match settings.display_todays {
                    Some(b) => b,
                    None => true,
                }
                &&& c.remind_unfinished == match settings.remind_unfinished {
                    Some(b) => b,
                    None => true,
                }
                &&& c.hide_menu_timeout == timeout_of(settings.hide_menu_timeout)
                &&& c.selection_style == style_of(opt_view(settings.selection_style))
                &&& c.key_mapping@.len() == 9
                &&& forall|i: int|
                    0 <= i < 9 ==> (#[trigger] c.key_mapping@[i]) == (
                        all_actions()[i],
                        configured_key(all_actions()[i], opt_view(settings.keys@[i]))->0,
                    )
                &&& is_total(c.key_mapping@)
            },
    {
        let auto_hide_menu = match settings.auto_hide_menu {
            Some(b) => b,
            None => false,
        };
        let display_todays = match settings.display_todays {
            Some(b) => b,
            None => true,
        };
        let remind_unfinished = match settings.remind_unfinished {
            Some(b) => b,
            None => true,
        };
        let hide_menu_timeout = match settings.hide_menu_timeout {
            Some(n) => if n > MAX_HIDE_MENU_TIMEOUT {
                DEFAULT_HIDE_MENU_TIMEOUT
            } else {
                n as u16
            },
            None => DEFAULT_HIDE_MENU_TIMEOUT,
        };
        let selection_style = match &settings.selection_style {
            Some(name) => match Selection::from_str(name.as_str()) {
                Some(st) => st,
                None => Selection::Brackets,
            },
            None => Selection::Brackets,
        };
        let actions = Action::iterate();
        let mut key_mapping: Vec<(Action, char)> = Vec::new();
        let mut i: usize = 0;
        while i < 9
            invariant
                i <= 9,
                actions@ == all_actions(),
                settings.keys@.len() == 9,
                key_mapping@.len() == i,
                forall|j: int|
                    0 <= j < i ==> configured_key(
                        all_actions()[j],
                        opt_view(#[trigger] settings.keys@[j]),
                    ) is Some,
                forall|j: int|
                    0 <= j < i ==> (#[trigger] key_mapping@[j]) == (
                        all_actions()[j],
                        configured_key(all_actions()[j], opt_view(settings.keys@[j]))->0,
                    ),
            decreases 9 - i,
        {
            let action = actions[i];
            let key = match &settings.keys[i] {
                None => Action::default_char(action),
                Some(k) => {
                    let cs = chars_of(k.as_str());
                    if cs.len() == 0 {
                        return Err(MissingActionMapping { action });
                    }
                    cs[0]
                },
            };
            key_mapping.push((action, key));
            i += 1;
        }
        proof {
            assert forall|a: Action| is_mapped(key_mapping@, a) by {
                let k: int = match a {
                    Action::Up => 0,
                    Action::Down => 1,
                    Action::PrevMenu => 2,
                    Action::NextMenu => 3,
                    Action::Mark => 4,
                    Action::Quit => 5,
                    Action::AddTodo => 6,
                    Action::RemoveTodo => 7,
                    Action::EditTodo => 8,
                };
                assert(key_mapping@[k].0 == a);
            }
        }
        Ok(
            Config {
                display_todays,
                remind_unfinished,
                auto_hide_menu,
                hide_menu_timeout,
                selection_style,
                key_mapping,
            },
        )
    }

    /// The entries that store this configuration, in writing order.
    pub fn save(&self) -> (r: Vec<(String, String, String)>)
        ensures
            entry_views(r@) == config_entries(*self),
    {
        let mut r: Vec<(String, String, String)> = Vec::new();
        r.push(entry("general", "display_todays", bool_string(self.display_todays)));
        r.push(entry("general", "remind_unfinished", bool_string(self.remind_unfinished)));
        r.push(entry("general", "auto_hide_menu", bool_string(self.auto_hide_menu)));
        let mut timeout = String::new();
        push_dec(&mut timeout, self.hide_menu_timeout as u32);
        r.push(entry("general", "hide_menu_timeout", timeout));
        let style = String::from_str(self.selection_style.as_str());
        r.push(entry("style", "selection_style", style));
        let ghost head = entry_views(r@);
        assert(head =~= config_entries(*self).take(5));
        let mut i: usize = 0;
        while i < self.key_mapping.len()
            invariant
                i <= self.key_mapping@.len(),
                entry_views(r@) =~= config_entries(*self).take(5 + i),
            decreases self.key_mapping@.len() - i,
        {
            let (action, key) = self.key_mapping[i];
            let mut k = String::new();
            k.push(key);
            let ghost before = r@;
            r.push(entry("key_mapping", action.as_str(), k));
            proof {
                assert(entry_views(r@) =~= entry_views(before).push(entry_views(r@).last()));
            }
            i += 1;
        }
        proof {
            assert(config_entries(*self).take(5 + i) =~= config_entries(*self));
        }
        r
    }
}

impl Action {
    /// The key bound to this action when nothing else is configured.
    pub fn default_char(self) -> (r: char)
        ensures
            r == default_key(self),
    {
        match self {
            Action::Up => 'j',
            Action::Down => 'k',
            Action::PrevMenu => 'h',
            Action::NextMenu => 'l',
            Action::Mark => 'f',
            Action::Quit => 'q',
            Action::AddTodo => 'a',
            Action::RemoveTodo => 'd',
            Action::EditTodo => 'e',
        }
    }
}

proof fn lemma_default_total()
    ensures
        is_total(default_key_mapping()),
{
    let m = default_key_mapping();
    assert forall|a: Action| is_mapped(m, a) by {
        let k: int = match a {
            Action::Up => 0,
            Action::Down => 1,
            Action::PrevMenu => 2,
            Action::NextMenu => 3,
            Action::Mark => 4,
            Action::Quit => 5,
            Action::AddTodo => 6,
            Action::RemoveTodo => 7,
            Action::EditTodo => 8,
        };
        assert(m[k].0 == a);
    }
}

} // verus!
