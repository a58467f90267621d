use mindr::config::{Action, Config, MissingActionMapping, Settings};
use mindr::selection::Selection;

fn settings(keys: Vec<Option<String>>) -> Settings {
    Settings {
        auto_hide_menu: None,
        display_todays: None,
        remind_unfinished: None,
        hide_menu_timeout: None,
        selection_style: None,
        keys,
    }
}

#[test]
fn default_config_maps_every_action() {
    let config = Config::default();
    assert!(config.display_todays);
    assert!(config.remind_unfinished);
    assert!(!config.auto_hide_menu);
    assert_eq!(config.hide_menu_timeout, 500);
    assert_eq!(config.selection_style, Selection::Brackets);
    let keys: Vec<char> = Action::iterate()
        .iter()
        .map(|a| Action::get_action_char(&config.key_mapping, *a))
        .collect();
    assert_eq!(keys, vec!['j', 'k', 'h', 'l', 'f', 'q', 'a', 'd', 'e']);
}

#[test]
fn action_names() {
    let names: Vec<&str> = Action::iterate().iter().map(|a| a.as_str()).collect();
    assert_eq!(
        names,
        vec!["up", "down", "prev_menu", "next_menu", "mark", "quit", "add_todo", "remove_todo", "edit_todo"]
    );
}

#[test]
fn first_binding_wins() {
    let mapping = vec![(Action::Up, 'x'), (Action::Up, 'y'), (Action::Down, 'z')];
    assert_eq!(Action::get_action_char(&mapping, Action::Up), 'x');
    assert_eq!(Action::get_action_char(&mapping, Action::Down), 'z');
}

#[test]
fn settings_fill_in_defaults() {
    let mut keys = vec![None; 9];
    keys[0] = Some(String::from("up-arrow"));
    let mut s = settings(keys);
    s.display_todays = Some(false);
    s.auto_hide_menu = Some(true);
    s.hide_menu_timeout = Some(1000);
    s.selection_style = Some(String::from("tilde"));
    let config = Config::from_settings(s).expect("complete");
    assert!(!config.display_todays);
    assert!(config.auto_hide_menu);
    assert!(config.remind_unfinished);
    assert_eq!(config.hide_menu_timeout, 1000);
    assert_eq!(config.selection_style, Selection::Tilde);
    assert_eq!(config.key_mapping[0], (Action::Up, 'u'));
    assert_eq!(config.key_mapping[8], (Action::EditTodo, 'e'));
}

#[test]
fn settings_out_of_range_fall_back() {
    let mut s = settings(vec![None; 9]);
    s.hide_menu_timeout = Some(60001);
    s.selection_style = Some(String::from("sparkles"));
    let config = Config::from_settings(s).expect("complete");
    assert_eq!(config.hide_menu_timeout, 500);
    assert_eq!(config.selection_style, Selection::Brackets);
    let mut s = settings(vec![None; 9]);
    s.hide_menu_timeout = Some(60000);
    assert_eq!(Config::from_settings(s).expect("complete").hide_menu_timeout, 60000);
}

#[test]
fn empty_key_is_a_missing_mapping() {
    let mut keys = vec![None; 9];
    keys[5] = Some(String::new());
    let err = Config::from_settings(settings(keys)).err().expect("rejected");
    assert_eq!(err, MissingActionMapping { action: Action::Quit });
}

#[test]
fn save_lists_every_entry() {
    let config = Config::default();
    let entries = config.save();
    assert_eq!(entries.len(), 14);
    assert_eq!(
        entries[3],
        (String::from("general"), String::from("hide_menu_timeout"), String::from("500"))
    );
    assert_eq!(
        entries[4],
        (String::from("style"), String::from("selection_style"), String::from("brackets"))
    );
    assert_eq!(
        entries[10],
        (String::from("key_mapping"), String::from("quit"), String::from("q"))
    );
    assert_eq!(entries[0].2, "true");
    assert_eq!(entries[2].2, "false");
}
