use mindr::app::{App, AppEffect};
use mindr::config::Config;
use mindr::done::Done;
use mindr::menu::{Menu, MenuItem};
use mindr::selection::{PrintStyle, Selection};
use mindr::store::{Todo, TodoEffect};
use mindr::terminal::{Cursor, Print, Screen};
use mindr::timestamp::Timestamp;
use mindr::todo::{Status, TodoItem};

fn style(selection: Option<Selection>, strikethrough: bool) -> PrintStyle {
    PrintStyle { selection, strikethrough, spacing: Some(String::from("  ")) }
}

fn item(id: u16, description: &str, status: Status) -> TodoItem {
    item_at(id, description, status, "2023-01-01 15:31:01 UTC")
}

fn item_at(id: u16, description: &str, status: Status, modified: &str) -> TodoItem {
    let t = Timestamp::parse(modified).expect("valid");
    TodoItem {
        id,
        date_created: t.duplicate(),
        date_modified: t,
        status,
        description: String::from(description),
    }
}

#[test]
fn selected_str_replaces_the_wrappers() {
    assert_eq!(Selection::get_selected_str(" TODO ", &Selection::Brackets), "[TODO]");
    assert_eq!(Selection::get_selected_str(" TODO ", &Selection::Tilde), "~TODO ");
    assert_eq!(Selection::get_selected_str(" TODO ", &Selection::Outline), " TODO ");
    assert_eq!(Selection::get_selected_str(" TODO ", &Selection::Bold), " TODO ");
}

#[test]
fn styled_text_for_each_selection() {
    assert_eq!(Selection::print_styled(" a ", style(None, false)), " a   ");
    assert_eq!(Selection::print_styled(" a ", style(Some(Selection::Brackets), false)), "[a]  ");
    assert_eq!(Selection::print_styled(" a ", style(Some(Selection::Tilde), false)), "~a   ");
    assert_eq!(
        Selection::print_styled(" a ", style(Some(Selection::Bold), false)),
        "\x1b[1m a \x1b[m  "
    );
    assert_eq!(
        Selection::print_styled(" a ", style(Some(Selection::Outline), false)),
        "\x1b[48;5;7m\x1b[38;5;0m a \x1b[49m\x1b[39m  "
    );
    assert_eq!(
        Selection::print_styled(" a ", PrintStyle { selection: None, strikethrough: false, spacing: None }),
        " a  "
    );
}

#[test]
fn struck_text_keeps_its_wrappers() {
    assert_eq!(Selection::print_styled(" ab ", style(None, true)), " \x1b[9mab\x1b[29m   ");
    assert_eq!(
        Selection::print_styled(" ab ", style(Some(Selection::Brackets), true)),
        "[\x1b[9mab\x1b[29m]  "
    );
}

#[test]
fn single_style_printers() {
    assert_eq!(Selection::print_bold("x", None), "\x1b[1mx\x1b[m ");
    assert_eq!(Selection::print_outline("x", Some("|")), "\x1b[48;5;7m\x1b[38;5;0mx\x1b[49m\x1b[39m|");
    assert_eq!(Selection::print_strikethrough("x", None), "\x1b[9mx\x1b[m ");
}

#[test]
fn selection_names() {
    for s in [Selection::Brackets, Selection::Tilde, Selection::Outline, Selection::Bold] {
        assert_eq!(Selection::from_str(s.as_str()), Some(s));
    }
    assert_eq!(Selection::from_str("underline"), None);
}

#[test]
fn terminal_sequences() {
    assert_eq!(Cursor::hide_cursor(), "\x1b[?25l");
    assert_eq!(Cursor::show(), "\x1b[?25h");
    assert_eq!(Cursor::place(2, 13), "\x1b[13;2H\n");
    assert_eq!(Cursor::reset(), "\x1b[1;1H");
    assert_eq!(Screen::clear(), "\x1b[2J");
    assert_eq!(Print::prepare(), "\x1b[2J\x1b[1;1H");
    assert_eq!(Print::item("a", "  "), "a  ");
    assert_eq!(Print::finsih(), "\n");
}

#[test]
fn menu_navigation_stops_at_the_ends() {
    let config = Config::default();
    let mut menu = Menu::init(&Selection::Brackets, &config.key_mapping);
    assert_eq!(menu.selected_menu, MenuItem::Todo);
    assert_eq!(menu.get_prev_menu(), MenuItem::Todo);
    assert!(!menu.listen_keys('x'));
    assert!(menu.listen_keys('h'));
    assert_eq!(menu.selected_menu, MenuItem::Todo);
    assert!(menu.listen_keys('l'));
    assert!(menu.listen_keys('l'));
    assert!(menu.listen_keys('l'));
    assert_eq!(menu.selected_menu, MenuItem::Help);
    assert!(menu.listen_keys('l'));
    assert_eq!(menu.selected_menu, MenuItem::Help);
    assert_eq!(menu.get_next_menu(), MenuItem::Help);
    menu.select_previous();
    assert_eq!(menu.selected_menu, MenuItem::Settings);
    menu.set_selected_menu(MenuItem::Done);
    menu.select_next();
    assert_eq!(menu.selected_menu, MenuItem::Settings);
}

#[test]
fn menu_labels_and_names() {
    assert_eq!(MenuItem::Settings.as_str(), " SETTINGS ");
    assert_eq!(MenuItem::from_str("  HELP "), Some(MenuItem::Help));
    assert_eq!(MenuItem::from_str("help"), None);
}

#[test]
fn menu_render_draws_four_tabs() {
    let config = Config::default();
    let mut menu = Menu::init(&Selection::Brackets, &config.key_mapping);
    menu.set_selected_menu(MenuItem::Done);
    assert_eq!(menu.render(), "\x1b[1;1H TODO    [DONE]    SETTINGS     HELP    ");
}

#[test]
fn list_render_marks_selected_and_done() {
    let config = Config::default();
    let todo = Todo::init(
        &Selection::Tilde,
        &config.key_mapping,
        vec![item(0, "milk", Status::Done), item(1, "eggs", Status::Todo)],
    );
    assert_eq!(
        todo.render(),
        "\x1b[2;2H\n~\x1b[9m\u{b7} milk\x1b[29m  \x1b[3;2H\n \u{b7} eggs  \n"
    );
}

#[test]
fn app_quits_and_dispatches() {
    let config = Config::default();
    let today = Timestamp::parse("2023-01-05T08:00:00Z").expect("valid");
    let mut app = App::init(
        &config,
        vec![item(0, "a", Status::Todo), item(1, "b", Status::Done)],
        &today,
    );
    assert_eq!(
        app.handle_key('k'),
        AppEffect::Continue { clear_screen: false, todo: TodoEffect::Nothing }
    );
    assert_eq!(app.todo.selected_index, 1);
    assert_eq!(
        app.handle_key('l'),
        AppEffect::Continue { clear_screen: true, todo: TodoEffect::Nothing }
    );
    assert_eq!(app.menu.selected_menu, MenuItem::Done);
    assert_eq!(
        app.handle_key('j'),
        AppEffect::Continue { clear_screen: false, todo: TodoEffect::Nothing }
    );
    assert_eq!(app.todo.selected_index, 1);
    assert_eq!(app.render(), "\x1b[2;5H\nb\n\n\x1b[1;1H TODO    [DONE]    SETTINGS     HELP    ");
    assert_eq!(app.handle_key('q'), AppEffect::Quit);
    assert_eq!(app.menu.selected_menu, MenuItem::Done);
}

#[test]
fn done_tab_keeps_records_finished_before_today() {
    let list = vec![
        item_at(0, "yesterday", Status::Done, "2023-01-01 23:59:59 UTC"),
        item_at(1, "today", Status::Done, "2023-01-02 00:00:00 UTC"),
        item_at(2, "open", Status::Todo, "2022-01-01 10:00:00 UTC"),
        item_at(3, "before the epoch", Status::Done, "1969-12-31T23:59:59Z"),
    ];
    let today = Timestamp::parse("2023-01-02T12:00:00+02:00").expect("valid");
    let done = Done::init(&list, &today);
    let names: Vec<&str> = done.done_list.iter().map(|t| t.description.as_str()).collect();
    assert_eq!(names, vec!["yesterday", "before the epoch"]);
    assert_eq!(done.render(), "\x1b[2;5H\nyesterday\nbefore the epoch\n\n");
    let epoch = Timestamp::parse("1970-01-01T00:00:00Z").expect("valid");
    assert_eq!(epoch.day(), 0);
    assert_eq!(Timestamp::parse("1969-12-31T23:59:59Z").expect("valid").day(), -1);
    assert_eq!(Timestamp::parse("1970-01-02T00:00:00Z").expect("valid").day(), 1);
}
