use mindr::config::Config;
use mindr::selection::Selection;
use mindr::store::{generate_id, Todo, TodoEffect};
use mindr::timestamp::Timestamp;
use mindr::todo::{read_todo, write_todo, LoadError, Status, TodoItem};

fn now() -> Timestamp {
    Timestamp::parse(&chrono::Utc::now().to_string()).expect("the clock's text is a timestamp")
}

fn at(text: &str) -> Timestamp {
    Timestamp::parse(text).expect("a valid timestamp")
}

fn item(id: u16, description: &str) -> TodoItem {
    TodoItem {
        id,
        date_created: now(),
        date_modified: now(),
        status: Status::Todo,
        description: String::from(description),
    }
}

fn store(list: Vec<TodoItem>) -> Todo {
    let config = Config::default();
    Todo::init(&Selection::Brackets, &config.key_mapping, list)
}

fn descriptions(todo: &Todo) -> Vec<String> {
    todo.todo_list.iter().map(|t| t.description.clone()).collect()
}

#[test]
fn test_generate_intermediate_id() {
    let todo_list = vec![item(0, "Zero"), item(2, "Two")];

    assert_eq!(generate_id(&todo_list), 1);
}

#[test]
fn test_generate_starting_id() {
    let todo_list = vec![item(1, "One"), item(2, "Two")];

    assert_eq!(generate_id(&todo_list), 0);
}

#[test]
fn test_generate_ending_id() {
    let todo_list = vec![item(0, "Zero"), item(1, "One")];

    assert_eq!(generate_id(&todo_list), 2);
}

#[test]
fn generate_id_on_empty_list_is_zero() {
    assert_eq!(generate_id(&vec![]), 0);
}

#[test]
fn add_fills_the_id_gap_and_appends() {
    let mut todo = store(vec![item(0, "Zero"), item(2, "Two")]);
    let t = now();
    assert!(todo.add("Buy milk", &t));
    assert_eq!(todo.todo_list.len(), 3);
    let added = &todo.todo_list[2];
    assert_eq!(added.id, 1);
    assert_eq!(added.description, "Buy milk");
    assert_eq!(added.status, Status::Todo);
    assert_eq!(added.date_created.as_str(), t.as_str());
    assert_eq!(added.date_modified.as_str(), t.as_str());
    assert_eq!(descriptions(&todo), vec!["Zero", "Two", "Buy milk"]);
}

#[test]
fn add_trims_and_ignores_blank_text() {
    let mut todo = store(vec![item(0, "Zero")]);
    assert!(!todo.add("   \t ", &now()));
    assert!(!todo.add("", &now()));
    assert_eq!(todo.todo_list.len(), 1);
    assert!(todo.add("  walk the dog \n", &now()));
    assert_eq!(todo.todo_list[1].description, "walk the dog");
}

#[test]
fn remove_last_selected_moves_cursor_back() {
    let mut todo = store(vec![item(0, "a"), item(1, "b"), item(2, "c")]);
    todo.move_selection_down();
    todo.move_selection_down();
    assert_eq!(todo.selected_index, 2);
    todo.remove_selected_todo();
    assert_eq!(todo.selected_index, 1);
    assert_eq!(descriptions(&todo), vec!["a", "b"]);
    todo.remove_selected_todo();
    assert_eq!(todo.selected_index, 0);
    assert_eq!(descriptions(&todo), vec!["a"]);
    todo.remove_selected_todo();
    assert_eq!(todo.selected_index, 0);
    assert!(todo.todo_list.is_empty());
    todo.remove_selected_todo();
    assert_eq!(todo.selected_index, 0);
    assert!(todo.todo_list.is_empty());
}

#[test]
fn remove_in_middle_keeps_cursor() {
    let mut todo = store(vec![item(0, "a"), item(1, "b"), item(2, "c")]);
    todo.move_selection_down();
    todo.remove_selected_todo();
    assert_eq!(todo.selected_index, 1);
    assert_eq!(descriptions(&todo), vec!["a", "c"]);
}

#[test]
fn selection_is_clamped_at_both_ends() {
    let mut todo = store(vec![item(0, "a"), item(1, "b")]);
    todo.move_selection_up();
    assert_eq!(todo.selected_index, 0);
    todo.move_selection_down();
    todo.move_selection_down();
    assert_eq!(todo.selected_index, 1);
    let mut empty = store(vec![]);
    empty.move_selection_down();
    empty.move_selection_up();
    assert_eq!(empty.selected_index, 0);
}

#[test]
fn toggle_twice_restores_status() {
    let mut todo = store(vec![item(0, "a"), item(1, "b")]);
    todo.move_selection_down();
    todo.toggle_selected_status();
    assert_eq!(todo.todo_list[1].status, Status::Done);
    assert_eq!(todo.todo_list[0].status, Status::Todo);
    todo.toggle_selected_status();
    assert_eq!(todo.todo_list[1].status, Status::Todo);
}

#[test]
fn edit_replaces_description_and_modified_date() {
    let mut todo = store(vec![item(0, "a"), item(1, "b")]);
    let created = todo.todo_list[0].date_created.as_str().to_string();
    let t = at("2030-05-06T07:08:09Z");
    todo.edit_selected("  new text ", &t);
    assert_eq!(todo.todo_list[0].description, "new text");
    assert_eq!(todo.todo_list[0].date_modified.as_str(), "2030-05-06T07:08:09Z");
    assert_eq!(todo.todo_list[0].date_created.as_str(), created);
    assert_eq!(todo.todo_list.len(), 2);
}

#[test]
fn edit_with_blank_text_removes_record() {
    let mut todo = store(vec![item(0, "a"), item(1, "b")]);
    todo.move_selection_down();
    todo.edit_selected(" \t  ", &now());
    assert_eq!(descriptions(&todo), vec!["a"]);
    assert_eq!(todo.selected_index, 0);
}

#[test]
fn write_then_read_gives_back_the_records() {
    let mut done = item(7, "Read a book");
    done.status = Status::Done;
    let list = vec![
        TodoItem {
            id: 3,
            date_created: at("2023-01-01 15:31:01.585089387 UTC"),
            date_modified: at("2023-01-02 10:00:00 UTC"),
            status: Status::Todo,
            description: String::from("Buy milk"),
        },
        done,
    ];
    let text = write_todo(&list);
    let back = read_todo(&text).expect("a stored list reads back").todo_list;
    assert_eq!(back.len(), 2);
    for (a, b) in list.iter().zip(back.iter()) {
        assert_eq!(a.id, b.id);
        assert_eq!(a.date_created.as_str(), b.date_created.as_str());
        assert_eq!(a.date_modified.as_str(), b.date_modified.as_str());
        assert_eq!(a.status, b.status);
        assert_eq!(a.description, b.description);
    }
}

#[test]
fn write_uses_the_record_format() {
    let list = vec![
        TodoItem {
            id: 12,
            date_created: at("2023-01-01 15:31:01.585089387 UTC"),
            date_modified: at("2023-01-02T10:00:00Z"),
            status: Status::Done,
            description: String::from("Zero"),
        },
        TodoItem {
            id: 0,
            date_created: at("2023-01-01 15:31:01 UTC"),
            date_modified: at("2023-01-01 15:31:01 UTC"),
            status: Status::Todo,
            description: String::from(""),
        },
    ];
    assert_eq!(
        write_todo(&list),
        "12|2023-01-01 15:31:01.585089387 UTC|2023-01-02T10:00:00Z|Done|Zero\n\
         0|2023-01-01 15:31:01 UTC|2023-01-01 15:31:01 UTC|Todo|"
    );
    assert_eq!(write_todo(&vec![]), "");
}

#[test]
fn read_accepts_crlf_trailing_newline_and_unknown_status() {
    let text = "1|2023-01-01 15:31:01 UTC|2023-01-01 15:31:01 UTC|Done|a\r\n\
                +2|2023-01-01T15:31:01Z|2023-01-01 15:31:01 UTC|Later|b|\n";
    assert_eq!(read_todo(text).err(), Some(LoadError::CorruptRecord));
    let text = "1|2023-01-01 15:31:01 UTC|2023-01-01 15:31:01 UTC|Done|a\r\n\
                +2|2023-01-01T15:31:01Z|2023-01-01 15:31:01 UTC|Later|b\n";
    let loaded = read_todo(text).expect("well formed");
    assert_eq!(loaded.unknown_status, vec![1]);
    let list = loaded.todo_list;
    assert_eq!(list.len(), 2);
    assert_eq!(list[0].description, "a");
    assert_eq!(list[0].status, Status::Done);
    assert_eq!(list[1].id, 2);
    assert_eq!(list[1].status, Status::Todo);
    assert_eq!(list[1].description, "b");
    let empty = read_todo("").expect("empty");
    assert!(empty.todo_list.is_empty());
    assert!(empty.unknown_status.is_empty());
}

#[test]
fn read_rejects_four_fields() {
    let text = "0|2023-01-01 15:31:01 UTC|2023-01-01 15:31:01 UTC|Todo|ok\n\
                1|2023-01-01 15:31:01 UTC|Todo|missing a date";
    assert_eq!(read_todo(text).err(), Some(LoadError::CorruptRecord));
}

#[test]
fn read_rejects_bad_id_and_bad_dates() {
    let good = "2023-01-01 15:31:01 UTC";
    let bad_id = format!("x|{good}|{good}|Todo|a");
    let big_id = format!("65536|{good}|{good}|Todo|a");
    let negative_id = format!("-1|{good}|{good}|Todo|a");
    let bad_created = format!("1|yesterday|{good}|Todo|a");
    let bad_modified = format!("1|{good}|2023-02-30 10:00:00 UTC|Todo|a");
    for text in [bad_id, big_id, negative_id, bad_created, bad_modified] {
        assert_eq!(read_todo(&text).err(), Some(LoadError::CorruptRecord), "{text}");
    }
    let max_id = format!("65535|{good}|{good}|Todo|a");
    assert_eq!(read_todo(&max_id).expect("fits").todo_list[0].id, 65535);
    assert!(read_todo("\n").is_err());
}

#[test]
fn timestamp_parse_follows_chrono() {
    assert!(Timestamp::parse("2012-12-12T12:12:12Z").is_some());
    assert!(Timestamp::parse("2012-12-12 12:12:12+00:00").is_some());
    assert!(Timestamp::parse("2012-13-12T12:12:12Z").is_none());
    assert!(Timestamp::parse("not a date").is_none());
    assert!(Timestamp::now().is_some());
}

#[test]
fn status_text_round_trips() {
    assert_eq!(Status::Todo.as_str(), "Todo");
    assert_eq!(Status::Done.as_str(), "Done");
    assert_eq!(Status::from_str("Done"), Some(Status::Done));
    assert_eq!(Status::from_str("done"), None);
    assert_eq!(Status::Done.toggle(), Status::Todo);
}

#[test]
fn keys_drive_the_list() {
    let mut todo = store(vec![item(0, "a"), item(5, "b")]);
    assert_eq!(todo.listen_keys('k'), TodoEffect::Nothing);
    assert_eq!(todo.selected_index, 1);
    assert_eq!(todo.listen_keys('e'), TodoEffect::PromptEdit { x: 6, y: 3 });
    assert_eq!(todo.listen_keys('a'), TodoEffect::PromptAdd { x: 6, y: 4 });
    assert_eq!(todo.listen_keys('f'), TodoEffect::Save);
    assert_eq!(todo.todo_list[1].status, Status::Done);
    assert_eq!(todo.listen_keys('d'), TodoEffect::SaveAndClear);
    assert_eq!(descriptions(&todo), vec!["a"]);
    assert_eq!(todo.selected_index, 0);
    assert_eq!(todo.listen_keys('j'), TodoEffect::Nothing);
    assert_eq!(todo.listen_keys('z'), TodoEffect::Nothing);
    todo.remove_selected_todo();
    assert_eq!(todo.listen_keys('e'), TodoEffect::Nothing);
}

#[test]
fn y_offset_is_one_row_per_record() {
    let todo = store(vec![item(4, "a"), item(9, "b")]);
    assert_eq!(todo.get_y_offset(4), 2);
    assert_eq!(todo.get_y_offset(9), 3);
    assert_eq!(todo.get_y_offset(1), 4);
    assert_eq!(Todo::prompt(), "  \u{2022} ");
}
