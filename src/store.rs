//! The todo store: the ordered list of records, the selection cursor, and
//! the edits that the keys ask for.
use vstd::prelude::*;
use crate::config::{is_total, key_of, Action};
use crate::selection::{styled, PrintStyle, Selection};
use crate::terminal::{goto_seq, Cursor, Print};
use crate::text::{push_all, trim, trimmed};
use crate::timestamp::Timestamp;
use crate::todo::{all_wf, item_views, toggled, write_todo, list_text, Status, TodoItem, TodoView};

verus! {

/// The leftmost column of the list.
pub const LIST_LEFT_MARGIN: u16 = 2;

/// The row of the first record.
pub const LIST_TOP_MARGIN: u16 = 2;

/// The column at which typed text starts: the byte width of the prompt.
pub const PROMPT_WIDTH: u16 = 6;

/// Whether some record of the list carries `id`.
pub open spec fn id_used(items: Seq<TodoItem>, id: int) -> bool {
    exists|i: int| 0 <= i < items.len() && (#[trigger] items[i]).id == id
}

/// The smallest id that no record of the list carries.
pub fn generate_id(todo_list: &Vec<TodoItem>) -> (r: u16)
    requires
        todo_list@.len() < u16::MAX,
    ensures
        !id_used(todo_list@, r as int),
        forall|j: int| 0 <= j < r ==> id_used(todo_list@, j),
{
    let n = todo_list.len();
    let mut candidate: u16 = 0;
    while candidate < u16::MAX
        invariant
            n == todo_list@.len() < u16::MAX,
            forall|j: int| 0 <= j < candidate ==> id_used(todo_list@, j),
        decreases u16::MAX - candidate,
    {
        let mut k: usize = 0;
        let mut found = false;
        while k < n
            invariant
                k <= n == todo_list@.len(),
                found ==> id_used(todo_list@, candidate as int),
                !found ==> forall|i: int| 0 <= i < k ==> (#[trigger] todo_list@[i]).id != candidate,
            decreases n - k,
        {
            if todo_list[k].id == candidate {
                found = true;
            }
            k += 1;
        }
        if !found {
            return candidate;
        }
        candidate += 1;
    }
    proof {
        lemma_ids_exhaust(todo_list@);
        let j = choose|j: int| 0 <= j < u16::MAX && !id_used(todo_list@, j);
        assert(id_used(todo_list@, j));
    }
    0
}

/// A list shorter than the id space leaves some id below `u16::MAX` free.
proof fn lemma_ids_exhaust(items: Seq<TodoItem>)
    requires
        items.len() < u16::MAX,
    ensures
        exists|j: int| 0 <= j < u16::MAX && !id_used(items, j),
{
    if forall|j: int| 0 <= j < u16::MAX ==> id_used(items, j) {
    let ids = items.map_values(|t: TodoItem| t.id as int);
    let range = vstd::set_lib::set_int_range(0, u16::MAX as int);
    vstd::set_lib::lemma_int_range(0, u16::MAX as int);
    vstd::seq_lib::seq_to_set_is_finite(ids);
    ids.lemma_cardinality_of_set();
    assert(range.subset_of(ids.to_set())) by {
        assert forall|j: int| range.contains(j) implies ids.to_set().contains(j) by {
            assert(id_used(items, j));
            let i = choose|i: int| 0 <= i < items.len() && (#[trigger] items[i]).id == j;
            assert(ids[i] == j);
        }
    }
    vstd::set_lib::lemma_len_subset(range, ids.to_set());
    }
}

/// A valid cursor: on a record when there is one, else at 0.
pub open spec fn selection_ok(len: int, sel: int) -> bool {
    if len > 0 {
        0 <= sel < len
    } else {
        sel == 0
    }
}

pub open spec fn moved_up(sel: int) -> int {
    if sel > 0 {
        sel - 1
    } else {
        sel
    }
}

pub open spec fn moved_down(len: int, sel: int) -> int {
    if len > 0 && sel < len - 1 {
        sel + 1
    } else {
        sel
    }
}

/// The list without the selected record.
pub open spec fn removed<T>(list: Seq<T>, sel: int) -> Seq<T> {
    if 0 <= sel < list.len() {
        list.remove(sel)
    } else {
        list
    }
}

/// The cursor after the selected record is removed: it steps back when it
/// was on the last record and not on the first.
pub open spec fn sel_after_remove(len: int, sel: int) -> int {
    if len > 0 && sel > 0 && sel > len - 2 {
        sel - 1
    } else {
        sel
    }
}

/// The list with the selected record's status flipped.
pub open spec fn status_toggled(list: Seq<TodoView>, sel: int) -> Seq<TodoView> {
    if 0 <= sel < list.len() {
        list.update(sel, TodoView { status: toggled(list[sel].status), ..list[sel] })
    } else {
        list
    }
}

/// Flipping the selected record's status twice gives back the list as it was.
pub proof fn lemma_toggle_twice(list: Seq<TodoView>, sel: int)
    ensures
        status_toggled(status_toggled(list, sel), sel) == list,
{
    if 0 <= sel < list.len() {
        let once = status_toggled(list, sel);
        assert(toggled(toggled(list[sel].status)) == list[sel].status);
        assert(status_toggled(once, sel) =~= list);
    }
}

/// The list with the selected record described anew and modified at `now`.
pub open spec fn edited(list: Seq<TodoView>, sel: int, description: Seq<char>, now: Seq<char>) -> Seq<
    TodoView,
> {
    list.update(sel, TodoView { description, date_modified: now, ..list[sel] })
}

/// The row on which the record at `i` is drawn: one row per record below
/// the top margin, held at the terminal's last addressable row.
pub open spec fn row_of(i: int) -> u16 {
    if i + LIST_TOP_MARGIN <= u16::MAX {
        (i + LIST_TOP_MARGIN) as u16
    } else {
        u16::MAX
    }
}

fn row(i: usize) -> (r: u16)
    ensures
        r == row_of(i as int),
{
    if i <= (u16::MAX - LIST_TOP_MARGIN) as usize {
        i as u16 + LIST_TOP_MARGIN
    } else {
        u16::MAX
    }
}

/// A description as a list row shows it: a mark before it, a space around.
pub open spec fn formatted(description: Seq<char>) -> Seq<char> {
    seq![' ', '\u{b7}', ' '] + description + seq![' ']
}

/// The text that draws the record at `i`.
pub open spec fn row_text(items: Seq<TodoView>, sel: int, style: Selection, i: int) -> Seq<char> {
    goto_seq(LIST_LEFT_MARGIN, row_of(i)).push('\n') + styled(
        formatted(items[i].description),
        if i == sel {
            Some(style)
        } else {
            None
        },
        items[i].status == Status::Done,
        seq![' '],
    )
}

/// The text that draws the first `k` records.
pub open spec fn rows_text(items: Seq<TodoView>, sel: int, style: Selection, k: int) -> Seq<char>
    decreases k,
{
    if k <= 0 {
        Seq::<char>::empty()
    } else {
        rows_text(items, sel, style, k - 1) + row_text(items, sel, style, k - 1)
    }
}

/// The index of the first record carrying `id`, or the length if none does.
pub open spec fn first_with_id(items: Seq<TodoItem>, id: u16) -> int
    decreases items.len(),
{
    if items.len() == 0 {
        0
    } else if items[0].id == id {
        0
    } else {
        1 + first_with_id(items.drop_first(), id)
    }
}

/// The action, among those the list answers to, that `key` triggers; the
/// first in this order wins when keys are shared.
pub open spec fn todo_action(m: Seq<(Action, char)>, key: char) -> Option<Action> {
    if key == key_of(m, Action::Up) {
        Some(Action::Up)
    } else if key == key_of(m, Action::Down) {
        Some(Action::Down)
    } else if key == key_of(m, Action::AddTodo) {
        Some(Action::AddTodo)
    } else if key == key_of(m, Action::RemoveTodo) {
        Some(Action::RemoveTodo)
    } else if key == key_of(m, Action::Mark) {
        Some(Action::Mark)
    } else if key == key_of(m, Action::EditTodo) {
        Some(Action::EditTodo)
    } else {
        None
    }
}

/// What the surroundings must do after the list handled a key.
#[derive(Clone, Copy, Debug, PartialEq, Eq, Structural)]
pub enum TodoEffect {
    /// Nothing beyond drawing again.
    Nothing,
    /// Store the list.
    Save,
    /// Store the list and clear the screen.
    SaveAndClear,
    /// Read a new description with the cursor at (`x`, `y`), then `add` it.
    PromptAdd { x: u16, y: u16 },
    /// Read a replacement for the selected description, starting from it,
    /// with the cursor at (`x`, `y`), then `edit_selected` with it.
    PromptEdit { x: u16, y: u16 },
}

/// How the list answers a key: `new` and `effect` are what `old` becomes
/// and asks for.
pub open spec fn todo_step(old: Todo, new: Todo, key: char, effect: TodoEffect) -> bool {
    let m = old.key_mapping@;
    let len = old.todo_list@.len() as int;
    let sel = old.selected_index as int;
    match todo_action(m, key) {
        Some(Action::Up) => new.todo_list@ == old.todo_list@
            && new.selected_index == moved_up(sel) && effect == TodoEffect::Nothing,
        Some(Action::Down) => new.todo_list@ == old.todo_list@
            && new.selected_index == moved_down(len, sel) && effect
            == TodoEffect::Nothing,
        Some(Action::AddTodo) => new.todo_list@ == old.todo_list@
            && new.selected_index == sel && effect == (TodoEffect::PromptAdd {
            x: PROMPT_WIDTH,
            y: row_of(len),
        }),
        Some(Action::RemoveTodo) => new.items() == removed(old.items(), sel)
            && new.selected_index == sel_after_remove(len, sel) && effect
            == TodoEffect::SaveAndClear,
        Some(Action::Mark) => new.items() == status_toggled(
            old.items(),
            sel,
        ) && new.selected_index == sel && effect == TodoEffect::Save,
        Some(Action::EditTodo) => new.todo_list@ == old.todo_list@
            && new.selected_index == sel && (if len == 0 {
            effect == TodoEffect::Nothing
        } else {
            effect == (TodoEffect::PromptEdit {
                x: PROMPT_WIDTH,
                y: row_of(
                    first_with_id(old.todo_list@, old.todo_list@[sel].id),
                ),
            })
        }),
        _ => new.todo_list@ == old.todo_list@ && new.selected_index
            == sel && effect == TodoEffect::Nothing,
    }
}

/// The todo tab's state.
pub struct Todo {
    pub todo_list: Vec<TodoItem>,
    pub key_mapping: Vec<(Action, char)>,
    pub selection_style: Selection,
    pub selected_index: usize,
}

impl Todo {
    pub open spec fn wf(&self) -> bool {
        &&& is_total(self.key_mapping@)
        &&& selection_ok(self.todo_list@.len() as int, self.selected_index as int)
        &&& all_wf(self.todo_list@)
    }

    pub open spec fn items(&self) -> Seq<TodoView> {
        item_views(self.todo_list@)
    }

    /// A store over `todo_list` with the cursor on its first record.
    pub fn init(
        selection_style: &Selection,
        key_mapping: &Vec<(Action, char)>,
        todo_list: Vec<TodoItem>,
    ) -> (r: Todo)
        requires
            is_total(key_mapping@),
            all_wf(todo_list@),
        ensures
            r.wf(),
            r.todo_list@ == todo_list@,
            r.key_mapping@ == key_mapping@,
            r.selection_style == *selection_style,
            r.selected_index == 0,
    {
        let mut km: Vec<(Action, char)> = Vec::new();
        let mut i: usize = 0;
        while i < key_mapping.len()
            invariant
                i <= key_mapping@.len(),
                km@ == key_mapping@.take(i as int),
            decreases key_mapping@.len() - i,
        {
            km.push(key_mapping[i]);
            i += 1;
            assert(km@ =~= key_mapping@.take(i as int));
        }
        assert(km@ =~= key_mapping@);
        Todo { todo_list, key_mapping: km, selection_style: *selection_style, selected_index: 0 }
    }

    /// Moves the cursor one record up, staying on the first.
    pub fn move_selection_up(&mut self)
        requires
            old(self).wf(),
        ensures
            final(self).wf(),
            final(self).todo_list@ == old(self).todo_list@,
            final(self).key_mapping@ == old(self).key_mapping@,
            final(self).selection_style == old(self).selection_style,
            final(self).selected_index == moved_up(old(self).selected_index as int),
    {
        if self.selected_index != 0 {
            self.selected_index = self.selected_index - 1;
        }
    }

    /// Moves the cursor one record down, staying on the last.
    pub fn move_selection_down(&mut self)
        requires
            old(self).wf(),
        ensures
            final(self).wf(),
            final(self).todo_list@ == old(self).todo_list@,
            final(self).key_mapping@ == old(self).key_mapping@,
            final(self).selection_style == old(self).selection_style,
            final(self).selected_index == moved_down(
                old(self).todo_list@.len() as int,
                old(self).selected_index as int,
            ),
    {
        if self.todo_list.len() > 0 && self.selected_index < self.todo_list.len() - 1 {
            self.selected_index = self.selected_index + 1;
        }
    }

    /// Deletes the selected record; the cursor steps back when it was on the
    /// last record. Nothing happens on an empty list.
    pub fn remove_selected_todo(&mut self)
        requires
            old(self).wf(),
        ensures
            final(self).wf(),
            selection_ok(final(self).todo_list@.len() as int, final(self).selected_index as int),
            final(self).todo_list@ == removed(old(self).todo_list@, old(self).selected_index as int),
            final(self).items() == removed(old(self).items(), old(self).selected_index as int),
            final(self).selected_index == sel_after_remove(
                old(self).todo_list@.len() as int,
                old(self).selected_index as int,
            ),
            final(self).key_mapping@ == old(self).key_mapping@,
            final(self).selection_style == old(self).selection_style,
    {
        if self.todo_list.len() == 0 {
            return;
        }
        let sel = self.selected_index;
        let ghost before = self.todo_list@;
        let _ = self.todo_list.remove(sel);
        if sel > 0 && sel > self.todo_list.len() - 1 {
            self.selected_index = sel - 1;
        }
        proof {
            assert(item_views(self.todo_list@) =~= item_views(before).remove(sel as int));
            assert forall|i: int| 0 <= i < self.todo_list@.len() implies (
            #[trigger] self.todo_list@[i]).wf() by {
                if i < sel {
                    assert(self.todo_list@[i] == before[i]);
                } else {
                    assert(self.todo_list@[i] == before[i + 1]);
                }
            }
        }
    }

    /// Flips the selected record between `Todo` and `Done`. Nothing happens
    /// on an empty list.
    pub fn toggle_selected_status(&mut self)
        requires
            old(self).wf(),
        ensures
            final(self).wf(),
            final(self).items() == status_toggled(old(self).items(), old(self).selected_index as int),
            final(self).selected_index == old(self).selected_index,
            final(self).key_mapping@ == old(self).key_mapping@,
            final(self).selection_style == old(self).selection_style,
    {
        if self.todo_list.len() == 0 {
            return;
        }
        let sel = self.selected_index;
        let ghost before = self.todo_list@;
        let mut item = self.todo_list.remove(sel);
        item.status = item.status.toggle();
        self.todo_list.insert(sel, item);
        proof {
            assert(self.todo_list@ =~= before.update(sel as int, item));
            assert(item_views(self.todo_list@) =~= status_toggled(
                item_views(before),
                sel as int,
            ));
            assert forall|i: int| 0 <= i < self.todo_list@.len() implies (
            #[trigger] self.todo_list@[i]).wf() by {
                if i != sel {
                    assert(self.todo_list@[i] == before[i]);
                }
            }
        }
    }

    /// Appends a record for `line` when, trimmed, it is not blank: the
    /// smallest free id, created and modified at `now`, status `Todo`, the
    /// trimmed text as description. Returns whether a record was added.
    pub fn add(&mut self, line: &str, now: &Timestamp) -> (r: bool)
        requires
            old(self).wf(),
            now.wf(),
            old(self).todo_list@.len() < u16::MAX,
        ensures
            final(self).wf(),
            r == (trim(line@).len() > 0),
            !r ==> final(self).todo_list@ == old(self).todo_list@,
            r ==> {
                let added = final(self).todo_list@.last();
                &&& final(self).todo_list@.len() == old(self).todo_list@.len() + 1
                &&& final(self).todo_list@.drop_last() == old(self).todo_list@
                &&& !id_used(old(self).todo_list@, added.id as int)
                &&& forall|j: int| 0 <= j < added.id ==> id_used(old(self).todo_list@, j)
                &&& added@.date_created == now@
                &&& added@.date_modified == now@
                &&& added.status == Status::Todo
                &&& added@.description == trim(line@)
            },
            final(self).selected_index == old(self).selected_index,
            final(self).key_mapping@ == old(self).key_mapping@,
            final(self).selection_style == old(self).selection_style,
    {
        let description = trimmed(line);
        if description.as_str().is_empty() {
            return false;
        }
        let id = generate_id(&self.todo_list);
        let item = TodoItem {
            id,
            date_created: now.duplicate(),
            date_modified: now.duplicate(),
            status: Status::Todo,
            description,
        };
        let ghost before = self.todo_list@;
        self.todo_list.push(item);
        proof {
            assert(self.todo_list@.drop_last() =~= before);
        }
        true
    }

    /// Replaces the selected record's description with the trimmed `line`
    /// and marks it modified at `now`; a blank `line` removes the record
    /// instead. Nothing happens on an empty list.
    pub fn edit_selected(&mut self, line: &str, now: &Timestamp)
        requires
            old(self).wf(),
            now.wf(),
        ensures
            final(self).wf(),
            old(self).todo_list@.len() == 0 ==> final(self).todo_list@ == old(self).todo_list@,
            old(self).todo_list@.len() > 0 && trim(line@).len() > 0 ==> {
                &&& final(self).items() == edited(
                    old(self).items(),
                    old(self).selected_index as int,
                    trim(line@),
                    now@,
                )
                &&& final(self).selected_index == old(self).selected_index
            },
            old(self).todo_list@.len() > 0 && trim(line@).len() == 0 ==> {
                &&& final(self).items() == removed(old(self).items(), old(self).selected_index as int)
                &&& final(self).selected_index == sel_after_remove(
                    old(self).todo_list@.len() as int,
                    old(self).selected_index as int,
                )
            },
            final(self).key_mapping@ == old(self).key_mapping@,
            final(self).selection_style == old(self).selection_style,
    {
        if self.todo_list.len() == 0 {
            return;
        }
        let description = trimmed(line);
        if description.as_str().is_empty() {
            self.remove_selected_todo();
            return;
        }
        let sel = self.selected_index;
        let ghost before = self.todo_list@;
        let mut item = self.todo_list.remove(sel);
        item.description = description;
        item.date_modified = now.duplicate();
        self.todo_list.insert(sel, item);
        proof {
            assert(self.todo_list@ =~= before.update(sel as int, item));
            assert(item_views(self.todo_list@) =~= edited(
                item_views(before),
                sel as int,
                trim(line@),
                now@,
            ));
            assert forall|i: int| 0 <= i < self.todo_list@.len() implies (
            #[trigger] self.todo_list@[i]).wf() by {
                if i != sel {
                    assert(self.todo_list@[i] == before[i]);
                }
            }
        }
    }

    /// The stored text of the list.
    pub fn write(&self) -> (r: String)
        ensures
            r@ == list_text(self.items()),
    {
        write_todo(&self.todo_list)
    }

    /// The row of the first record carrying `to_element_id` (the row after
    /// the list when none does).
    pub fn get_y_offset(&self, to_element_id: u16) -> (r: u16)
        ensures
            r == row_of(first_with_id(self.todo_list@, to_element_id)),
    {
        let ghost items = self.todo_list@;
        let mut i: usize = 0;
        assert(items.subrange(0, items.len() as int) =~= items);
        while i < self.todo_list.len()
            invariant
                i <= items.len(),
                items == self.todo_list@,
                first_with_id(items, to_element_id) == i + first_with_id(
                    items.subrange(i as int, items.len() as int),
                    to_element_id,
                ),
            decreases items.len() - i,
        {
            proof {
                let rest = items.subrange(i as int, items.len() as int);
                assert(rest[0] == items[i as int]);
                assert(rest.drop_first() =~= items.subrange(i + 1, items.len() as int));
            }
            if self.todo_list[i].id == to_element_id {
                return row(i);
            }
            i += 1;
        }
        proof {
            assert(items.subrange(i as int, items.len() as int).len() == 0);
        }
        row(i)
    }

    /// The text shown before a description being typed.
    pub fn prompt() -> (r: String)
        ensures
            r@ == seq![' ', ' ', '\u{2022}', ' '],
    {
        let mut r = String::new();
        r.push(' ');
        r.push(' ');
        r.push('\u{2022}');
        r.push(' ');
        r
    }

    /// The text that draws the list: each record on its own row, the
    /// selected one in the selection style, done ones struck through.
    pub fn render(&self) -> (r: String)
        ensures
            r@ == rows_text(
                self.items(),
                self.selected_index as int,
                self.selection_style,
                self.todo_list@.len() as int,
            ) + seq!['\n'],
    {
        let ghost items = self.items();
        let mut out = String::new();
        let mut i: usize = 0;
        while i < self.todo_list.len()
            invariant
                i <= self.todo_list@.len(),
                items == self.items(),
                out@ == rows_text(items, self.selected_index as int, self.selection_style, i as int),
            decreases self.todo_list@.len() - i,
        {
            let item = &self.todo_list[i];
            let place = Cursor::place(LIST_LEFT_MARGIN, row(i));
            let text = TodoItem::format_description(item.description.as_str());
            let mut spacing = String::new();
            spacing.push(' ');
            let style = PrintStyle {
                selection: if i == self.selected_index {
                    Some(self.selection_style)
                } else {
                    None
                },
                strikethrough: item.status == Status::Done,
                spacing: Some(spacing),
            };
            let drawn = Selection::print_styled(text.as_str(), style);
            push_all(&mut out, place.as_str());
            push_all(&mut out, drawn.as_str());
            proof {
                assert(items[i as int] == item@);
                assert(text@ =~= formatted(item@.description));
                assert(out@ =~= rows_text(items, self.selected_index as int, self.selection_style, i + 1));
            }
            i += 1;
        }
        let end = Print::finsih();
        push_all(&mut out, end.as_str());
        out
    }

    /// Handles one key: moves the cursor, removes or flips the selected
    /// record, or asks for a description to add or edit.
    pub fn listen_keys(&mut self, key: char) -> (r: TodoEffect)
        requires
            old(self).wf(),
        ensures
            final(self).wf(),
            final(self).key_mapping@ == old(self).key_mapping@,
            final(self).selection_style == old(self).selection_style,
            todo_step(*old(self), *final(self), key, r),
    {
        proof {
            assert(crate::config::is_mapped(self.key_mapping@, Action::Up));
            assert(crate::config::is_mapped(self.key_mapping@, Action::Down));
            assert(crate::config::is_mapped(self.key_mapping@, Action::AddTodo));
            assert(crate::config::is_mapped(self.key_mapping@, Action::RemoveTodo));
            assert(crate::config::is_mapped(self.key_mapping@, Action::Mark));
            assert(crate::config::is_mapped(self.key_mapping@, Action::EditTodo));
        }
        if key == Action::get_action_char(&self.key_mapping, Action::Up) {
            self.move_selection_up();
            TodoEffect::Nothing
        } else if key == Action::get_action_char(&self.key_mapping, Action::Down) {
            self.move_selection_down();
            TodoEffect::Nothing
        } else if key == Action::get_action_char(&self.key_mapping, Action::AddTodo) {
            TodoEffect::PromptAdd { x: PROMPT_WIDTH, y: row(self.todo_list.len()) }
        } else if key == Action::get_action_char(&self.key_mapping, Action::RemoveTodo) {
            self.remove_selected_todo();
            TodoEffect::SaveAndClear
        } else if key == Action::get_action_char(&self.key_mapping, Action::Mark) {
            self.toggle_selected_status();
            TodoEffect::Save
        } else if key == Action::get_action_char(&self.key_mapping, Action::EditTodo) {
            if self.todo_list.len() == 0 {
                return TodoEffect::Nothing;
            }
            let y = self.get_y_offset(self.todo_list[self.selected_index].id);
            TodoEffect::PromptEdit { x: PROMPT_WIDTH, y }
        } else {
            TodoEffect::Nothing
        }
    }
}

} // verus!
