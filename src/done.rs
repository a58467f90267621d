//! The done tab: the records finished before today.
use vstd::prelude::*;
use crate::terminal::{goto_seq, Cursor, Print};
use crate::text::push_all;
use crate::timestamp::{day_number, Timestamp};
use crate::todo::{all_wf, item_views, Status, TodoItem, TodoView};

verus! {

/// The records, in order, that are done and were last modified on a day
/// before `today`.
pub open spec fn done_before(items: Seq<TodoView>, today: int) -> Seq<TodoView>
    decreases items.len(),
{
    if items.len() == 0 {
        Seq::<TodoView>::empty()
    } else {
        let earlier = done_before(items.drop_last(), today);
        let r = items.last();
        if r.status == Status::Done && today > day_number(r.date_modified) {
            earlier.push(r)
        } else {
            earlier
        }
    }
}

/// Each description on a line of its own.
pub open spec fn description_lines(items: Seq<TodoView>) -> Seq<char>
    decreases items.len(),
{
    if items.len() == 0 {
        Seq::<char>::empty()
    } else {
        description_lines(items.drop_last()) + items.last().description + seq!['\n']
    }
}

/// The done tab's content.
pub struct Done {
    pub done_list: Vec<TodoItem>,
}

impl Done {
    /// The records of `todo_list` that are done and were last modified
    /// before the day of `today`.
    pub fn init(todo_list: &Vec<TodoItem>, today: &Timestamp) -> (r: Done)
        requires
            all_wf(todo_list@),
            today.wf(),
        ensures
            item_views(r.done_list@) == done_before(item_views(todo_list@), day_number(today@)),
            all_wf(r.done_list@),
    {
        let today_day = today.day();
        let ghost items = item_views(todo_list@);
        let mut done_list: Vec<TodoItem> = Vec::new();
        let mut i: usize = 0;
        while i < todo_list.len()
            invariant
                i <= todo_list@.len(),
                items == item_views(todo_list@),
                all_wf(todo_list@),
                today_day == day_number(today@),
                item_views(done_list@) == done_before(items.take(i as int), today_day as int),
                all_wf(done_list@),
            decreases todo_list@.len() - i,
        {
            let item = &todo_list[i];
            proof {
                assert(items.take(i + 1).drop_last() =~= items.take(i as int));
                assert(items.take(i + 1).last() == item@);
                assert(item.wf());
            }
            if item.status == Status::Done && today_day > item.date_modified.day() {
                let ghost before = done_list@;
                done_list.push(item.duplicate());
                proof {
                    assert(item_views(done_list@) =~= item_views(before).push(item@));
                }
            }
            i += 1;
        }
        proof {
            assert(items.take(i as int) =~= items);
        }
        Done { done_list }
    }

    /// The text that draws the tab: the descriptions, one per line, from
    /// column 5 of row 2.
    pub fn render(&self) -> (r: String)
        ensures
            r@ == goto_seq(5, 2).push('\n') + description_lines(item_views(self.done_list@))
                + seq!['\n'],
    {
        let ghost items = item_views(self.done_list@);
        let mut out = Cursor::place(5, 2);
        let mut i: usize = 0;
        while i < self.done_list.len()
            invariant
                i <= self.done_list@.len(),
                items == item_views(self.done_list@),
                out@ == goto_seq(5, 2).push('\n') + description_lines(items.take(i as int)),
            decreases self.done_list@.len() - i,
        {
            push_all(&mut out, self.done_list[i].description.as_str());
            out.push('\n');
            proof {
                assert(items.take(i + 1).drop_last() =~= items.take(i as int));
                assert(items.take(i + 1).last() == self.done_list@[i as int]@);
                assert(out@ =~= goto_seq(5, 2).push('\n') + description_lines(items.take(i + 1)));
            }
            i += 1;
        }
        proof {
            assert(items.take(i as int) =~= items);
        }
        let end = Print::finsih();
        push_all(&mut out, end.as_str());
        out
    }
}

} // verus!
