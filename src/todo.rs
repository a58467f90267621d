//! Todo records and the text format in which a list of them is stored: one
//! record per line, `id|date_created|date_modified|status|description`.
use vstd::prelude::*;
use crate::text::{
    chars_of, dec, join, lemma_join_free, lemma_parse_dec, lemma_split_join, lemma_split_len,
    parse_u16, parse_u16_chars, prefix, push_all, push_dec, same_text, split, split_chars,
    string_of, views,
};
use crate::timestamp::{valid_timestamp, Timestamp};

verus! {

/// Whether a record is still to be done.
#[derive(Clone, Copy, Debug, PartialEq, Eq, Structural)]
pub enum Status {
    Todo,
    Done,
}

pub open spec fn status_text(s: Status) -> Seq<char> {
    match s {
        Status::Todo => seq!['T', 'o', 'd', 'o'],
        Status::Done => seq!['D', 'o', 'n', 'e'],
    }
}

/// The status that a stored status field names, if any.
pub open spec fn status_named(s: Seq<char>) -> Option<Status> {
    if s == status_text(Status::Todo) {
        Some(Status::Todo)
    } else if s == status_text(Status::Done) {
        Some(Status::Done)
    } else {
        None
    }
}

/// The status read from a stored field: an unknown one counts as `Todo`.
pub open spec fn status_or_todo(s: Seq<char>) -> Status {
    match status_named(s) {
        Some(st) => st,
        None => Status::Todo,
    }
}

pub open spec fn toggled(s: Status) -> Status {
    match s {
        Status::Todo => Status::Done,
        Status::Done => Status::Todo,
    }
}

impl Status {
    /// The text under which the status is stored.
    pub fn as_str(&self) -> (r: &'static str)
        ensures
            r@ == status_text(*self),
    {
        match self {
            Status::Todo => {
                proof {
                    reveal_strlit("Todo");
                }
                "Todo"
            },
            Status::Done => {
                proof {
                    reveal_strlit("Done");
                }
                "Done"
            },
        }
    }

    /// The status stored as `s`, if any.
    pub fn from_str(s: &str) -> (r: Option<Status>)
        ensures
            r == status_named(s@),
    {
        if same_text(s, Status::Todo.as_str()) {
            Some(Status::Todo)
        } else if same_text(s, Status::Done.as_str()) {
            Some(Status::Done)
        } else {
            None
        }
    }

    /// The other status.
    pub fn toggle(self) -> (r: Status)
        ensures
            r == toggled(self),
    {
        match self {
            Status::Todo => Status::Done,
            Status::Done => Status::Todo,
        }
    }
}

/// One todo entry.
#[derive(Debug)]
pub struct TodoItem {
    pub id: u16,
    pub date_created: Timestamp,
    pub date_modified: Timestamp,
    pub status: Status,
    pub description: String,
}

/// A record as plain values.
pub struct TodoView {
    pub id: u16,
    pub date_created: Seq<char>,
    pub date_modified: Seq<char>,
    pub status: Status,
    pub description: Seq<char>,
}

impl View for TodoItem {
    type V = TodoView;

    open spec fn view(&self) -> TodoView {
        TodoView {
            id: self.id,
            date_created: self.date_created@,
            date_modified: self.date_modified@,
            status: self.status,
            description: self.description@,
        }
    }
}

impl TodoItem {
    pub open spec fn wf(&self) -> bool {
        self.date_created.wf() && self.date_modified.wf()
    }

    /// A description as a list row shows it: a mark before it, a space
    /// around.
    pub fn format_description(description: &str) -> (r: String)
        ensures
            r@ == seq![' ', '\u{b7}', ' '] + description@ + seq![' '],
    {
        let mut text = String::new();
        text.push(' ');
        text.push('\u{b7}');
        text.push(' ');
        push_all(&mut text, description);
        text.push(' ');
        proof {
            assert(text@ =~= seq![' ', '\u{b7}', ' '] + description@ + seq![' ']);
        }
        text
    }

    /// Another record with the same fields.
    pub fn duplicate(&self) -> (r: TodoItem)
        ensures
            r@ == self@,
            self.wf() ==> r.wf(),
    {
        let mut description = String::new();
        push_all(&mut description, self.description.as_str());
        proof {
            assert(description@ =~= self.description@);
        }
        TodoItem {
            id: self.id,
            date_created: self.date_created.duplicate(),
            date_modified: self.date_modified.duplicate(),
            status: self.status,
            description,
        }
    }
}

pub open spec fn item_views(items: Seq<TodoItem>) -> Seq<TodoView> {
    items.map_values(|t: TodoItem| t@)
}

pub open spec fn all_wf(items: Seq<TodoItem>) -> bool {
    forall|i: int| 0 <= i < items.len() ==> (#[trigger] items[i]).wf()
}

// ---------------------------------------------------------------- writing

/// The five fields of a record, in stored order.
pub open spec fn record_fields(r: TodoView) -> Seq<Seq<char>> {
    seq![
        dec(r.id as nat),
        r.date_created,
        r.date_modified,
        status_text(r.status),
        r.description,
    ]
}

/// The line that stores a record.
pub open spec fn record_line(r: TodoView) -> Seq<char> {
    join(record_fields(r), '|')
}

/// The stored text of a list: its record lines, separated by line breaks.
pub open spec fn list_text(rs: Seq<TodoView>) -> Seq<char> {
    join(rs.map_values(|r: TodoView| record_line(r)), '\n')
}

proof fn lemma_record_line(r: TodoView)
    ensures
        record_line(r) == dec(r.id as nat) + seq!['|'] + r.date_created + seq!['|']
            + r.date_modified + seq!['|'] + status_text(r.status) + seq!['|'] + r.description,
{
    let f = record_fields(r);
    reveal_with_fuel(join, 6);
    assert(f.drop_last().drop_last().drop_last().drop_last() =~= seq![f[0]]);
    assert(f.drop_last().drop_last().drop_last().last() == f[1]);
    assert(f.drop_last().drop_last().last() == f[2]);
    assert(f.drop_last().last() == f[3]);
    assert(f.last() == f[4]);
    assert(record_line(r) =~= dec(r.id as nat) + seq!['|'] + r.date_created + seq!['|']
        + r.date_modified + seq!['|'] + status_text(r.status) + seq!['|'] + r.description);
}

/// Appends the line that stores `item`.
fn push_record(s: &mut String, item: &TodoItem)
    ensures
        final(s)@ == old(s)@ + record_line(item@),
{
    push_dec(s, item.id as u32);
    s.push('|');
    push_all(s, item.date_created.as_str());
    s.push('|');
    push_all(s, item.date_modified.as_str());
    s.push('|');
    push_all(s, item.status.as_str());
    s.push('|');
    push_all(s, item.description.as_str());
    proof {
        lemma_record_line(item@);
        assert(s@ =~= old(s)@ + record_line(item@));
    }
}

/// The text that stores `todo_list`: one line per record, in list order,
/// without a line break after the last.
pub fn write_todo(todo_list: &Vec<TodoItem>) -> (r: String)
    ensures
        r@ == list_text(item_views(todo_list@)),
{
    let ghost lines = item_views(todo_list@).map_values(|r: TodoView| record_line(r));
    let mut s = String::new();
    let mut i: usize = 0;
    while i < todo_list.len()
        invariant
            i <= todo_list@.len(),
            lines == item_views(todo_list@).map_values(|r: TodoView| record_line(r)),
            s@ == join(lines.take(i as int), '\n'),
        decreases todo_list@.len() - i,
    {
        if i > 0 {
            s.push('\n');
        }
        push_record(&mut s, &todo_list[i]);
        proof {
            let t = lines.take(i + 1);
            assert(t.drop_last() =~= lines.take(i as int));
            assert(t.last() == record_line(todo_list@[i as int]@));
            if i == 0 {
                assert(s@ =~= join(t, '\n'));
            } else {
                assert(s@ =~= join(t, '\n'));
            }
        }
        i += 1;
    }
    proof {
        assert(lines.take(i as int) =~= lines);
    }
    s
}

// ---------------------------------------------------------------- reading

/// A line without the carriage return that ended it, if any.
pub open spec fn strip_cr(l: Seq<char>) -> Seq<char> {
    if l.len() > 0 && l.last() == '\r' {
        l.drop_last()
    } else {
        l
    }
}

/// The lines of a text as a buffered reader yields them: split at line
/// feeds, a carriage return before a line feed dropped, and no empty line
/// after a final line feed.
pub open spec fn text_lines(t: Seq<char>) -> Seq<Seq<char>> {
    let ps = split(t, '\n');
    let body = ps.drop_last().map_values(|p: Seq<char>| strip_cr(p));
    if ps.last().len() == 0 {
        body
    } else {
        body.push(ps.last())
    }
}

/// The record that a line stores, if it is well formed: exactly five fields,
/// a `u16` id, and two valid timestamps.
pub open spec fn parse_record(line: Seq<char>) -> Option<TodoView> {
    let fs = split(line, '|');
    if fs.len() == 5 && parse_u16(fs[0]) is Some && valid_timestamp(fs[1]) && valid_timestamp(
        fs[2],
    ) {
        Some(
            TodoView {
                id: parse_u16(fs[0])->0,
                date_created: fs[1],
                date_modified: fs[2],
                status: status_or_todo(fs[3]),
                description: fs[4],
            },
        )
    } else {
        None
    }
}

/// Whether the status field of a well-formed line names a status.
pub open spec fn status_known(line: Seq<char>) -> bool {
    status_named(split(line, '|')[3]) is Some
}

/// The positions, among the first `k` lines, of those whose status field
/// names no status.
pub open spec fn unknown_status_lines(ls: Seq<Seq<char>>, k: int) -> Seq<usize>
    decreases k,
{
    if k <= 0 {
        Seq::<usize>::empty()
    } else if status_known(ls[k - 1]) {
        unknown_status_lines(ls, k - 1)
    } else {
        unknown_status_lines(ls, k - 1).push((k - 1) as usize)
    }
}

/// The records of all lines, or `None` if any line is malformed.
pub open spec fn parse_lines(ls: Seq<Seq<char>>) -> Option<Seq<TodoView>>
    decreases ls.len(),
{
    if ls.len() == 0 {
        Some(Seq::<TodoView>::empty())
    } else {
        match (parse_lines(ls.drop_last()), parse_record(ls.last())) {
            (Some(p), Some(r)) => Some(p.push(r)),
            _ => None,
        }
    }
}

/// The list that a stored text holds, or `None` if it is corrupt.
pub open spec fn load_text(t: Seq<char>) -> Option<Seq<TodoView>> {
    parse_lines(text_lines(t))
}

/// A list read from its stored text.
pub struct Loaded {
    pub todo_list: Vec<TodoItem>,
    /// The lines, counted from 0, whose status was unknown and read as `Todo`.
    pub unknown_status: Vec<usize>,
}

/// A stored list in which some line is malformed.
#[derive(Clone, Copy, Debug, PartialEq, Eq, Structural)]
pub enum LoadError {
    CorruptRecord,
}

proof fn lemma_parse_lines_none(ls: Seq<Seq<char>>, k: int)
    requires
        0 <= k <= ls.len(),
        parse_lines(ls.take(k)) is None,
    ensures
        parse_lines(ls) is None,
    decreases ls.len() - k,
{
    if k < ls.len() {
        assert(ls.take(k + 1).drop_last() =~= ls.take(k));
        lemma_parse_lines_none(ls, k + 1);
    } else {
        assert(ls.take(k) =~= ls);
    }
}

/// The record stored in `line[..hi]`, if it is well formed.
fn read_record(line: &Vec<char>, hi: usize) -> (r: Option<(TodoItem, bool)>)
    requires
        hi <= line@.len(),
    ensures
        r is Some <==> parse_record(line@.take(hi as int)) is Some,
        r matches Some((item, known)) ==> {
            &&& item.wf()
            &&& parse_record(line@.take(hi as int)) == Some(item@)
            &&& known == status_known(line@.take(hi as int))
        },
{
    let l = prefix(line, hi);
    let fields = split_chars(&l, '|');
    proof {
        lemma_split_len(l@, '|');
        assert(views(fields@).len() == fields@.len());
    }
    if fields.len() != 5 {
        return None;
    }
    proof {
        assert(views(fields@)[0] == fields@[0]@);
        assert(views(fields@)[1] == fields@[1]@);
        assert(views(fields@)[2] == fields@[2]@);
        assert(views(fields@)[3] == fields@[3]@);
        assert(views(fields@)[4] == fields@[4]@);
    }
    let id = match parse_u16_chars(&fields[0]) {
        Some(id) => id,
        None => return None,
    };
    let created_text = string_of(&fields[1], 0, fields[1].len());
    let modified_text = string_of(&fields[2], 0, fields[2].len());
    proof {
        assert(fields@[1]@.subrange(0, fields@[1]@.len() as int) =~= fields@[1]@);
        assert(fields@[2]@.subrange(0, fields@[2]@.len() as int) =~= fields@[2]@);
    }
    let date_created = match Timestamp::parse(created_text.as_str()) {
        Some(t) => t,
        None => return None,
    };
    let date_modified = match Timestamp::parse(modified_text.as_str()) {
        Some(t) => t,
        None => return None,
    };
    let status_text_read = string_of(&fields[3], 0, fields[3].len());
    let description = string_of(&fields[4], 0, fields[4].len());
    proof {
        assert(fields@[3]@.subrange(0, fields@[3]@.len() as int) =~= fields@[3]@);
        assert(fields@[4]@.subrange(0, fields@[4]@.len() as int) =~= fields@[4]@);
    }
    let (status, known) = match Status::from_str(status_text_read.as_str()) {
        Some(st) => (st, true),
        None => (Status::Todo, false),
    };
    Some((TodoItem { id, date_created, date_modified, status, description }, known))
}

/// The list stored in `text`; `CorruptRecord` when any line does not hold
/// exactly five fields, a valid id and two valid timestamps, in which case
/// no record at all is returned. An unknown status reads as `Todo`, and the
/// lines where that happened are reported.
pub fn read_todo(text: &str) -> (r: Result<Loaded, LoadError>)
    ensures
        r is Ok <==> load_text(text@) is Some,
        r matches Ok(l) ==> {
            &&& load_text(text@) == Some(item_views(l.todo_list@))
            &&& all_wf(l.todo_list@)
            &&& l.unknown_status@ == unknown_status_lines(
                text_lines(text@),
                text_lines(text@).len() as int,
            )
        },
{
    let cs = chars_of(text);
    let pieces = split_chars(&cs, '\n');
    let ghost ps = split(text@, '\n');
    let ghost ls = text_lines(text@);
    proof {
        lemma_split_len(text@, '\n');
        assert(views(pieces@).len() == pieces@.len());
    }
    let n = pieces.len();
    let last_empty = pieces[n - 1].len() == 0;
    let count = if last_empty { n - 1 } else { n };
    proof {
        assert(views(pieces@)[n - 1] == pieces@[n - 1]@);
        assert(ls.len() == count);
    }
    let mut out: Vec<TodoItem> = Vec::new();
    let mut unknown: Vec<usize> = Vec::new();
    let mut k: usize = 0;
    while k < count
        invariant
            k <= count <= n,
            n == pieces@.len(),
            ps == views(pieces@),
            ps == split(text@, '\n'),
            ls == text_lines(text@),
            ls.len() == count,
            count == n || count == n - 1,
            out@.len() == k,
            parse_lines(ls.take(k as int)) == Some(item_views(out@)),
            all_wf(out@),
            unknown@ == unknown_status_lines(ls, k as int),
        decreases count - k,
    {
        let piece = &pieces[k];
        let hi = if k + 1 < n && piece.len() > 0 && piece[piece.len() - 1] == '\r' {
            piece.len() - 1
        } else {
            piece.len()
        };
        proof {
            assert(ps[k as int] == piece@);
            if k + 1 < n {
                assert(ls[k as int] == strip_cr(ps[k as int]));
                assert(piece@.take(hi as int) =~= strip_cr(piece@));
            } else {
                assert(ls[k as int] == ps.last());
                assert(piece@.take(hi as int) =~= piece@);
            }
            assert(ls.take(k + 1).drop_last() =~= ls.take(k as int));
            assert(ls.take(k + 1).last() == ls[k as int]);
        }
        match read_record(piece, hi) {
            Some((item, known)) => {
                let ghost before = out@;
                out.push(item);
                if !known {
                    unknown.push(k);
                }
                proof {
                    assert(item_views(out@) =~= item_views(before).push(item@));
                }
            },
            None => {
                proof {
                    lemma_parse_lines_none(ls, k + 1);
                }
                return Err(LoadError::CorruptRecord);
            },
        }
        k += 1;
    }
    proof {
        assert(ls.take(k as int) =~= ls);
    }
    Ok(Loaded { todo_list: out, unknown_status: unknown })
}

// ---------------------------------------------------------------- laws

/// A record whose line reads back as the record itself.
pub open spec fn storable(r: TodoView) -> bool {
    &&& valid_timestamp(r.date_created)
    &&& valid_timestamp(r.date_modified)
    &&& !r.description.contains('|')
    &&& !r.description.contains('\n')
}

pub open spec fn ends_with_cr(s: Seq<char>) -> bool {
    s.len() > 0 && s.last() == '\r'
}

proof fn lemma_status_text(s: Status)
    ensures
        status_or_todo(status_text(s)) == s,
        !status_text(s).contains('|'),
        !status_text(s).contains('\n'),
{
    assert(status_text(Status::Done)[0] != status_text(Status::Todo)[0]);
    let t = status_text(s);
    if t.contains('|') {
        let k = choose|k: int| 0 <= k < t.len() && t[k] == '|';
        assert(t[k] != '|');
    }
    if t.contains('\n') {
        let k = choose|k: int| 0 <= k < t.len() && t[k] == '\n';
        assert(t[k] != '\n');
    }
}

proof fn lemma_record_round_trip(r: TodoView)
    requires
        storable(r),
    ensures
        parse_record(record_line(r)) == Some(r),
        !record_line(r).contains('\n'),
        record_line(r).len() > 0,
        !ends_with_cr(r.description) ==> strip_cr(record_line(r)) == record_line(r),
{
    let f = record_fields(r);
    lemma_parse_dec(r.id);
    lemma_status_text(r.status);
    assert forall|i: int| 0 <= i < f.len() implies !(#[trigger] f[i]).contains('|') by {
        if i == 3 {
            assert(f[3] == status_text(r.status));
        }
    }
    assert forall|i: int| 0 <= i < f.len() implies !(#[trigger] f[i]).contains('\n') by {}
    lemma_split_join(f, '|');
    lemma_join_free(f, '|', '\n');
    lemma_record_line(r);
    crate::text::lemma_dec(r.id as nat);
    let line = record_line(r);
    let head = dec(r.id as nat) + seq!['|'] + r.date_created + seq!['|'] + r.date_modified
        + seq!['|'] + status_text(r.status) + seq!['|'];
    assert(line == head + r.description);
    assert(line.len() > 0);
    if !ends_with_cr(r.description) {
        if r.description.len() > 0 {
            assert(line.last() == r.description.last());
        } else {
            assert(line =~= head);
            assert(line.last() == '|');
        }
    }
}

proof fn lemma_parse_prefix(rs: Seq<TodoView>, k: int)
    requires
        0 <= k <= rs.len(),
        forall|i: int| 0 <= i < rs.len() ==> storable(#[trigger] rs[i]),
    ensures
        parse_lines(rs.map_values(|r: TodoView| record_line(r)).take(k)) == Some(rs.take(k)),
    decreases k,
{
    let lines = rs.map_values(|r: TodoView| record_line(r));
    if k == 0 {
        assert(lines.take(0) =~= Seq::<Seq<char>>::empty());
        assert(rs.take(0) =~= Seq::<TodoView>::empty());
    } else {
        lemma_parse_prefix(rs, k - 1);
        lemma_record_round_trip(rs[k - 1]);
        assert(lines.take(k).drop_last() =~= lines.take(k - 1));
        assert(lines.take(k).last() == record_line(rs[k - 1]));
        assert(rs.take(k - 1).push(rs[k - 1]) =~= rs.take(k));
    }
}

/// Saving a list and loading the saved text gives back the same records:
/// ids, timestamps, statuses and descriptions. This holds for every list
/// whose timestamps are valid, whose descriptions hold neither the field
/// separator nor a line break, and in which no description but the last ends
/// in a carriage return (a reader drops that one with the line break).
pub proof fn lemma_save_load_round_trip(rs: Seq<TodoView>)
    requires
        forall|i: int| 0 <= i < rs.len() ==> storable(#[trigger] rs[i]),
        forall|i: int| 0 <= i < rs.len() - 1 ==> !ends_with_cr(#[trigger] rs[i].description),
    ensures
        load_text(list_text(rs)) == Some(rs),
{
    let lines = rs.map_values(|r: TodoView| record_line(r));
    let t = list_text(rs);
    if rs.len() == 0 {
        assert(t =~= Seq::<char>::empty());
        assert(text_lines(t) =~= Seq::<Seq<char>>::empty());
        assert(load_text(t) == Some(rs)) by {
            assert(rs =~= Seq::<TodoView>::empty());
        }
    } else {
        assert forall|i: int| 0 <= i < lines.len() implies !(#[trigger] lines[i]).contains('\n') by {
            lemma_record_round_trip(rs[i]);
        }
        lemma_split_join(lines, '\n');
        let ps = split(t, '\n');
        assert(ps == lines);
        lemma_record_round_trip(rs[rs.len() - 1]);
        assert(ps.last().len() > 0);
        assert forall|i: int| 0 <= i < lines.len() - 1 implies strip_cr(#[trigger] lines[i])
            == lines[i] by {
            lemma_record_round_trip(rs[i]);
        }
        assert(text_lines(t) =~= lines);
        lemma_parse_prefix(rs, rs.len() as int);
        assert(lines.take(rs.len() as int) =~= lines);
        assert(rs.take(rs.len() as int) =~= rs);
    }
}

/// The round trip for the records a store holds: the text `write_todo`
/// gives for them is read back by `read_todo` as the same records.
pub proof fn lemma_items_round_trip(items: Seq<TodoItem>)
    requires
        all_wf(items),
        forall|i: int|
            0 <= i < items.len() ==> !(#[trigger] items[i]).description@.contains('|')
                && !items[i].description@.contains('\n'),
        forall|i: int|
            0 <= i < items.len() - 1 ==> !ends_with_cr((#[trigger] items[i]).description@),
    ensures
        load_text(list_text(item_views(items))) == Some(item_views(items)),
{
    let rs = item_views(items);
    assert forall|i: int| 0 <= i < rs.len() implies storable(#[trigger] rs[i]) by {
        assert(items[i].wf());
        items[i].date_created.lemma_wf();
        items[i].date_modified.lemma_wf();
    }
    assert forall|i: int| 0 <= i < rs.len() - 1 implies !ends_with_cr(
        #[trigger] rs[i].description,
    ) by {
        assert(rs[i].description == items[i].description@);
    }
    lemma_save_load_round_trip(rs);
}

/// A stored text in which some line does not split into exactly five
/// fields loads as nothing at all: no partial list is read from it.
pub proof fn lemma_wrong_field_count_rejected(text: Seq<char>, k: int)
    requires
        0 <= k < text_lines(text).len(),
        split(text_lines(text)[k], '|').len() != 5,
    ensures
        load_text(text) is None,
{
    let ls = text_lines(text);
    assert(parse_record(ls[k]) is None);
    assert(ls.take(k + 1).last() == ls[k]);
    assert(parse_lines(ls.take(k + 1)) is None);
    lemma_parse_lines_none(ls, k + 1);
}

} // verus!
