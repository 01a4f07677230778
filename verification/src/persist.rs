//! The persisted format: one task per line, four fields separated by tabs.
//!
//! The fields are the done flag (`0` or `1`), the folder, the time of
//! creation and the text. A line is split at its first three tabs, so the
//! text may hold tabs of its own; a line with fewer than three tabs is no
//! record and is skipped.

use vstd::prelude::*;
use crate::stamp::{is_field_text, rfc3339_parsed, saturated, Timestamp};
use crate::store::{views, Task, TaskView};
use crate::text::{chars_of, push_chars, push_str, same_chars, string_of};

verus! {

/// The four fields of a record.
pub ghost struct Fields {
    pub flag: Seq<char>,
    pub folder: Seq<char>,
    pub stamp: Seq<char>,
    pub text: Seq<char>,
}

/// The done flag as it is written.
pub open spec fn flag_text(done: bool) -> Seq<char> {
    if done {
        seq!['1']
    } else {
        seq!['0']
    }
}

/// The fields that a task is written with.
pub open spec fn fields_of(task: TaskView) -> Fields {
    Fields {
        flag: flag_text(task.done),
        folder: task.folder,
        stamp: task.created_at.rfc3339(),
        text: task.text,
    }
}

/// The line of a record, without its line feed.
pub open spec fn line_text(fields: Fields) -> Seq<char> {
    fields.flag + seq!['\t'] + fields.folder + seq!['\t'] + fields.stamp + seq!['\t'] + fields.text
}

/// What is written for a store: the line of each task in store order, each
/// ended by a line feed.
pub open spec fn file_text(tasks: Seq<TaskView>) -> Seq<char>
    decreases tasks.len(),
{
    if tasks.len() == 0 {
        Seq::empty()
    } else {
        file_text(tasks.drop_last()) + line_text(fields_of(tasks.last())) + seq!['\n']
    }
}

/// Writes a store in the persisted format.
pub fn serialize_tasks(tasks: &Vec<Task>) -> (out: String)
    ensures
        out@ == file_text(views(tasks@)),
        (forall|k: int| 0 <= k < tasks@.len() ==> is_writable(#[trigger] views(tasks@)[k]))
            ==> records(lines(out@)) == field_list(views(tasks@)),
{
    let mut buf: Vec<char> = Vec::new();
    let mut i: usize = 0;
    while i < tasks.len()
        invariant
            i <= tasks.len(),
            buf@ == file_text(views(tasks@).take(i as int)),
            forall|k: int|
                0 <= k < i ==> is_field_text((#[trigger] views(tasks@)[k]).created_at.rfc3339()),
        decreases tasks.len() - i,
    {
        let task = &tasks[i];
        let ghost before = buf@;
        let ghost fields = fields_of(task@);
        let mut line: Vec<char> = Vec::new();
        line.push(if task.done { '1' } else { '0' });
        line.push('\t');
        push_str(&mut line, task.folder.as_str());
        line.push('\t');
        push_str(&mut line, task.created_at.to_rfc3339().as_str());
        line.push('\t');
        push_str(&mut line, task.text.as_str());
        assert(line@ == line_text(fields));
        push_chars(&mut buf, &line);
        buf.push('\n');
        proof {
            let next = views(tasks@).take(i + 1);
            assert(next.drop_last() == views(tasks@).take(i as int));
            assert(next.last() == task@);
            assert(buf@ == before + line_text(fields) + seq!['\n']);
        }
        i += 1;
    }
    assert(views(tasks@).take(i as int) == views(tasks@));
    proof {
        let all = views(tasks@);
        if forall|k: int| 0 <= k < all.len() ==> is_writable(#[trigger] all[k]) {
            assert forall|k: int| 0 <= k < all.len() implies is_record(
                fields_of(#[trigger] all[k]),
            ) by {
                assert(is_writable(all[k]));
                assert(is_field_text(all[k].created_at.rfc3339()));
                assert(flag_text(all[k].done)[0] != '\t');
            }
            law_records_round_trip(all);
        }
    }
    string_of(&buf)
}

/// The characters of `s` that come after its last line feed.
pub open spec fn open_line(s: Seq<char>) -> Seq<char>
    decreases s.len(),
{
    if s.len() == 0 || s.last() == '\n' {
        Seq::empty()
    } else {
        open_line(s.drop_last()).push(s.last())
    }
}

/// `line` without the carriage return that may stand at its end.
pub open spec fn without_return(line: Seq<char>) -> Seq<char> {
    if line.len() > 0 && line.last() == '\r' {
        line.drop_last()
    } else {
        line
    }
}

/// The lines of `s` that a line feed ends, each without that line feed and
/// without a carriage return before it.
pub open spec fn closed_lines(s: Seq<char>) -> Seq<Seq<char>>
    decreases s.len(),
{
    if s.len() == 0 {
        Seq::empty()
    } else if s.last() == '\n' {
        closed_lines(s.drop_last()).push(without_return(open_line(s.drop_last())))
    } else {
        closed_lines(s.drop_last())
    }
}

/// The lines of `s`: those that a line feed ends, and what follows the last
/// line feed where that is not empty.
pub open spec fn lines(s: Seq<char>) -> Seq<Seq<char>> {
    if open_line(s).len() > 0 {
        closed_lines(s).push(open_line(s))
    } else {
        closed_lines(s)
    }
}

/// Number of characters of `s` that stand before its first tab.
pub open spec fn before_tab(s: Seq<char>) -> nat
    decreases s.len(),
{
    if s.len() == 0 || s.first() == '\t' {
        0
    } else {
        1 + before_tab(s.drop_first())
    }
}

/// The fields of a line: it is split at its first three tabs, and a line
/// with fewer tabs has none.
pub open spec fn parsed_line(line: Seq<char>) -> Option<Fields> {
    let a = before_tab(line);
    if a >= line.len() {
        None
    } else {
        let second = line.skip(a as int + 1);
        let b = before_tab(second);
        if b >= second.len() {
            None
        } else {
            let third = second.skip(b as int + 1);
            let c = before_tab(third);
            if c >= third.len() {
                None
            } else {
                Some(
                    Fields {
                        flag: line.take(a as int),
                        folder: second.take(b as int),
                        stamp: third.take(c as int),
                        text: third.skip(c as int + 1),
                    },
                )
            }
        }
    }
}

/// The records among `list`: the fields of each line that has them, in
/// order.
pub open spec fn records(list: Seq<Seq<char>>) -> Seq<Fields>
    decreases list.len(),
{
    if list.len() == 0 {
        Seq::empty()
    } else {
        match parsed_line(list.last()) {
            Some(fields) => records(list.drop_last()).push(fields),
            None => records(list.drop_last()),
        }
    }
}

/// Whether `stamp` can be the time of creation read from `text`. Where
/// chrono reads a time from the text, the stamp is that instant, seen at
/// some offset; where it reads none, any stamp will do.
pub open spec fn stamp_agrees(stamp: Timestamp, text: Seq<char>) -> bool {
    match rfc3339_parsed(text) {
        Some((secs, nanos, offset)) => {
            let read = saturated(secs as int, nanos as int, offset as int);
            exists|zone: i32| stamp.parts() == #[trigger] saturated(read.0, read.1, zone as int)
        },
        None => true,
    }
}

/// Whether `task` can be what is read from a record with the fields
/// `fields`: it is done where the flag is `1`, has the folder and the text
/// of the record, and a time of creation that agrees with the record's.
pub open spec fn task_agrees(task: TaskView, fields: Fields) -> bool {
    &&& task.done == (fields.flag == seq!['1'])
    &&& task.folder == fields.folder
    &&& task.text == fields.text
    &&& stamp_agrees(task.created_at, fields.stamp)
}

/// Whether `tasks` can be what is read from the records `list`: one task
/// for each record, in order.
pub open spec fn tasks_agree(tasks: Seq<TaskView>, list: Seq<Fields>) -> bool {
    &&& tasks.len() == list.len()
    &&& forall|k: int| 0 <= k < tasks.len() ==> task_agrees(#[trigger] tasks[k], list[k])
}

/// Position of the first tab of `chars` at or after `from`, or the length
/// of `chars` where there is none.
fn find_tab(chars: &Vec<char>, from: usize) -> (at: usize)
    requires
        from <= chars@.len(),
    ensures
        from <= at <= chars@.len(),
        at - from == before_tab(chars@.skip(from as int)),
{
    let mut at: usize = from;
    while at < chars.len() && chars[at] != '\t'
        invariant
            from <= at <= chars@.len(),
            before_tab(chars@.skip(from as int)) == (at - from) + before_tab(
                chars@.skip(at as int),
            ),
        decreases chars.len() - at,
    {
        assert(chars@.skip(at as int).drop_first() == chars@.skip(at + 1));
        at += 1;
    }
    at
}

/// The characters of `chars` from `from` up to `to`.
fn slice_of(chars: &Vec<char>, from: usize, to: usize) -> (out: Vec<char>)
    requires
        from <= to <= chars@.len(),
    ensures
        out@ == chars@.subrange(from as int, to as int),
{
    let mut out: Vec<char> = Vec::new();
    let mut i: usize = from;
    while i < to
        invariant
            from <= i <= to <= chars@.len(),
            out@ == chars@.subrange(from as int, i as int),
        decreases to - i,
    {
        out.push(chars[i]);
        i += 1;
    }
    out
}

/// The fields that the four vectors hold, if any.
pub open spec fn fields_view(read: Option<(Vec<char>, Vec<char>, Vec<char>, Vec<char>)>) -> Option<
    Fields,
> {
    match read {
        Some((flag, folder, stamp, text)) => Some(
            Fields { flag: flag@, folder: folder@, stamp: stamp@, text: text@ },
        ),
        None => None,
    }
}

/// Splits a line into its four fields.
pub fn split_fields(line: &Vec<char>) -> (out: Option<(Vec<char>, Vec<char>, Vec<char>, Vec<char>)>)
    ensures
        fields_view(out) == parsed_line(line@),
{
    let a = find_tab(line, 0);
    assert(line@.skip(0) == line@);
    if a >= line.len() {
        return None;
    }
    let b = find_tab(line, a + 1);
    if b >= line.len() {
        return None;
    }
    assert(line@.skip(a + 1).skip(b - a) == line@.skip(b + 1));
    let c = find_tab(line, b + 1);
    if c >= line.len() {
        return None;
    }
    proof {
        let second = line@.skip(a + 1);
        let third = second.skip(b - a);
        assert(line@.take(a as int) == line@.subrange(0, a as int));
        assert(second.take(b - a - 1) == line@.subrange(a + 1, b as int));
        assert(third.take(c - b - 1) == line@.subrange(b + 1, c as int));
        assert(third.skip(c - b) == line@.subrange(c + 1, line@.len() as int));
    }
    Some(
        (
            slice_of(line, 0, a),
            slice_of(line, a + 1, b),
            slice_of(line, b + 1, c),
            slice_of(line, c + 1, line.len()),
        ),
    )
}

/// The task read, if any, with its strings as sequences of characters.
pub open spec fn task_view(read: Option<Task>) -> Option<TaskView> {
    match read {
        Some(task) => Some(task@),
        None => None,
    }
}

/// Makes the task of a record, with `created_at` as its time of creation.
pub fn task_of_fields(
    flag: &Vec<char>,
    folder: &Vec<char>,
    text: &Vec<char>,
    created_at: Timestamp,
) -> (task: Task)
    ensures
        task@ == (TaskView {
            text: text@,
            done: flag@ == seq!['1'],
            folder: folder@,
            created_at: created_at,
        }),
{
    let mut one: Vec<char> = Vec::new();
    one.push('1');
    Task {
        text: string_of(text),
        done: same_chars(flag, &one),
        folder: string_of(folder),
        created_at,
    }
}

/// Reads the time of creation of a record. A text that chrono reads gives
/// that instant, seen in the zone of the machine; any other text gives the
/// time that the clock of the machine shows.
pub fn read_stamp(text: &Vec<char>) -> (stamp: Timestamp)
    ensures
        stamp_agrees(stamp, text@),
{
    match Timestamp::parse_rfc3339(string_of(text).as_str()) {
        Some(read) => {
            let stamp = read.in_local_zone();
            proof {
                let zone = choose|offset: i32|
                    stamp.parts() == saturated(
                        read.secs() as int,
                        read.nanos() as int,
                        offset as int,
                    );
                assert(stamp.parts() == saturated(read.parts().0, read.parts().1, zone as int));
            }
            stamp
        },
        None => Timestamp::now(),
    }
}

/// Reads the task of a line, where the line is a record.
pub fn read_line(line: &Vec<char>) -> (task: Option<Task>)
    ensures
        match parsed_line(line@) {
            Some(fields) => task_view(task) matches Some(read) && task_agrees(read, fields),
            None => task_view(task) == None::<TaskView>,
        },
{
    match split_fields(line) {
        Some((flag, folder, stamp, text)) => {
            let created_at = read_stamp(&stamp);
            Some(task_of_fields(&flag, &folder, &text, created_at))
        },
        None => None,
    }
}

/// Reads a store from its text in the persisted format. Lines that are no
/// records are skipped.
pub fn parse_tasks(content: &str) -> (tasks: Vec<Task>)
    ensures
        tasks_agree(views(tasks@), records(lines(content@))),
{
    let chars = chars_of(content);
    let mut tasks: Vec<Task> = Vec::new();
    let mut line: Vec<char> = Vec::new();
    let mut i: usize = 0;
    assert(views(tasks@) =~= Seq::empty());
    while i < chars.len()
        invariant
            i <= chars.len(),
            line@ == open_line(chars@.take(i as int)),
            tasks_agree(views(tasks@), records(closed_lines(chars@.take(i as int)))),
        decreases chars.len() - i,
    {
        let c = chars[i];
        proof {
            let next = chars@.take(i + 1);
            assert(next.drop_last() == chars@.take(i as int));
            assert(next.last() == c);
        }
        if c == '\n' {
            if line.len() > 0 && line[line.len() - 1] == '\r' {
                line.pop();
            }
            let ghost list = closed_lines(chars@.take(i + 1));
            assert(list.drop_last() == closed_lines(chars@.take(i as int)));
            assert(list.last() == line@);
            let ghost before = views(tasks@);
            match read_line(&line) {
                Some(task) => {
                    tasks.push(task);
                    assert(views(tasks@) =~= before.push(task@));
                },
                None => {},
            }
            line = Vec::new();
        } else {
            line.push(c);
        }
        i += 1;
    }
    assert(chars@.take(i as int) == chars@);
    if line.len() > 0 {
        let ghost list = lines(chars@);
        assert(list.drop_last() == closed_lines(chars@));
        assert(list.last() == line@);
        let ghost before = views(tasks@);
        match read_line(&line) {
            Some(task) => {
                tasks.push(task);
                assert(views(tasks@) =~= before.push(task@));
            },
            None => {},
        }
    }
    tasks
}

/// Whether no character of `s` is `c`.
pub open spec fn has_no(s: Seq<char>, c: char) -> bool {
    forall|i: int| 0 <= i < s.len() ==> #[trigger] s[i] != c
}

/// Whether a record with these fields is read back as it was written: the
/// first three fields hold no tab, no field holds a line feed, and the text
/// does not end in a carriage return.
pub open spec fn is_record(fields: Fields) -> bool {
    &&& has_no(fields.flag, '\t') && has_no(fields.flag, '\n')
    &&& has_no(fields.folder, '\t') && has_no(fields.folder, '\n')
    &&& has_no(fields.stamp, '\t') && has_no(fields.stamp, '\n')
    &&& has_no(fields.text, '\n')
    &&& !(fields.text.len() > 0 && fields.text.last() == '\r')
}

/// Whether a task can be written and read back: its folder holds no tab
/// and no line feed, and its text no line feed and no carriage return at
/// its end.
pub open spec fn is_writable(task: TaskView) -> bool {
    &&& has_no(task.folder, '\t') && has_no(task.folder, '\n')
    &&& has_no(task.text, '\n')
    &&& !(task.text.len() > 0 && task.text.last() == '\r')
}

/// The fields that the tasks of a store are written with, in order.
pub open spec fn field_list(tasks: Seq<TaskView>) -> Seq<Fields> {
    tasks.map_values(|task: TaskView| fields_of(task))
}

/// A text without a line feed, put after whole lines, is the open line.
proof fn lemma_line_appended(s: Seq<char>, line: Seq<char>)
    requires
        open_line(s).len() == 0,
        has_no(line, '\n'),
    ensures
        open_line(s + line) == line,
        closed_lines(s + line) == closed_lines(s),
    decreases line.len(),
{
    if line.len() == 0 {
        assert(s + line == s);
        assert(open_line(s) == line);
    } else {
        let whole = s + line;
        assert(whole.drop_last() == s + line.drop_last());
        assert(whole.last() == line.last());
        lemma_line_appended(s, line.drop_last());
        assert(line.drop_last().push(line.last()) == line);
    }
}

/// A line with its line feed, put after whole lines, is one more line.
proof fn lemma_line_closed(s: Seq<char>, line: Seq<char>)
    requires
        open_line(s).len() == 0,
        has_no(line, '\n'),
        !(line.len() > 0 && line.last() == '\r'),
    ensures
        open_line(s + line + seq!['\n']).len() == 0,
        closed_lines(s + line + seq!['\n']) == closed_lines(s).push(line),
{
    let whole = s + line + seq!['\n'];
    lemma_line_appended(s, line);
    assert(whole.drop_last() == s + line);
    assert(whole.last() == '\n');
}

/// The first tab of a text is the one that follows a start without a tab.
proof fn lemma_before_tab(start: Seq<char>, rest: Seq<char>)
    requires
        has_no(start, '\t'),
    ensures
        before_tab(start + seq!['\t'] + rest) == start.len(),
    decreases start.len(),
{
    let whole = start + seq!['\t'] + rest;
    if start.len() == 0 {
        assert(whole.first() == '\t');
    } else {
        assert(whole.first() == start[0]);
        assert(whole.drop_first() == start.drop_first() + seq!['\t'] + rest);
        lemma_before_tab(start.drop_first(), rest);
    }
}

/// The line of a record whose first three fields hold no tab is split into
/// the fields it was made of.
pub proof fn lemma_parsed_line(fields: Fields)
    requires
        has_no(fields.flag, '\t'),
        has_no(fields.folder, '\t'),
        has_no(fields.stamp, '\t'),
    ensures
        parsed_line(line_text(fields)) == Some(fields),
{
    let tab = seq!['\t'];
    let line = line_text(fields);
    let third = fields.stamp + tab + fields.text;
    let second = fields.folder + tab + third;
    assert(line == fields.flag + tab + second);
    assert(second == fields.folder + tab + fields.stamp + tab + fields.text);
    lemma_before_tab(fields.flag, second);
    lemma_before_tab(fields.folder, third);
    lemma_before_tab(fields.stamp, fields.text);
    let a = fields.flag.len() as int;
    let b = fields.folder.len() as int;
    let c = fields.stamp.len() as int;
    assert(line.skip(a + 1) == second);
    assert(line.take(a) == fields.flag);
    assert(second.skip(b + 1) == third);
    assert(second.take(b) == fields.folder);
    assert(third.skip(c + 1) == fields.text);
    assert(third.take(c) == fields.stamp);
}

/// What is written for a store of records is a text of whole lines, one
/// for each task.
proof fn lemma_file_lines(tasks: Seq<TaskView>)
    requires
        forall|k: int| 0 <= k < tasks.len() ==> is_record(fields_of(#[trigger] tasks[k])),
    ensures
        open_line(file_text(tasks)).len() == 0,
        closed_lines(file_text(tasks)) == tasks.map_values(
            |task: TaskView| line_text(fields_of(task)),
        ),
        records(closed_lines(file_text(tasks))) == field_list(tasks),
    decreases tasks.len(),
{
    let as_line = |task: TaskView| line_text(fields_of(task));
    if tasks.len() == 0 {
        assert(closed_lines(file_text(tasks)) == tasks.map_values(as_line));
        assert(records(closed_lines(file_text(tasks))) == field_list(tasks));
    } else {
        let front = tasks.drop_last();
        let fields = fields_of(tasks.last());
        let line = line_text(fields);
        assert forall|k: int| 0 <= k < front.len() implies is_record(
            fields_of(#[trigger] front[k]),
        ) by {
            assert(front[k] == tasks[k]);
        }
        lemma_file_lines(front);
        assert(is_record(fields_of(tasks[tasks.len() - 1])));
        assert(has_no(line, '\n'));
        assert(!(line.len() > 0 && line.last() == '\r')) by {
            if fields.text.len() == 0 {
                assert(line.last() == '\t');
            } else {
                assert(line.last() == fields.text.last());
            }
        }
        lemma_line_closed(file_text(front), line);
        let list = closed_lines(file_text(tasks));
        assert(list == tasks.map_values(as_line));
        assert(list.drop_last() == closed_lines(file_text(front)));
        lemma_parsed_line(fields);
        assert(records(list) == field_list(tasks));
    }
}

/// A store of writable tasks is read back record by record: the records
/// among the lines of what is written for it are the fields of its tasks,
/// in store order, given that each time of creation is written without tab
/// and line feed.
pub proof fn law_records_round_trip(tasks: Seq<TaskView>)
    requires
        forall|k: int| 0 <= k < tasks.len() ==> is_record(fields_of(#[trigger] tasks[k])),
    ensures
        records(lines(file_text(tasks))) == field_list(tasks),
{
    lemma_file_lines(tasks);
}

/// Round trip: a store that is written and read back comes back with as
/// many tasks, and each has the done flag, the folder and the text it had.
pub proof fn law_round_trip(tasks: Seq<TaskView>, reloaded: Seq<TaskView>)
    requires
        forall|k: int| 0 <= k < tasks.len() ==> is_record(fields_of(#[trigger] tasks[k])),
        tasks_agree(reloaded, records(lines(file_text(tasks)))),
    ensures
        reloaded.len() == tasks.len(),
        forall|k: int|
            0 <= k < tasks.len() ==> {
                &&& (#[trigger] reloaded[k]).done == tasks[k].done
                &&& reloaded[k].folder == tasks[k].folder
                &&& reloaded[k].text == tasks[k].text
            },
{
    law_records_round_trip(tasks);
    assert forall|k: int| 0 <= k < tasks.len() implies {
        &&& (#[trigger] reloaded[k]).done == tasks[k].done
        &&& reloaded[k].folder == tasks[k].folder
        &&& reloaded[k].text == tasks[k].text
    } by {
        assert(task_agrees(reloaded[k], field_list(tasks)[k]));
        assert(flag_text(tasks[k].done) == seq!['1'] <==> tasks[k].done) by {
            assert(flag_text(false)[0] == '0');
        }
    }
}

} // verus!
