//! The task store: an ordered sequence of tasks, viewed folder by folder.
//!
//! A folder is a plain string tag. The rows of a folder are the tasks that
//! carry its name, in store order; `matching` maps a row to its position in
//! the store and every view, selection and deletion goes through it.

use vstd::prelude::*;
use crate::stamp::Timestamp;
use crate::text::{chars_of, eq_ignore_ascii_case, same_chars, same_ignoring_ascii_case};

verus! {

/// One entry of the list.
#[derive(Clone, Debug, PartialEq)]
pub struct Task {
    pub text: String,
    pub done: bool,
    pub folder: String,
    pub created_at: Timestamp,
}

/// A task with its strings as sequences of characters.
pub ghost struct TaskView {
    pub text: Seq<char>,
    pub done: bool,
    pub folder: Seq<char>,
    pub created_at: Timestamp,
}

impl View for Task {
    type V = TaskView;

    open spec fn view(&self) -> TaskView {
        TaskView {
            text: self.text@,
            done: self.done,
            folder: self.folder@,
            created_at: self.created_at,
        }
    }
}

/// The views of the tasks of a store, in order.
pub open spec fn views(tasks: Seq<Task>) -> Seq<TaskView> {
    tasks.map_values(|t: Task| t@)
}

/// The store positions of the tasks in `folder`, in store order.
pub open spec fn matching(tasks: Seq<TaskView>, folder: Seq<char>) -> Seq<usize>
    decreases tasks.len(),
{
    if tasks.len() == 0 {
        Seq::empty()
    } else if tasks.last().folder == folder {
        matching(tasks.drop_last(), folder).push((tasks.len() - 1) as usize)
    } else {
        matching(tasks.drop_last(), folder)
    }
}

/// The tasks of `tasks` whose folder is not `name`, letter case of ASCII
/// letters set aside, in order.
pub open spec fn without_folder(tasks: Seq<TaskView>, name: Seq<char>) -> Seq<TaskView>
    decreases tasks.len(),
{
    if tasks.len() == 0 {
        Seq::empty()
    } else if same_ignoring_ascii_case(tasks.last().folder, name) {
        without_folder(tasks.drop_last(), name)
    } else {
        without_folder(tasks.drop_last(), name).push(tasks.last())
    }
}

/// `task` marked as done, all else unchanged.
pub open spec fn done_task(task: TaskView) -> TaskView {
    TaskView { text: task.text, done: true, folder: task.folder, created_at: task.created_at }
}

/// A task that was just added: not done yet.
pub open spec fn new_task(text: Seq<char>, folder: Seq<char>, created_at: Timestamp) -> TaskView {
    TaskView { text: text, done: false, folder: folder, created_at: created_at }
}

/// The store positions of the tasks in `folder`, in store order.
pub fn filtered_indices(tasks: &Vec<Task>, folder: &str) -> (out: Vec<usize>)
    ensures
        out@ == matching(views(tasks@), folder@),
{
    let wanted = chars_of(folder);
    let mut out: Vec<usize> = Vec::new();
    let mut i: usize = 0;
    while i < tasks.len()
        invariant
            i <= tasks.len(),
            wanted@ == folder@,
            out@ == matching(views(tasks@).take(i as int), folder@),
        decreases tasks.len() - i,
    {
        let here = chars_of(tasks[i].folder.as_str());
        proof {
            let next = views(tasks@).take(i as int + 1);
            assert(next.drop_last() == views(tasks@).take(i as int));
            assert(next.last() == tasks@[i as int]@);
        }
        if same_chars(&here, &wanted) {
            out.push(i);
        }
        i += 1;
    }
    assert(views(tasks@).take(i as int) == views(tasks@));
    out
}

/// Appends a new task, not done yet, to the store.
pub fn add(tasks: &mut Vec<Task>, text: String, folder: String, created_at: Timestamp)
    ensures
        views(final(tasks)@) == views(old(tasks)@).push(new_task(text@, folder@, created_at)),
{
    tasks.push(Task { text, done: false, folder, created_at });
    assert(views(tasks@) =~= views(old(tasks)@).push(new_task(text@, folder@, created_at)));
}

/// Marks the task at store position `index` as done. A position past the
/// end changes nothing.
pub fn mark_done(tasks: &mut Vec<Task>, index: usize) -> (changed: bool)
    ensures
        changed == (index < old(tasks)@.len()),
        changed ==> views(final(tasks)@) == views(old(tasks)@).update(
            index as int,
            done_task(old(tasks)@[index as int]@),
        ),
        !changed ==> views(final(tasks)@) == views(old(tasks)@),
{
    if index < tasks.len() {
        tasks[index].done = true;
        assert(views(tasks@) =~= views(old(tasks)@).update(
            index as int,
            done_task(old(tasks)@[index as int]@),
        ));
        true
    } else {
        false
    }
}

/// Removes the task that stands at the 1-based `rank` among the tasks of
/// `folder`. A rank that no task of the folder has changes nothing.
pub fn delete_by_folder_rank(tasks: &mut Vec<Task>, folder: &str, rank: usize) -> (removed: bool)
    ensures
        removed == (1 <= rank <= matching(views(old(tasks)@), folder@).len()),
        removed ==> views(final(tasks)@) == views(old(tasks)@).remove(
            matching(views(old(tasks)@), folder@)[rank - 1] as int,
        ),
        !removed ==> views(final(tasks)@) == views(old(tasks)@),
{
    let rows = filtered_indices(tasks, folder);
    if 1 <= rank && rank <= rows.len() {
        proof {
            lemma_matching_positions(views(tasks@), folder@);
        }
        let at = rows[rank - 1];
        tasks.remove(at);
        assert(views(tasks@) =~= views(old(tasks)@).remove(at as int));
        true
    } else {
        false
    }
}

/// Removes every task whose folder is `name`, letter case of ASCII letters
/// set aside, and returns how many were removed.
pub fn delete_folder(tasks: &mut Vec<Task>, name: &str) -> (removed: usize)
    ensures
        views(final(tasks)@) == without_folder(views(old(tasks)@), name@),
        removed == old(tasks)@.len() - final(tasks)@.len(),
{
    let wanted = chars_of(name);
    let ghost before = views(tasks@);
    let total = tasks.len();
    let mut removed: usize = 0;
    let mut i: usize = 0;
    while i < tasks.len()
        invariant
            wanted@ == name@,
            i <= tasks.len(),
            removed + tasks.len() == before.len(),
            before.len() == total,
            views(tasks@).take(i as int) == without_folder(before.take(i + removed), name@),
            views(tasks@).skip(i as int) == before.skip(i + removed),
        decreases tasks.len() - i,
    {
        let here = chars_of(tasks[i].folder.as_str());
        let ghost held = views(tasks@);
        proof {
            let seen = before.take(i + removed + 1);
            assert(seen.drop_last() == before.take(i + removed));
            assert(before.skip(i + removed)[0] == before[i + removed]);
            assert(held.skip(i as int)[0] == held[i as int]);
            assert(seen.last() == tasks@[i as int]@);
        }
        if eq_ignore_ascii_case(&here, &wanted) {
            tasks.remove(i);
            removed += 1;
            assert(views(tasks@) =~= held.remove(i as int));
            assert(views(tasks@).take(i as int) == held.take(i as int));
            assert(views(tasks@).skip(i as int) == held.skip(i as int).skip(1));
            assert(before.skip(i + removed) == before.skip(i + removed - 1).skip(1));
        } else {
            assert(held.take(i + 1) == held.take(i as int).push(held[i as int]));
            assert(held.skip(i + 1) == held.skip(i as int).skip(1));
            assert(before.skip(i + removed + 1) == before.skip(i + removed).skip(1));
            i += 1;
        }
    }
    assert(views(tasks@).take(i as int) == views(tasks@));
    assert(before.take(i + removed) == before);
    removed
}

/// Every entry of `matching` is a position of the store.
pub proof fn lemma_matching_positions(tasks: Seq<TaskView>, folder: Seq<char>)
    ensures
        forall|k: int|
            0 <= k < matching(tasks, folder).len() ==> (#[trigger] matching(tasks, folder)[k])
                < tasks.len(),
    decreases tasks.len(),
{
    if tasks.len() > 0 {
        lemma_matching_positions(tasks.drop_last(), folder);
        let rest = matching(tasks.drop_last(), folder);
        assert forall|k: int| 0 <= k < matching(tasks, folder).len() implies (#[trigger] matching(
            tasks,
            folder,
        )[k]) < tasks.len() by {
            if k < rest.len() {
                assert(matching(tasks, folder)[k] == rest[k]);
            }
        }
    }
}

/// The rows of a folder are exactly the positions of its tasks, and they
/// come in store order: every row is the position of a task of the folder,
/// the rows rise strictly, and the position of every task of the folder is
/// among them.
pub proof fn law_rows_are_the_folder(tasks: Seq<TaskView>, folder: Seq<char>)
    requires
        tasks.len() <= usize::MAX,
    ensures
        forall|k: int|
            0 <= k < matching(tasks, folder).len() ==> {
                &&& (#[trigger] matching(tasks, folder)[k]) < tasks.len()
                &&& tasks[matching(tasks, folder)[k] as int].folder == folder
            },
        forall|j: int, k: int|
            0 <= j < k < matching(tasks, folder).len() ==> (#[trigger] matching(tasks, folder)[j])
                < (#[trigger] matching(tasks, folder)[k]),
        forall|i: int|
            0 <= i < tasks.len() && (#[trigger] tasks[i]).folder == folder ==> matching(
                tasks,
                folder,
            ).contains(i as usize),
    decreases tasks.len(),
{
    if tasks.len() > 0 {
        let front = tasks.drop_last();
        let rest = matching(front, folder);
        let rows = matching(tasks, folder);
        let last = (tasks.len() - 1) as usize;
        law_rows_are_the_folder(front, folder);
        assert forall|k: int| 0 <= k < rows.len() implies {
            &&& (#[trigger] rows[k]) < tasks.len()
            &&& tasks[rows[k] as int].folder == folder
        } by {
            if k < rest.len() {
                assert(rows[k] == rest[k]);
                assert(front[rest[k] as int] == tasks[rest[k] as int]);
            }
        }
        assert forall|j: int, k: int| 0 <= j < k < rows.len() implies (#[trigger] rows[j]) < (
        #[trigger] rows[k]) by {
            assert(rows[j] == rest[j]);
            if k < rest.len() {
                assert(rows[k] == rest[k]);
            }
        }
        assert forall|i: int| 0 <= i < tasks.len() && (#[trigger] tasks[i]).folder
            == folder implies rows.contains(i as usize) by {
            if i < front.len() {
                assert(front[i] == tasks[i]);
                let k = choose|k: int| 0 <= k < rest.len() && rest[k] == i as usize;
                assert(rows[k] == i as usize);
            } else {
                assert(rows[rows.len() - 1] == last);
            }
        }
    }
}

/// Deleting a folder removes every task that carries its name, letter case
/// of ASCII letters set aside, and no other: no task that remains carries
/// the name, every task that remains was in the store, and every task of
/// the store that does not carry the name remains.
pub proof fn law_delete_folder(tasks: Seq<TaskView>, name: Seq<char>)
    ensures
        forall|k: int|
            0 <= k < without_folder(tasks, name).len() ==> {
                &&& !same_ignoring_ascii_case(
                    (#[trigger] without_folder(tasks, name)[k]).folder,
                    name,
                )
                &&& tasks.contains(without_folder(tasks, name)[k])
            },
        forall|i: int|
            0 <= i < tasks.len() && !same_ignoring_ascii_case((#[trigger] tasks[i]).folder, name)
                ==> without_folder(tasks, name).contains(tasks[i]),
        without_folder(tasks, name).len() <= tasks.len(),
    decreases tasks.len(),
{
    if tasks.len() > 0 {
        let front = tasks.drop_last();
        let rest = without_folder(front, name);
        let kept = without_folder(tasks, name);
        law_delete_folder(front, name);
        assert forall|k: int| 0 <= k < kept.len() implies {
            &&& !same_ignoring_ascii_case((#[trigger] kept[k]).folder, name)
            &&& tasks.contains(kept[k])
        } by {
            if k < rest.len() {
                assert(kept[k] == rest[k]);
                let i = choose|i: int| 0 <= i < front.len() && front[i] == rest[k];
                assert(tasks[i] == kept[k]);
            } else {
                assert(kept[k] == tasks[tasks.len() - 1]);
            }
        }
        assert forall|i: int|
            0 <= i < tasks.len() && !same_ignoring_ascii_case(
                (#[trigger] tasks[i]).folder,
                name,
            ) implies kept.contains(tasks[i]) by {
            if i < front.len() {
                assert(front[i] == tasks[i]);
                let k = choose|k: int| 0 <= k < rest.len() && rest[k] == front[i];
                assert(kept[k] == tasks[i]);
            } else {
                assert(kept[kept.len() - 1] == tasks[i]);
            }
        }
    }
}

/// Deleting a folder leaves the store as long as it was exactly where no
/// task carries the name.
pub proof fn lemma_delete_folder_count(tasks: Seq<TaskView>, name: Seq<char>)
    ensures
        without_folder(tasks, name).len() <= tasks.len(),
        without_folder(tasks, name).len() != tasks.len() <==> exists|i: int|
            0 <= i < tasks.len() && same_ignoring_ascii_case((#[trigger] tasks[i]).folder, name),
    decreases tasks.len(),
{
    if tasks.len() > 0 {
        let front = tasks.drop_last();
        lemma_delete_folder_count(front, name);
        if same_ignoring_ascii_case(tasks.last().folder, name) {
            assert(same_ignoring_ascii_case(tasks[tasks.len() - 1].folder, name));
        } else if without_folder(front, name).len() != front.len() {
            let i = choose|i: int|
                0 <= i < front.len() && same_ignoring_ascii_case((#[trigger] front[i]).folder, name);
            assert(same_ignoring_ascii_case(tasks[i].folder, name));
        } else {
            assert forall|i: int| 0 <= i < tasks.len() implies !same_ignoring_ascii_case(
                (#[trigger] tasks[i]).folder,
                name,
            ) by {
                if i < front.len() {
                    assert(front[i] == tasks[i]);
                }
            }
        }
    }
}

/// The tasks that a folder shows, row by row.
pub open spec fn folder_rows(tasks: Seq<TaskView>, folder: Seq<char>) -> Seq<TaskView> {
    matching(tasks, folder).map_values(|at: usize| tasks[at as int])
}

/// A task put at the end of the store is the new last row of its folder,
/// and no row of any other folder.
proof fn lemma_rows_push(tasks: Seq<TaskView>, task: TaskView, folder: Seq<char>)
    requires
        tasks.len() < usize::MAX,
    ensures
        folder_rows(tasks.push(task), folder) == if task.folder == folder {
            folder_rows(tasks, folder).push(task)
        } else {
            folder_rows(tasks, folder)
        },
{
    let longer = tasks.push(task);
    assert(longer.drop_last() == tasks);
    lemma_matching_positions(tasks, folder);
    let rows = matching(tasks, folder);
    assert forall|k: int| 0 <= k < rows.len() implies longer[rows[k] as int] == tasks[rows[
        k
    ] as int] by {
        assert(rows[k] < tasks.len());
    }
    if task.folder == folder {
        assert(folder_rows(longer, folder) =~= folder_rows(tasks, folder).push(task));
    } else {
        assert(folder_rows(longer, folder) =~= folder_rows(tasks, folder));
    }
}

/// Deleting by rank takes exactly one row out of the folder and touches no
/// other folder: the folder shows the tasks it showed before without the
/// one at that rank, in the same order, and every other folder shows what
/// it showed before.
pub proof fn law_delete_by_rank(
    tasks: Seq<TaskView>,
    folder: Seq<char>,
    rank: int,
    other: Seq<char>,
)
    requires
        tasks.len() <= usize::MAX,
        1 <= rank <= matching(tasks, folder).len(),
    ensures
        0 <= matching(tasks, folder)[rank - 1] < tasks.len(),
        folder_rows(tasks.remove(matching(tasks, folder)[rank - 1] as int), folder) == folder_rows(
            tasks,
            folder,
        ).remove(rank - 1),
        other != folder ==> folder_rows(
            tasks.remove(matching(tasks, folder)[rank - 1] as int),
            other,
        ) == folder_rows(tasks, other),
    decreases tasks.len(),
{
    let rows = matching(tasks, folder);
    let at = rows[rank - 1] as int;
    let front = tasks.drop_last();
    let last = tasks.last();
    lemma_matching_positions(tasks, folder);
    assert(tasks == front.push(last));
    lemma_rows_push(front, last, folder);
    lemma_rows_push(front, last, other);
    if at == tasks.len() - 1 {
        assert(tasks.remove(at) == front);
        assert(last.folder == folder) by {
            law_rows_are_the_folder(tasks, folder);
        }
        assert(rank == rows.len()) by {
            law_rows_are_the_folder(tasks, folder);
            if rank < rows.len() {
                assert(rows[rank - 1] < rows[rows.len() - 1]);
            }
        }
        assert(folder_rows(tasks, folder).remove(rank - 1) == folder_rows(front, folder));
    } else {
        assert(rank <= matching(front, folder).len() && matching(front, folder)[rank - 1]
            == rows[rank - 1]) by {
            if last.folder == folder {
                if rank == rows.len() {
                    assert(rows[rank - 1] == (tasks.len() - 1) as usize);
                }
            }
        }
        law_delete_by_rank(front, folder, rank, other);
        let shorter = front.remove(at);
        assert(tasks.remove(at) == shorter.push(last));
        lemma_rows_push(shorter, last, folder);
        lemma_rows_push(shorter, last, other);
        if last.folder == folder {
            assert(folder_rows(front, folder).push(last).remove(rank - 1) == folder_rows(
                front,
                folder,
            ).remove(rank - 1).push(last));
        }
    }
}

/// Marking a task as done changes the rows of no folder.
pub proof fn lemma_rows_after_done(tasks: Seq<TaskView>, index: int, folder: Seq<char>)
    requires
        0 <= index < tasks.len(),
    ensures
        matching(tasks.update(index, done_task(tasks[index])), folder) == matching(tasks, folder),
    decreases tasks.len(),
{
    let after = tasks.update(index, done_task(tasks[index]));
    if index < tasks.len() - 1 {
        assert(after.drop_last() == tasks.drop_last().update(index, done_task(tasks[index])));
        lemma_rows_after_done(tasks.drop_last(), index, folder);
    } else {
        assert(after.drop_last() == tasks.drop_last());
    }
}

} // verus!
