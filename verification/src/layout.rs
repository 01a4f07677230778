//! The layout renderer: composes the whole frame, row by row, on every call.
//!
//! From top to bottom the frame holds the title bar, the summary line, the
//! folder name, the column header, the task table of seven rows, the line
//! that says which rows are shown, two lines that depend on the mode, the
//! tip line, and the borders and rules around them.

use vstd::prelude::*;
use crate::display::{
    in_escape, is_plain, is_style, lemma_plain, lemma_style, lemma_visible_concat, row_of,
    row_text, truncate_chars, truncated, visible_len, BORDER_COLOR, FRAME_WIDTH, RESET,
    TABLE_WIDTH,
};
use crate::mode::{InputKind, Mode, ModeView};
use crate::stamp::Timestamp;
use crate::store::{filtered_indices, lemma_matching_positions, matching, views, Task, TaskView};
use crate::text::{
    chars_of, decimal, decimal_chars, pad_left, pad_right, push_chars, push_padded_left,
    push_padded_right, push_repeated, push_str, repeated, string_of,
};

verus! {

/// Style code of labels.
pub const ACCENT: &'static str = "\x1b[38;5;219m";

/// Style code of a task that is still to do.
pub const TODO_COLOR: &'static str = "\x1b[38;5;153m";

/// Style code of a task that is done.
pub const DONE_COLOR: &'static str = "\x1b[38;5;151m";

/// Style code of the date column.
pub const DATE_COLOR: &'static str = "\x1b[38;5;223m";

/// Style code of a folder name.
pub const FOLDER_COLOR: &'static str = "\x1b[38;5;212m";

/// Style code of the tip line.
pub const TIP_TEXT: &'static str = "\x1b[38;5;251m";

/// Style code of the background of the title bar.
pub const HEADER_BG_INVERT: &'static str = "\x1b[48;5;60m";

/// Style code of the letters of the title bar.
pub const HEADER_FG_INVERT: &'static str = "\x1b[38;5;218m";

/// Style code of bold letters.
pub const BOLD: &'static str = "\x1b[1m";

/// Style code of italic letters.
pub const ITALIC: &'static str = "\x1b[3m";

/// Style code of dim letters.
pub const DIM: &'static str = "\x1b[2m";

/// Style code of numbers and key names.
pub const VALUE_COLOR: &'static str = "\x1b[38;5;159m";

/// Style code of the line that says which rows are shown.
pub const SUMMARY_COLOR: &'static str = "\x1b[38;5;183m";

/// Style code of the pointer at the selected row.
pub const POINTER_COLOR: &'static str = "\x1b[38;5;218m";

/// Label of the title bar.
pub const TITLE: &'static str = " PASTEL TODO ";

/// Width of the task column of the table.
pub const TASK_COLUMN_WIDTH: usize = 36;

/// Number of rows of the task table.
pub const MAX_VISIBLE_TASKS: usize = 7;

/// Number of rows of a frame, from the top border to the bottom border. The
/// frame is drawn from the top of a cleared terminal, which has at least
/// `MIN_HEIGHT` rows.
pub const FRAME_ROWS: usize = 22;

/// Least number of columns of a terminal that the frame fits in.
pub const MIN_WIDTH: u16 = 60;

/// Least number of rows of a terminal that the frame fits in.
pub const MIN_HEIGHT: u16 = 30;

/// Seconds after which the tip changes.
pub const TIP_PERIOD: i64 = 15;

/// Number of tips.
pub const TIP_COUNT: usize = 3;

/// Multiplier of the hash that picks the tip.
pub const TIP_MULTIPLIER: u64 = 6_364_136_223_846_793_005;

/// First row of the folder that the table shows, for a folder of `count`
/// rows. With a selection the window ends at the selected row where that row
/// lies past the seventh; without one it shows the end of the folder. A
/// window that would reach past the end of a folder longer than the table is
/// moved back until it ends with the folder.
pub open spec fn window_start(count: nat, selected: Option<nat>) -> nat {
    match selected {
        Some(sel) => {
            let start = if sel + 1 > MAX_VISIBLE_TASKS {
                (sel + 1 - MAX_VISIBLE_TASKS) as nat
            } else {
                0
            };
            if count > MAX_VISIBLE_TASKS && start + MAX_VISIBLE_TASKS > count {
                (count - MAX_VISIBLE_TASKS) as nat
            } else {
                start
            }
        },
        None => if count > MAX_VISIBLE_TASKS {
            (count - MAX_VISIBLE_TASKS) as nat
        } else {
            0
        },
    }
}

/// Number of rows of the folder that the table shows from `start` on.
pub open spec fn window_rows(count: nat, start: nat) -> nat {
    if start >= count {
        0
    } else if count - start > MAX_VISIBLE_TASKS {
        MAX_VISIBLE_TASKS as nat
    } else {
        (count - start) as nat
    }
}

/// The selection as the specifications take it.
pub open spec fn selection(selected: Option<usize>) -> Option<nat> {
    match selected {
        Some(sel) => Some(sel as nat),
        None => None,
    }
}

/// First row of the folder that the table shows.
pub fn scroll_start(count: usize, selected: Option<usize>) -> (start: usize)
    ensures
        start == window_start(count as nat, selection(selected)),
        count >= MAX_VISIBLE_TASKS && (selected matches Some(sel) ==> sel < count) ==> start
            + MAX_VISIBLE_TASKS <= count,
        count <= MAX_VISIBLE_TASKS && (selected matches Some(sel) ==> sel < count) ==> start == 0,
        selected matches Some(sel) ==> (sel < count ==> start <= sel < start + MAX_VISIBLE_TASKS),
{
    match selected {
        Some(sel) => {
            let start: usize = if sel >= MAX_VISIBLE_TASKS {
                sel - (MAX_VISIBLE_TASKS - 1)
            } else {
                0
            };
            if count > MAX_VISIBLE_TASKS && start > count - MAX_VISIBLE_TASKS {
                count - MAX_VISIBLE_TASKS
            } else {
                start
            }
        },
        None => if count > MAX_VISIBLE_TASKS {
            count - MAX_VISIBLE_TASKS
        } else {
            0
        },
    }
}

/// The window of the table always holds the selected row and never reaches
/// past the end of a folder that fills it: for a selection that is a row of
/// the folder, the selected row lies within the seven rows from the start
/// of the window on; a folder of seven rows or more fills the window, and a
/// shorter one is shown from its first row.
pub proof fn law_scroll_window(count: nat, selected: Option<nat>)
    requires
        selected matches Some(sel) ==> sel < count,
    ensures
        selected matches Some(sel) ==> window_start(count, selected) <= sel < window_start(
            count,
            selected,
        ) + MAX_VISIBLE_TASKS,
        count >= MAX_VISIBLE_TASKS ==> window_start(count, selected) + MAX_VISIBLE_TASKS <= count,
        count >= MAX_VISIBLE_TASKS ==> window_rows(count, window_start(count, selected))
            == MAX_VISIBLE_TASKS,
        count < MAX_VISIBLE_TASKS ==> window_start(count, selected) == 0 && window_rows(count, 0)
            == count,
{
}

/// The time bucket of the instant `now_secs`: it changes every fifteen
/// seconds, and every instant before the epoch falls into bucket 0.
pub open spec fn tip_tick(now_secs: i64) -> u64 {
    if now_secs < 0 {
        0
    } else {
        (now_secs / TIP_PERIOD) as u64
    }
}

/// The hash of a time bucket: the bucket times the multiplier, wrapped to 64
/// bits and rotated left by 7 bits.
pub open spec fn tip_hash(tick: u64) -> u64 {
    let product = ((tick as int * TIP_MULTIPLIER as int) % 0x1_0000_0000_0000_0000) as u64;
    (product << 7) | (product >> 57)
}

/// The index of the tip shown at the instant `now_secs`.
pub open spec fn tip_choice(now_secs: i64) -> nat {
    (tip_hash(tip_tick(now_secs)) % (TIP_COUNT as u64)) as nat
}

/// The index of the tip shown at the instant `now_secs`: a function of the
/// time bucket alone.
pub fn tip_index(now_secs: i64) -> (index: usize)
    ensures
        index == tip_choice(now_secs),
        index < TIP_COUNT,
{
    let tick: u64 = if now_secs < 0 { 0 } else { (now_secs / TIP_PERIOD) as u64 };
    let product: u64 = tick.wrapping_mul(TIP_MULTIPLIER);
    let hash: u64 = (product << 7) | (product >> 57);
    (hash % (TIP_COUNT as u64)) as usize
}

/// Whether a terminal of `cols` columns and `rows` rows is large enough for
/// the frame.
pub fn terminal_fits(cols: u16, rows: u16) -> (fits: bool)
    ensures
        fits == (cols >= MIN_WIDTH && rows >= MIN_HEIGHT),
{
    cols >= MIN_WIDTH && rows >= MIN_HEIGHT
}

/// The message for a terminal that is too small: the size that is needed
/// and the size that was found, in red.
pub open spec fn size_error_text(cols: u16, rows: u16) -> Seq<char> {
    "\x1b[31mError: Terminal must be at least "@ + decimal(MIN_WIDTH as nat) + "x"@ + decimal(
        MIN_HEIGHT as nat,
    ) + " (current: "@ + decimal(cols as nat) + "x"@ + decimal(rows as nat) + ")"@ + RESET@
}

/// The message for a terminal of `cols` columns and `rows` rows that is too
/// small.
pub fn size_error(cols: u16, rows: u16) -> (message: String)
    ensures
        message@ == size_error_text(cols, rows),
{
    let mut buf = chars_of("\x1b[31mError: Terminal must be at least ");
    push_chars(&mut buf, &decimal_chars(MIN_WIDTH as usize));
    push_str(&mut buf, "x");
    push_chars(&mut buf, &decimal_chars(MIN_HEIGHT as usize));
    push_str(&mut buf, " (current: ");
    push_chars(&mut buf, &decimal_chars(cols as usize));
    push_str(&mut buf, "x");
    push_chars(&mut buf, &decimal_chars(rows as usize));
    push_str(&mut buf, ")");
    push_str(&mut buf, RESET);
    string_of(&buf)
}

/// `label` with spaces on both sides so that it stands in the middle of
/// `width` columns; where the spaces cannot be shared evenly the odd one
/// stands on the right.
pub open spec fn centered(label: Seq<char>, width: nat) -> Seq<char> {
    if label.len() >= width {
        label
    } else {
        let left = ((width - label.len()) / 2) as nat;
        repeated(' ', left) + label + repeated(' ', (width - label.len() - left) as nat)
    }
}

/// A horizontal line of the frame between the corner or joint pieces `left`
/// and `right`, in the colour of the border.
pub open spec fn rule_text(left: Seq<char>, right: Seq<char>) -> Seq<char> {
    BORDER_COLOR@ + left + repeated('─', TABLE_WIDTH as nat) + right + RESET@
}

/// The content of the title bar: the label centred in a bar of inverted
/// colours that spans the row.
pub open spec fn title_content() -> Seq<char> {
    HEADER_BG_INVERT@ + HEADER_FG_INVERT@ + BOLD@ + centered(TITLE@, TABLE_WIDTH as nat) + RESET@
}

/// The content of the summary line: the number of tasks in the store, the
/// current folder and the number of tasks in it.
pub open spec fn summary_content(total: nat, folder: Seq<char>, count: nat) -> Seq<char> {
    ACCENT@ + "Total:"@ + RESET@ + " "@ + VALUE_COLOR@ + pad_right(decimal(total), 3) + RESET@
        + "  "@ + ACCENT@ + "Folder:"@ + RESET@ + " "@ + FOLDER_COLOR@ + folder + RESET@ + " ("@
        + VALUE_COLOR@ + decimal(count) + RESET@ + ")"@
}

/// The content of the line that restates the folder name.
pub open spec fn folder_content(folder: Seq<char>) -> Seq<char> {
    ACCENT@ + "Folder Name:"@ + RESET@ + " "@ + FOLDER_COLOR@ + folder + RESET@
}

/// The content of the column header.
pub open spec fn header_content() -> Seq<char> {
    ACCENT@ + " No.  ○  Task                                    Date"@ + RESET@
}

/// The content of the table row of `task`, which stands at row `order` of
/// its folder, counted from 0: the pointer, the row number from 1 in two
/// columns, the status, the text cut and padded to the task column, and the
/// date label.
pub open spec fn task_content(task: TaskView, order: nat, selected: bool) -> Seq<char> {
    (if selected {
        POINTER_COLOR@ + "›"@
    } else {
        BORDER_COLOR@ + "•"@
    }) + RESET@ + " "@ + VALUE_COLOR@ + pad_left(decimal(order + 1), 2) + RESET@ + ".  "@
        + (if task.done {
        DONE_COLOR@ + "✓"@
    } else {
        TODO_COLOR@ + "○"@
    }) + RESET@ + "  "@ + (if task.done {
        DONE_COLOR@
    } else {
        TODO_COLOR@
    }) + pad_right(truncated(task.text, TASK_COLUMN_WIDTH as nat), TASK_COLUMN_WIDTH as nat)
        + RESET@ + " "@ + DATE_COLOR@ + task.created_at.date_label_text() + RESET@
}

/// The row of the table at row `order` of the folder: the row of the task
/// that stands there, or a blank row past the end of the folder.
pub open spec fn slot_text(
    tasks: Seq<TaskView>,
    rows: Seq<usize>,
    order: nat,
    selected: Option<nat>,
) -> Seq<char> {
    if order < rows.len() {
        row_text(task_content(tasks[rows[order as int] as int], order, selected == Some(order)))
    } else {
        row_text(Seq::empty())
    }
}

/// The content of the line that says which rows of the folder are shown.
pub open spec fn showing_content(count: nat, start: nat) -> Seq<char> {
    if count == 0 {
        SUMMARY_COLOR@ + " Showing 0 tasks in this folder."@ + RESET@
    } else {
        SUMMARY_COLOR@ + " Showing "@ + decimal(start + 1) + "-"@ + decimal(
            start + window_rows(count, start),
        ) + " of "@ + decimal(count) + " tasks in this folder."@ + RESET@
    }
}

/// The content of an input line: the label, then the hint in dim letters
/// while nothing is typed, else what is typed, cut to the room left.
pub open spec fn input_content(label: Seq<char>, hint: Seq<char>, typed: Seq<char>) -> Seq<char> {
    if typed.len() == 0 {
        label + DIM@ + hint + RESET@
    } else {
        label + truncated(typed, (TABLE_WIDTH - label.len()) as nat)
    }
}

/// The content of the line that explains the keys of the navigate mode.
pub open spec fn navigate_content() -> Seq<char> {
    ACCENT@ + " navigate:"@ + RESET@ + " "@ + VALUE_COLOR@ + "↑/↓ move"@ + RESET@ + ", "@
        + VALUE_COLOR@ + "d marks done"@ + RESET@ + ", "@ + VALUE_COLOR@ + "Esc exits"@ + RESET@
}

/// The label that an input line starts with.
pub open spec fn input_label(kind: InputKind) -> Seq<char> {
    match kind {
        InputKind::Add => " add: "@,
        InputKind::Folder => " folder: "@,
        InputKind::Delete => " delete: "@,
    }
}

/// The hint that an input line shows while nothing is typed.
pub open spec fn input_hint(kind: InputKind) -> Seq<char> {
    match kind {
        InputKind::Add => "(describe the task, Enter to save)"@,
        InputKind::Folder => "(type folder name, Enter to switch)"@,
        InputKind::Delete => "(number or 'folder name')"@,
    }
}

/// The line that names the command an input line belongs to.
pub open spec fn command_echo(kind: InputKind) -> Seq<char> {
    match kind {
        InputKind::Add => " command: add"@,
        InputKind::Folder => " command: folder"@,
        InputKind::Delete => " command: delete"@,
    }
}

/// The content of the first of the two lines that depend on the mode.
pub open spec fn first_mode_content(mode: ModeView, cmd: Seq<char>) -> Seq<char> {
    match mode {
        ModeView::Command => input_content(
            " command: "@,
            "(type a command and press Enter)"@,
            cmd,
        ),
        ModeView::Input { kind, buffer } => command_echo(kind),
        ModeView::Navigate { selected } => navigate_content(),
    }
}

/// The content of the second of the two lines that depend on the mode.
pub open spec fn second_mode_content(mode: ModeView) -> Seq<char> {
    match mode {
        ModeView::Command => Seq::empty(),
        ModeView::Input { kind, buffer } => input_content(
            input_label(kind),
            input_hint(kind),
            buffer,
        ),
        ModeView::Navigate { selected } => Seq::empty(),
    }
}

/// The tip with the index `index`.
pub open spec fn tip_text(index: nat) -> Seq<char> {
    if index == 0 {
        "Tip: Tap add for a quick idea, folder to regroup, delete to tidy up."@
    } else if index == 1 {
        "Tip: Folder keeps contexts neat; add logs tasks; delete clears the clutter."@
    } else {
        "Tip: Need a reset? add captures, folder jumps, delete prunes."@
    }
}

/// The content of the tip line.
pub open spec fn tip_content(index: nat) -> Seq<char> {
    TIP_TEXT@ + DIM@ + ITALIC@ + tip_text(index) + RESET@
}

/// The row of the folder that counts as selected when the frame is drawn:
/// the selection of the navigate mode, held to the last row, where the
/// folder has a row at all.
pub open spec fn shown_selection(mode: ModeView, count: nat) -> Option<nat> {
    match mode {
        ModeView::Navigate { selected } => if count == 0 {
            None
        } else if selected < count {
            Some(selected)
        } else {
            Some((count - 1) as nat)
        },
        _ => None,
    }
}

/// The eight rows above the task table.
pub open spec fn head_text(total: nat, folder: Seq<char>, count: nat) -> Seq<Seq<char>> {
    seq![
        rule_text("╭"@, "╮"@),
        row_text(title_content()),
        rule_text("├"@, "┤"@),
        row_text(summary_content(total, folder, count)),
        row_text(folder_content(folder)),
        rule_text("├"@, "┤"@),
        row_text(header_content()),
        rule_text("├"@, "┤"@),
    ]
}

/// The seven rows of the task table, from row `start` of the folder on.
pub open spec fn table_text(
    tasks: Seq<TaskView>,
    rows: Seq<usize>,
    start: nat,
    selected: Option<nat>,
) -> Seq<Seq<char>> {
    Seq::new(
        MAX_VISIBLE_TASKS as nat,
        |k: int| slot_text(tasks, rows, (start + k) as nat, selected),
    )
}

/// The seven rows below the task table.
pub open spec fn foot_text(
    count: nat,
    start: nat,
    mode: ModeView,
    cmd: Seq<char>,
    tip: nat,
) -> Seq<Seq<char>> {
    seq![
        rule_text("├"@, "┤"@),
        row_text(showing_content(count, start)),
        rule_text("├"@, "┤"@),
        row_text(first_mode_content(mode, cmd)),
        row_text(second_mode_content(mode)),
        row_text(tip_content(tip)),
        rule_text("╰"@, "╯"@),
    ]
}

/// The frame drawn for a store, a current folder, a mode and a command
/// buffer at the instant `now_secs`, as its rows from top to bottom.
pub open spec fn frame_text(
    tasks: Seq<TaskView>,
    folder: Seq<char>,
    mode: ModeView,
    cmd: Seq<char>,
    now_secs: i64,
) -> Seq<Seq<char>> {
    let rows = matching(tasks, folder);
    let selected = shown_selection(mode, rows.len());
    let start = window_start(rows.len(), selected);
    head_text(tasks.len(), folder, rows.len()) + table_text(tasks, rows, start, selected)
        + foot_text(rows.len(), start, mode, cmd, tip_choice(now_secs))
}

/// Whether every row takes up exactly the width of the frame.
pub open spec fn is_full_width(rows: Seq<Seq<char>>) -> bool {
    forall|i: int| 0 <= i < rows.len() ==> visible_len(#[trigger] rows[i]) == FRAME_WIDTH
}

/// Whether no text that the user has given holds an escape character: the
/// texts of the tasks, the current folder, the command buffer and the text
/// of an input line.
pub open spec fn is_plain_input(
    tasks: Seq<TaskView>,
    folder: Seq<char>,
    mode: ModeView,
    cmd: Seq<char>,
) -> bool {
    &&& forall|i: int| 0 <= i < tasks.len() ==> is_plain((#[trigger] tasks[i]).text)
    &&& is_plain(folder)
    &&& is_plain(cmd)
    &&& (mode matches ModeView::Input { kind, buffer } ==> is_plain(buffer))
}

/// The texts of a sequence of strings.
pub open spec fn texts(rows: Seq<String>) -> Seq<Seq<char>> {
    rows.map_values(|row: String| row@)
}

/// Every style code of the frame is an escape sequence and nothing else.
proof fn lemma_codes()
    ensures
        is_style(RESET@),
        is_style(BORDER_COLOR@),
        is_style(ACCENT@),
        is_style(TODO_COLOR@),
        is_style(DONE_COLOR@),
        is_style(DATE_COLOR@),
        is_style(FOLDER_COLOR@),
        is_style(TIP_TEXT@),
        is_style(HEADER_BG_INVERT@),
        is_style(HEADER_FG_INVERT@),
        is_style(BOLD@),
        is_style(ITALIC@),
        is_style(DIM@),
        is_style(VALUE_COLOR@),
        is_style(SUMMARY_COLOR@),
        is_style(POINTER_COLOR@),
{
    reveal_strlit("\x1b[0m");
    reveal_strlit("\x1b[38;5;225m");
    reveal_strlit("\x1b[38;5;219m");
    reveal_strlit("\x1b[38;5;153m");
    reveal_strlit("\x1b[38;5;151m");
    reveal_strlit("\x1b[38;5;223m");
    reveal_strlit("\x1b[38;5;212m");
    reveal_strlit("\x1b[38;5;251m");
    reveal_strlit("\x1b[48;5;60m");
    reveal_strlit("\x1b[38;5;218m");
    reveal_strlit("\x1b[1m");
    reveal_strlit("\x1b[3m");
    reveal_strlit("\x1b[2m");
    reveal_strlit("\x1b[38;5;159m");
    reveal_strlit("\x1b[38;5;183m");
}

/// A numeral holds no escape character.
proof fn lemma_decimal_plain(n: nat)
    ensures
        is_plain(decimal(n)),
    decreases n,
{
    if n >= 10 {
        lemma_decimal_plain(n / 10);
    }
}

/// Starts a content with a style code.
fn start_code(code: &str) -> (buf: Vec<char>)
    requires
        is_style(code@),
    ensures
        buf@ == code@,
        !in_escape(buf@),
{
    proof {
        lemma_style(code@);
    }
    chars_of(code)
}

/// Starts a content with a text.
fn start_text(text: &str) -> (buf: Vec<char>)
    ensures
        buf@ == text@,
        is_plain(text@) ==> !in_escape(buf@),
{
    proof {
        if is_plain(text@) {
            lemma_plain(text@);
        }
    }
    chars_of(text)
}

/// Appends a style code to a content.
fn put_code(buf: &mut Vec<char>, code: &str)
    requires
        is_style(code@),
    ensures
        final(buf)@ == old(buf)@ + code@,
        !in_escape(old(buf)@) ==> !in_escape(final(buf)@),
{
    proof {
        if !in_escape(buf@) {
            lemma_style(code@);
            lemma_visible_concat(buf@, code@);
        }
    }
    push_str(buf, code);
}

/// Appends a text to a content.
fn put_text(buf: &mut Vec<char>, text: &str)
    ensures
        final(buf)@ == old(buf)@ + text@,
        !in_escape(old(buf)@) && is_plain(text@) ==> !in_escape(final(buf)@),
{
    proof {
        if !in_escape(buf@) && is_plain(text@) {
            lemma_plain(text@);
            lemma_visible_concat(buf@, text@);
        }
    }
    push_str(buf, text);
}

/// Appends characters to a content.
fn put_chars(buf: &mut Vec<char>, tail: &Vec<char>)
    ensures
        final(buf)@ == old(buf)@ + tail@,
        !in_escape(old(buf)@) && is_plain(tail@) ==> !in_escape(final(buf)@),
{
    proof {
        if !in_escape(buf@) && is_plain(tail@) {
            lemma_plain(tail@);
            lemma_visible_concat(buf@, tail@);
        }
    }
    push_chars(buf, tail);
}

/// Appends characters to a content, with spaces before them up to `width`.
fn put_padded_left(buf: &mut Vec<char>, tail: &Vec<char>, width: usize)
    ensures
        final(buf)@ == old(buf)@ + pad_left(tail@, width as nat),
        !in_escape(old(buf)@) && is_plain(tail@) ==> !in_escape(final(buf)@),
{
    proof {
        if !in_escape(buf@) && is_plain(tail@) {
            lemma_plain(pad_left(tail@, width as nat));
            lemma_visible_concat(buf@, pad_left(tail@, width as nat));
        }
    }
    push_padded_left(buf, tail, width);
}

/// Appends characters to a content, with spaces after them up to `width`.
fn put_padded_right(buf: &mut Vec<char>, tail: &Vec<char>, width: usize)
    ensures
        final(buf)@ == old(buf)@ + pad_right(tail@, width as nat),
        !in_escape(old(buf)@) && is_plain(tail@) ==> !in_escape(final(buf)@),
{
    proof {
        if !in_escape(buf@) && is_plain(tail@) {
            lemma_plain(pad_right(tail@, width as nat));
            lemma_visible_concat(buf@, pad_right(tail@, width as nat));
        }
    }
    push_padded_right(buf, tail, width);
}

/// The numeral of `n`, which holds no escape character.
fn numeral(n: usize) -> (out: Vec<char>)
    ensures
        out@ == decimal(n as nat),
        is_plain(out@),
{
    proof {
        lemma_decimal_plain(n as nat);
    }
    decimal_chars(n)
}

/// Appends a row to a frame under construction.
fn push_row(frame: &mut Vec<String>, row: String)
    ensures
        texts(final(frame)@) == texts(old(frame)@).push(row@),
        is_full_width(texts(old(frame)@)) && visible_len(row@) == FRAME_WIDTH ==> is_full_width(
            texts(final(frame)@),
        ),
{
    frame.push(row);
    assert(texts(frame@) =~= texts(old(frame)@).push(row@));
}

/// Renders a horizontal line of the frame.
fn rule_row(left: &str, right: &str) -> (row: String)
    ensures
        row@ == rule_text(left@, right@),
        is_plain(left@) && left@.len() == 1 && is_plain(right@) && right@.len() == 1
            ==> visible_len(row@) == FRAME_WIDTH,
{
    let mut buf = chars_of(BORDER_COLOR);
    push_str(&mut buf, left);
    push_repeated(&mut buf, '─', TABLE_WIDTH);
    push_str(&mut buf, right);
    push_str(&mut buf, RESET);
    proof {
        if is_plain(left@) && left@.len() == 1 && is_plain(right@) && right@.len() == 1 {
            let line = repeated('─', TABLE_WIDTH as nat);
            lemma_codes();
            lemma_style(BORDER_COLOR@);
            lemma_style(RESET@);
            lemma_plain(left@);
            lemma_plain(line);
            lemma_plain(right@);
            lemma_visible_concat(BORDER_COLOR@, left@);
            lemma_visible_concat(BORDER_COLOR@ + left@, line);
            lemma_visible_concat(BORDER_COLOR@ + left@ + line, right@);
            lemma_visible_concat(BORDER_COLOR@ + left@ + line + right@, RESET@);
        }
    }
    string_of(&buf)
}

/// Renders the title bar.
fn title_row() -> (row: String)
    ensures
        row@ == row_text(title_content()),
        visible_len(row@) == FRAME_WIDTH,
{
    proof {
        lemma_codes();
        reveal_strlit(" PASTEL TODO ");
    }
    let label = chars_of(TITLE);
    let mut buf = start_code(HEADER_BG_INVERT);
    put_code(&mut buf, HEADER_FG_INVERT);
    put_code(&mut buf, BOLD);
    if label.len() >= TABLE_WIDTH {
        put_chars(&mut buf, &label);
    } else {
        let left: usize = (TABLE_WIDTH - label.len()) / 2;
        let right: usize = TABLE_WIDTH - label.len() - left;
        let mut middle: Vec<char> = Vec::new();
        push_repeated(&mut middle, ' ', left);
        push_chars(&mut middle, &label);
        push_repeated(&mut middle, ' ', right);
        assert(middle@ == centered(TITLE@, TABLE_WIDTH as nat));
        put_chars(&mut buf, &middle);
    }
    put_code(&mut buf, RESET);
    row_of(&buf)
}

/// Renders the summary line.
fn summary_row(total: usize, folder: &str, count: usize) -> (row: String)
    ensures
        row@ == row_text(summary_content(total as nat, folder@, count as nat)),
        is_plain(folder@) ==> visible_len(row@) == FRAME_WIDTH,
{
    proof {
        lemma_codes();
        reveal_strlit("Total:");
        reveal_strlit(" ");
        reveal_strlit("  ");
        reveal_strlit("Folder:");
        reveal_strlit(" (");
        reveal_strlit(")");
    }
    let mut buf = start_code(ACCENT);
    put_text(&mut buf, "Total:");
    put_code(&mut buf, RESET);
    put_text(&mut buf, " ");
    put_code(&mut buf, VALUE_COLOR);
    put_padded_right(&mut buf, &numeral(total), 3);
    put_code(&mut buf, RESET);
    put_text(&mut buf, "  ");
    put_code(&mut buf, ACCENT);
    put_text(&mut buf, "Folder:");
    put_code(&mut buf, RESET);
    put_text(&mut buf, " ");
    put_code(&mut buf, FOLDER_COLOR);
    put_text(&mut buf, folder);
    put_code(&mut buf, RESET);
    put_text(&mut buf, " (");
    put_code(&mut buf, VALUE_COLOR);
    put_chars(&mut buf, &numeral(count));
    put_code(&mut buf, RESET);
    put_text(&mut buf, ")");
    row_of(&buf)
}

/// Renders the line that restates the folder name.
fn folder_row(folder: &str) -> (row: String)
    ensures
        row@ == row_text(folder_content(folder@)),
        is_plain(folder@) ==> visible_len(row@) == FRAME_WIDTH,
{
    proof {
        lemma_codes();
        reveal_strlit("Folder Name:");
        reveal_strlit(" ");
    }
    let mut buf = start_code(ACCENT);
    put_text(&mut buf, "Folder Name:");
    put_code(&mut buf, RESET);
    put_text(&mut buf, " ");
    put_code(&mut buf, FOLDER_COLOR);
    put_text(&mut buf, folder);
    put_code(&mut buf, RESET);
    row_of(&buf)
}

/// Renders the column header.
fn header_row() -> (row: String)
    ensures
        row@ == row_text(header_content()),
        visible_len(row@) == FRAME_WIDTH,
{
    proof {
        lemma_codes();
        reveal_strlit(" No.  ○  Task                                    Date");
    }
    let mut buf = start_code(ACCENT);
    put_text(&mut buf, " No.  ○  Task                                    Date");
    put_code(&mut buf, RESET);
    row_of(&buf)
}

/// A text that is cut down holds no escape character where the text holds
/// none.
proof fn lemma_truncated_plain(s: Seq<char>, n: nat)
    requires
        is_plain(s),
    ensures
        is_plain(truncated(s, n)),
{
}

/// Renders the table row of `task`, which stands at row `order` of its
/// folder.
fn task_row(task: &Task, order: usize, selected: bool) -> (row: String)
    requires
        order < usize::MAX,
    ensures
        row@ == row_text(task_content(task@, order as nat, selected)),
        is_plain(task@.text) ==> visible_len(row@) == FRAME_WIDTH,
{
    proof {
        lemma_codes();
        reveal_strlit("›");
        reveal_strlit("•");
        reveal_strlit("✓");
        reveal_strlit("○");
        reveal_strlit(" ");
        reveal_strlit("  ");
        reveal_strlit(".  ");
    }
    let mut buf = if selected {
        let mut head = start_code(POINTER_COLOR);
        put_text(&mut head, "›");
        head
    } else {
        let mut head = start_code(BORDER_COLOR);
        put_text(&mut head, "•");
        head
    };
    put_code(&mut buf, RESET);
    put_text(&mut buf, " ");
    put_code(&mut buf, VALUE_COLOR);
    put_padded_left(&mut buf, &numeral(order + 1), 2);
    put_code(&mut buf, RESET);
    put_text(&mut buf, ".  ");
    let ghost before = buf@;
    let status = if task.done {
        let mut mark = start_code(DONE_COLOR);
        put_text(&mut mark, "✓");
        mark
    } else {
        let mut mark = start_code(TODO_COLOR);
        put_text(&mut mark, "○");
        mark
    };
    push_chars(&mut buf, &status);
    proof {
        lemma_visible_concat(before, status@);
    }
    put_code(&mut buf, RESET);
    put_text(&mut buf, "  ");
    if task.done {
        put_code(&mut buf, DONE_COLOR);
    } else {
        put_code(&mut buf, TODO_COLOR);
    }
    let text = chars_of(task.text.as_str());
    let label = truncate_chars(&text, TASK_COLUMN_WIDTH);
    proof {
        if is_plain(text@) {
            lemma_truncated_plain(text@, TASK_COLUMN_WIDTH as nat);
        }
    }
    put_padded_right(&mut buf, &label, TASK_COLUMN_WIDTH);
    put_code(&mut buf, RESET);
    put_text(&mut buf, " ");
    put_code(&mut buf, DATE_COLOR);
    let date = task.created_at.date_label();
    put_text(&mut buf, date.as_str());
    put_code(&mut buf, RESET);
    row_of(&buf)
}

/// Renders the line that says which rows of the folder are shown.
fn showing_row(count: usize, start: usize) -> (row: String)
    requires
        start <= count,
        count > 0 ==> start < count,
    ensures
        row@ == row_text(showing_content(count as nat, start as nat)),
        visible_len(row@) == FRAME_WIDTH,
{
    proof {
        lemma_codes();
        reveal_strlit(" Showing 0 tasks in this folder.");
        reveal_strlit(" Showing ");
        reveal_strlit("-");
        reveal_strlit(" of ");
        reveal_strlit(" tasks in this folder.");
    }
    let mut buf = start_code(SUMMARY_COLOR);
    if count == 0 {
        put_text(&mut buf, " Showing 0 tasks in this folder.");
    } else {
        let shown: usize = if count - start > MAX_VISIBLE_TASKS {
            MAX_VISIBLE_TASKS
        } else {
            count - start
        };
        put_text(&mut buf, " Showing ");
        put_chars(&mut buf, &numeral(start + 1));
        put_text(&mut buf, "-");
        put_chars(&mut buf, &numeral(start + shown));
        put_text(&mut buf, " of ");
        put_chars(&mut buf, &numeral(count));
        put_text(&mut buf, " tasks in this folder.");
    }
    put_code(&mut buf, RESET);
    row_of(&buf)
}

/// Renders an input line.
fn input_row(label: &str, hint: &str, typed: &str) -> (row: String)
    requires
        label@.len() <= TABLE_WIDTH,
    ensures
        row@ == row_text(input_content(label@, hint@, typed@)),
        is_plain(label@) && is_plain(hint@) && is_plain(typed@) ==> visible_len(row@)
            == FRAME_WIDTH,
{
    proof {
        lemma_codes();
    }
    let mut buf = start_text(label);
    let room: usize = TABLE_WIDTH - buf.len();
    let text = chars_of(typed);
    if text.len() == 0 {
        put_code(&mut buf, DIM);
        put_text(&mut buf, hint);
        put_code(&mut buf, RESET);
    } else {
        let clipped = truncate_chars(&text, room);
        proof {
            if is_plain(text@) {
                lemma_truncated_plain(text@, room as nat);
            }
        }
        put_chars(&mut buf, &clipped);
    }
    row_of(&buf)
}

/// Renders the line that explains the keys of the navigate mode.
fn navigate_row() -> (row: String)
    ensures
        row@ == row_text(navigate_content()),
        visible_len(row@) == FRAME_WIDTH,
{
    proof {
        lemma_codes();
        reveal_strlit(" navigate:");
        reveal_strlit(" ");
        reveal_strlit("↑/↓ move");
        reveal_strlit(", ");
        reveal_strlit("d marks done");
        reveal_strlit("Esc exits");
    }
    let mut buf = start_code(ACCENT);
    put_text(&mut buf, " navigate:");
    put_code(&mut buf, RESET);
    put_text(&mut buf, " ");
    put_code(&mut buf, VALUE_COLOR);
    put_text(&mut buf, "↑/↓ move");
    put_code(&mut buf, RESET);
    put_text(&mut buf, ", ");
    put_code(&mut buf, VALUE_COLOR);
    put_text(&mut buf, "d marks done");
    put_code(&mut buf, RESET);
    put_text(&mut buf, ", ");
    put_code(&mut buf, VALUE_COLOR);
    put_text(&mut buf, "Esc exits");
    put_code(&mut buf, RESET);
    row_of(&buf)
}

/// Renders the tip line.
fn tip_row(index: usize) -> (row: String)
    ensures
        row@ == row_text(tip_content(index as nat)),
        visible_len(row@) == FRAME_WIDTH,
{
    proof {
        lemma_codes();
        reveal_strlit("Tip: Tap add for a quick idea, folder to regroup, delete to tidy up.");
        reveal_strlit(
            "Tip: Folder keeps contexts neat; add logs tasks; delete clears the clutter.",
        );
        reveal_strlit("Tip: Need a reset? add captures, folder jumps, delete prunes.");
    }
    let tip: &str = if index == 0 {
        "Tip: Tap add for a quick idea, folder to regroup, delete to tidy up."
    } else if index == 1 {
        "Tip: Folder keeps contexts neat; add logs tasks; delete clears the clutter."
    } else {
        "Tip: Need a reset? add captures, folder jumps, delete prunes."
    };
    let mut buf = start_code(TIP_TEXT);
    put_code(&mut buf, DIM);
    put_code(&mut buf, ITALIC);
    put_text(&mut buf, tip);
    put_code(&mut buf, RESET);
    row_of(&buf)
}

/// Renders a blank row.
fn blank_row() -> (row: String)
    ensures
        row@ == row_text(Seq::empty()),
        visible_len(row@) == FRAME_WIDTH,
{
    row_of(&Vec::new())
}

/// Renders the first of the two lines that depend on the mode.
fn first_mode_row(mode: &Mode, cmd: &str) -> (row: String)
    ensures
        row@ == row_text(first_mode_content(mode@, cmd@)),
        is_plain(cmd@) ==> visible_len(row@) == FRAME_WIDTH,
{
    proof {
        reveal_strlit(" command: ");
        reveal_strlit("(type a command and press Enter)");
        reveal_strlit(" command: add");
        reveal_strlit(" command: folder");
        reveal_strlit(" command: delete");
    }
    match mode {
        Mode::Command => input_row(" command: ", "(type a command and press Enter)", cmd),
        Mode::CommandInput(context) => {
            let echo: &str = match context.kind() {
                InputKind::Add => " command: add",
                InputKind::Folder => " command: folder",
                InputKind::Delete => " command: delete",
            };
            row_of(&start_text(echo))
        },
        Mode::Navigate { .. } => navigate_row(),
    }
}

/// Renders the second of the two lines that depend on the mode.
fn second_mode_row(mode: &Mode) -> (row: String)
    ensures
        row@ == row_text(second_mode_content(mode@)),
        (mode@ matches ModeView::Input { kind, buffer } ==> is_plain(buffer)) ==> visible_len(row@)
            == FRAME_WIDTH,
{
    proof {
        reveal_strlit(" add: ");
        reveal_strlit(" folder: ");
        reveal_strlit(" delete: ");
        reveal_strlit("(describe the task, Enter to save)");
        reveal_strlit("(type folder name, Enter to switch)");
        reveal_strlit("(number or 'folder name')");
    }
    match mode {
        Mode::Command => blank_row(),
        Mode::CommandInput(context) => {
            let typed = context.buffer();
            match context.kind() {
                InputKind::Add => input_row(
                    " add: ",
                    "(describe the task, Enter to save)",
                    typed.as_str(),
                ),
                InputKind::Folder => input_row(
                    " folder: ",
                    "(type folder name, Enter to switch)",
                    typed.as_str(),
                ),
                InputKind::Delete => input_row(
                    " delete: ",
                    "(number or 'folder name')",
                    typed.as_str(),
                ),
            }
        },
        Mode::Navigate { .. } => blank_row(),
    }
}

/// Renders the eight rows above the task table.
fn head_rows(total: usize, folder: &str, count: usize) -> (out: Vec<String>)
    ensures
        texts(out@) == head_text(total as nat, folder@, count as nat),
        is_plain(folder@) ==> is_full_width(texts(out@)),
{
    proof {
        reveal_strlit("╭");
        reveal_strlit("╮");
        reveal_strlit("├");
        reveal_strlit("┤");
    }
    let mut out: Vec<String> = Vec::new();
    assert(texts(out@) =~= Seq::empty());
    push_row(&mut out, rule_row("╭", "╮"));
    push_row(&mut out, title_row());
    push_row(&mut out, rule_row("├", "┤"));
    push_row(&mut out, summary_row(total, folder, count));
    push_row(&mut out, folder_row(folder));
    push_row(&mut out, rule_row("├", "┤"));
    push_row(&mut out, header_row());
    push_row(&mut out, rule_row("├", "┤"));
    out
}

/// Renders the seven rows of the task table.
fn table_rows(tasks: &Vec<Task>, rows: &Vec<usize>, start: usize, selected: Option<usize>) -> (out:
    Vec<String>)
    requires
        start + MAX_VISIBLE_TASKS <= usize::MAX,
        forall|k: int| 0 <= k < rows@.len() ==> (#[trigger] rows@[k]) < tasks@.len(),
    ensures
        texts(out@) == table_text(views(tasks@), rows@, start as nat, selection(selected)),
        (forall|i: int| 0 <= i < tasks@.len() ==> is_plain((#[trigger] views(tasks@)[i]).text))
            ==> is_full_width(texts(out@)),
{
    let mut out: Vec<String> = Vec::new();
    assert(texts(out@) =~= Seq::empty());
    let ghost plain = forall|i: int|
        0 <= i < tasks@.len() ==> is_plain((#[trigger] views(tasks@)[i]).text);
    let mut k: usize = 0;
    while k < MAX_VISIBLE_TASKS
        invariant
            k <= MAX_VISIBLE_TASKS,
            start + MAX_VISIBLE_TASKS <= usize::MAX,
            forall|j: int| 0 <= j < rows@.len() ==> (#[trigger] rows@[j]) < tasks@.len(),
            texts(out@) == Seq::new(
                k as nat,
                |j: int| slot_text(views(tasks@), rows@, (start + j) as nat, selection(selected)),
            ),
            plain == (forall|i: int|
                0 <= i < tasks@.len() ==> is_plain((#[trigger] views(tasks@)[i]).text)),
            plain ==> is_full_width(texts(out@)),
        decreases MAX_VISIBLE_TASKS - k,
    {
        let order: usize = start + k;
        let row = if order < rows.len() {
            let marked = match selected {
                Some(sel) => sel == order,
                None => false,
            };
            assert(plain ==> is_plain(views(tasks@)[rows@[order as int] as int].text));
            task_row(&tasks[rows[order]], order, marked)
        } else {
            blank_row()
        };
        assert(row@ == slot_text(views(tasks@), rows@, order as nat, selection(selected)));
        push_row(&mut out, row);
        k += 1;
        assert(texts(out@) =~= Seq::new(
            k as nat,
            |j: int| slot_text(views(tasks@), rows@, (start + j) as nat, selection(selected)),
        ));
    }
    out
}

/// Renders the seven rows below the task table.
fn foot_rows(count: usize, start: usize, mode: &Mode, cmd: &str, tip: usize) -> (out: Vec<String>)
    requires
        start <= count,
        count > 0 ==> start < count,
    ensures
        texts(out@) == foot_text(count as nat, start as nat, mode@, cmd@, tip as nat),
        is_plain(cmd@) && (mode@ matches ModeView::Input { kind, buffer } ==> is_plain(buffer))
            ==> is_full_width(texts(out@)),
{
    proof {
        reveal_strlit("├");
        reveal_strlit("┤");
        reveal_strlit("╰");
        reveal_strlit("╯");
    }
    let mut out: Vec<String> = Vec::new();
    assert(texts(out@) =~= Seq::empty());
    push_row(&mut out, rule_row("├", "┤"));
    push_row(&mut out, showing_row(count, start));
    push_row(&mut out, rule_row("├", "┤"));
    push_row(&mut out, first_mode_row(mode, cmd));
    push_row(&mut out, second_mode_row(mode));
    push_row(&mut out, tip_row(tip));
    push_row(&mut out, rule_row("╰", "╯"));
    out
}

/// Renders the whole frame as it stands at the instant `now_secs`: its rows
/// from top to bottom, each without a line end.
pub fn render_at(tasks: &Vec<Task>, folder: &str, mode: &Mode, cmd: &str, now_secs: i64) -> (frame:
    Vec<String>)
    ensures
        texts(frame@) == frame_text(views(tasks@), folder@, mode@, cmd@, now_secs),
        frame@.len() == FRAME_ROWS,
        is_plain_input(views(tasks@), folder@, mode@, cmd@) ==> is_full_width(texts(frame@)),
{
    let rows = filtered_indices(tasks, folder);
    let count = rows.len();
    let selected: Option<usize> = match mode {
        Mode::Navigate { selected } => if count == 0 {
            None
        } else if *selected < count {
            Some(*selected)
        } else {
            Some(count - 1)
        },
        _ => None,
    };
    assert(selection(selected) == shown_selection(mode@, count as nat));
    let start = scroll_start(count, selected);
    proof {
        lemma_matching_positions(views(tasks@), folder@);
    }
    let mut frame = head_rows(tasks.len(), folder, count);
    let mut table = table_rows(tasks, &rows, start, selected);
    let mut foot = foot_rows(count, start, mode, cmd, tip_index(now_secs));
    let ghost head = frame@;
    let ghost body = table@;
    let ghost tail = foot@;
    frame.append(&mut table);
    frame.append(&mut foot);
    assert(texts(frame@) =~= texts(head) + texts(body) + texts(tail));
    assert(texts(frame@).len() == FRAME_ROWS);
    frame
}

/// Renders the whole frame as it stands now, by the clock of the machine.
pub fn render(tasks: &Vec<Task>, folder: &str, mode: &Mode, cmd: &str) -> (frame: Vec<String>)
    ensures
        exists|now_secs: i64|
            texts(frame@) == #[trigger] frame_text(views(tasks@), folder@, mode@, cmd@, now_secs),
        frame@.len() == FRAME_ROWS,
        is_plain_input(views(tasks@), folder@, mode@, cmd@) ==> is_full_width(texts(frame@)),
{
    let now = Timestamp::now();
    render_at(tasks, folder, mode, cmd, now.seconds())
}

} // verus!
