//! The input state machine: what a key press does in each mode.
//!
//! Every handler takes the state by mutable reference and returns what is
//! left for the caller to do: write the store out, or leave the loop.

use vstd::prelude::*;
use crate::mode::{CommandContext, InputKind, KeyCode, KeyEvent, Mode, ModeView};
use crate::stamp::Timestamp;
use crate::store::{
    delete_by_folder_rank, delete_folder, done_task, filtered_indices, law_delete_folder,
    lemma_delete_folder_count, lemma_matching_positions, lemma_rows_after_done, mark_done,
    matching, new_task, views, without_folder, Task, TaskView,
};
use crate::text::{
    chars_of, eq_ignore_ascii_case, join_from, joined, lowercase, lowercased, number_of,
    parse_number, pop_char, push_chars, same_ignoring_ascii_case, same_text, split_words,
    string_of, trim, trimmed, without_last, words, words_from,
};

verus! {

/// Name of the folder that is current where the store names no other.
pub const DEFAULT_FOLDER: &'static str = "inbox";

/// The folder that is current at the start: that of the first task of the
/// store, or the default where the store is empty.
pub open spec fn first_folder(tasks: Seq<TaskView>) -> Seq<char> {
    if tasks.len() > 0 {
        tasks[0].folder
    } else {
        DEFAULT_FOLDER@
    }
}

/// The folder that is current at the start.
pub fn initial_folder(tasks: &Vec<Task>) -> (folder: String)
    ensures
        folder@ == first_folder(views(tasks@)),
{
    if tasks.len() > 0 {
        tasks[0].folder.clone()
    } else {
        DEFAULT_FOLDER.to_owned()
    }
}

/// What is left for the caller to do after a key press.
#[derive(Clone, Copy, Debug, PartialEq, Eq)]
pub enum Effect {
    /// Nothing.
    Nothing,
    /// The store has changed and is to be written out.
    Save,
    /// The user has asked to leave.
    Quit,
}

/// A change to the store or to the current folder, as an input line asks
/// for it.
#[derive(Clone, Debug, PartialEq)]
pub enum CommandAction {
    AddTask(String),
    SwitchFolder(String),
    /// The 1-based rank of a task within the current folder.
    DeleteTask(usize),
    DeleteFolder(String),
}

/// An action with its text as a sequence of characters.
pub ghost enum ActionView {
    AddTask(Seq<char>),
    SwitchFolder(Seq<char>),
    DeleteTask(usize),
    DeleteFolder(Seq<char>),
}

impl View for CommandAction {
    type V = ActionView;

    open spec fn view(&self) -> ActionView {
        match *self {
            CommandAction::AddTask(text) => ActionView::AddTask(text@),
            CommandAction::SwitchFolder(name) => ActionView::SwitchFolder(name@),
            CommandAction::DeleteTask(rank) => ActionView::DeleteTask(rank),
            CommandAction::DeleteFolder(name) => ActionView::DeleteFolder(name@),
        }
    }
}

/// All that a key press can change.
pub ghost struct State {
    pub mode: ModeView,
    pub buffer: Seq<char>,
    pub tasks: Seq<TaskView>,
    pub folder: Seq<char>,
}

/// The state after a key press and what is left for the caller to do.
pub ghost struct Outcome {
    pub state: State,
    pub effect: Effect,
}

/// The state that the four values make.
pub open spec fn state_of(
    mode: Mode,
    buffer: Seq<char>,
    tasks: Seq<Task>,
    folder: Seq<char>,
) -> State {
    State { mode: mode@, buffer: buffer, tasks: views(tasks), folder: folder }
}

/// The outcome that a state and an effect make.
pub open spec fn outcome_of(state: State, effect: Effect) -> Outcome {
    Outcome { state: state, effect: effect }
}

/// The action that was read, if any, with its text as a sequence of
/// characters.
pub open spec fn read_view(read: Option<CommandAction>) -> Option<ActionView> {
    match read {
        Some(action) => Some(action@),
        None => None,
    }
}

/// The result of an action that the three values make.
pub open spec fn applied_of(tasks: Seq<Task>, folder: Seq<char>, save: bool) -> Applied {
    Applied { tasks: views(tasks), folder: folder, save: save }
}

/// The mode that the command `word` opens, where it is one of the three
/// commands.
pub open spec fn command_named(word: Seq<char>) -> Option<InputKind> {
    if word == "add"@ {
        Some(InputKind::Add)
    } else if word == "delete"@ {
        Some(InputKind::Delete)
    } else if word == "folder"@ {
        Some(InputKind::Folder)
    } else {
        None
    }
}

/// The command that `word` names, where it is exactly one of the three.
pub fn command_for(word: &str) -> (out: Option<InputKind>)
    ensures
        out == command_named(word@),
{
    if same_text(word, "add") {
        Some(InputKind::Add)
    } else if same_text(word, "delete") {
        Some(InputKind::Delete)
    } else if same_text(word, "folder") {
        Some(InputKind::Folder)
    } else {
        None
    }
}

/// The mode and the command buffer after a key press in the command mode,
/// and what is left for the caller to do.
pub ghost struct CommandOutcome {
    pub mode: ModeView,
    pub buffer: Seq<char>,
    pub effect: Effect,
}

/// The outcome that the three values make.
pub open spec fn command_outcome(mode: Mode, buffer: Seq<char>, effect: Effect) -> CommandOutcome {
    CommandOutcome { mode: mode@, buffer: buffer, effect: effect }
}

/// What a key press does in the command mode, with `count` rows in the
/// current folder. Escape clears the buffer and backspace takes its last
/// character. Shift and `D` enter the navigate mode on the last row of the
/// current folder, where it has one. `q` asks to leave. Enter opens the
/// input line of the command that the buffer names, trimmed and in lower
/// case, and clears the buffer in any case. Any other character typed
/// without control is appended.
pub open spec fn command_step(
    mode: ModeView,
    buffer: Seq<char>,
    count: nat,
    key: KeyEvent,
) -> CommandOutcome {
    let same = CommandOutcome { mode: mode, buffer: buffer, effect: Effect::Nothing };
    match key.code {
        KeyCode::Esc => CommandOutcome { buffer: Seq::empty(), ..same },
        KeyCode::Backspace => CommandOutcome { buffer: without_last(buffer), ..same },
        KeyCode::Enter => CommandOutcome {
            mode: match command_named(lowercased(trimmed(buffer))) {
                Some(kind) => ModeView::Input { kind: kind, buffer: Seq::empty() },
                None => mode,
            },
            buffer: Seq::empty(),
            effect: Effect::Nothing,
        },
        KeyCode::Char(c) => if c == 'D' && key.shift {
            if count > 0 {
                CommandOutcome { mode: ModeView::Navigate { selected: (count - 1) as nat }, ..same }
            } else {
                same
            }
        } else if c == 'q' {
            CommandOutcome { effect: Effect::Quit, ..same }
        } else if !key.control {
            CommandOutcome { buffer: buffer.push(c), ..same }
        } else {
            same
        },
        _ => same,
    }
}

/// The folder that a delete action means by `name`: the current folder
/// where the name is empty.
pub open spec fn delete_target(name: Seq<char>, folder: Seq<char>) -> Seq<char> {
    if name.len() == 0 {
        folder
    } else {
        name
    }
}

/// The first word of a list of words, or the empty text where there is none.
pub open spec fn first_word(list: Seq<Seq<char>>) -> Seq<char> {
    if list.len() > 0 {
        list[0]
    } else {
        Seq::empty()
    }
}

/// What the text of a delete line asks for. Where its first word is
/// `folder`, in any letter case, the words after it, joined by single
/// spaces, name the folder to delete, and none names the current folder.
/// Else the whole text is the rank of a task, a number from 1 on. Any other
/// text asks for nothing.
pub open spec fn delete_request(input: Seq<char>, folder: Seq<char>) -> Option<ActionView> {
    let list = words(input);
    if same_ignoring_ascii_case(first_word(list), "folder"@) {
        Some(ActionView::DeleteFolder(delete_target(joined(words_from(list, 1)), folder)))
    } else {
        match number_of(input) {
            Some(rank) => if 0 < rank <= usize::MAX {
                Some(ActionView::DeleteTask(rank as usize))
            } else {
                None
            },
            None => None,
        }
    }
}

/// What Enter asks for on an input line that holds `buffer`: nothing where
/// the trimmed text is empty.
pub open spec fn submitted(kind: InputKind, buffer: Seq<char>, folder: Seq<char>) -> Option<
    ActionView,
> {
    let input = trimmed(buffer);
    if input.len() == 0 {
        None
    } else {
        match kind {
            InputKind::Add => Some(ActionView::AddTask(input)),
            InputKind::Folder => Some(ActionView::SwitchFolder(input)),
            InputKind::Delete => delete_request(input, folder),
        }
    }
}

/// What a key press does to an input line.
pub ghost struct Decision {
    /// The text of the line after the key.
    pub buffer: Seq<char>,
    /// Whether the line is left for the command mode.
    pub exit: bool,
    /// The change asked for.
    pub action: Option<ActionView>,
}

/// The decision that the three values make.
pub open spec fn decision_of(
    buffer: Seq<char>,
    exit: bool,
    action: Option<CommandAction>,
) -> Decision {
    Decision { buffer: buffer, exit: exit, action: read_view(action) }
}

/// What a key press does to an input line. Escape clears the line and
/// leaves it; a plain `b` on an empty line leaves it; backspace takes the
/// last character; Enter with a valid text asks for its action, clears the
/// line and leaves it, and with any other text changes nothing; any other
/// character typed without control is appended.
pub open spec fn decision(
    kind: InputKind,
    buffer: Seq<char>,
    folder: Seq<char>,
    key: KeyEvent,
) -> Decision {
    let same = Decision { buffer: buffer, exit: false, action: None };
    match key.code {
        KeyCode::Esc => Decision { buffer: Seq::empty(), exit: true, action: None },
        KeyCode::Backspace => Decision { buffer: without_last(buffer), exit: false, action: None },
        KeyCode::Enter => match submitted(kind, buffer, folder) {
            Some(action) => Decision { buffer: Seq::empty(), exit: true, action: Some(action) },
            None => same,
        },
        KeyCode::Char(c) => if c == 'b' && key.is_plain() && buffer.len() == 0 {
            Decision { buffer: buffer, exit: true, action: None }
        } else if !key.control {
            Decision { buffer: buffer.push(c), exit: false, action: None }
        } else {
            same
        },
        _ => same,
    }
}

/// The store and the current folder after an action, and whether the store
/// is to be written out.
pub ghost struct Applied {
    pub tasks: Seq<TaskView>,
    pub folder: Seq<char>,
    pub save: bool,
}

/// The current folder after the folder `target` was deleted and `rest` is
/// what remains of the store: where the current folder was the one deleted,
/// the folder of the first remaining task, or the default where none remains.
pub open spec fn folder_after_delete(
    folder: Seq<char>,
    target: Seq<char>,
    rest: Seq<TaskView>,
) -> Seq<char> {
    if same_ignoring_ascii_case(folder, target) {
        first_folder(rest)
    } else {
        folder
    }
}

/// What deleting the folder `name` does to the store and the current
/// folder.
pub open spec fn folder_deleted(
    tasks: Seq<TaskView>,
    folder: Seq<char>,
    name: Seq<char>,
) -> Applied {
    let target = delete_target(name, folder);
    let rest = without_folder(tasks, target);
    Applied {
        tasks: rest,
        folder: folder_after_delete(folder, target, rest),
        save: rest.len() != tasks.len(),
    }
}

/// What an action does. A new task goes to the end of the store, in the
/// current folder, stamped `now`. A switch changes the current folder and
/// nothing else. A task is deleted by its rank within the current folder,
/// where the folder has that rank. A folder is deleted with all its tasks;
/// an empty name stands for the current folder. The store is to be written
/// out whenever its content has changed.
pub open spec fn applied(
    action: ActionView,
    tasks: Seq<TaskView>,
    folder: Seq<char>,
    now: Timestamp,
) -> Applied {
    match action {
        ActionView::AddTask(text) => Applied {
            tasks: tasks.push(new_task(text, folder, now)),
            folder: folder,
            save: true,
        },
        ActionView::SwitchFolder(name) => Applied { tasks: tasks, folder: name, save: false },
        ActionView::DeleteTask(rank) => {
            let rows = matching(tasks, folder);
            if 1 <= rank <= rows.len() {
                Applied { tasks: tasks.remove(rows[rank - 1] as int), folder: folder, save: true }
            } else {
                Applied { tasks: tasks, folder: folder, save: false }
            }
        },
        ActionView::DeleteFolder(name) => folder_deleted(tasks, folder, name),
    }
}

/// What a key press does in an input mode, where an action that it asks for
/// is stamped `now`. In any other mode it does nothing.
pub open spec fn input_step(state: State, key: KeyEvent, now: Timestamp) -> Outcome {
    match state.mode {
        ModeView::Input { kind, buffer } => {
            let choice = decision(kind, buffer, state.folder, key);
            let done = match choice.action {
                Some(action) => applied(action, state.tasks, state.folder, now),
                None => Applied { tasks: state.tasks, folder: state.folder, save: false },
            };
            Outcome {
                state: State {
                    mode: if choice.exit {
                        ModeView::Command
                    } else {
                        ModeView::Input { kind: kind, buffer: choice.buffer }
                    },
                    buffer: if choice.exit { Seq::empty() } else { state.buffer },
                    tasks: done.tasks,
                    folder: done.folder,
                },
                effect: if done.save { Effect::Save } else { Effect::Nothing },
            }
        },
        _ => Outcome { state: state, effect: Effect::Nothing },
    }
}

/// The mode and the store after a key press in the navigate mode, and what
/// is left for the caller to do.
pub ghost struct NavigateOutcome {
    pub mode: ModeView,
    pub tasks: Seq<TaskView>,
    pub effect: Effect,
}

/// The outcome that the three values make.
pub open spec fn navigate_outcome(mode: Mode, tasks: Seq<Task>, effect: Effect) -> NavigateOutcome {
    NavigateOutcome { mode: mode@, tasks: views(tasks), effect: effect }
}

/// What a key press does in the navigate mode. With no row in the current
/// folder every key leads back to the command mode. Else the selection is
/// first held to the last row; Escape leaves for the command mode, the
/// arrows move the selection by one row within the folder, and `d` marks
/// the selected task as done. In any other mode it does nothing.
pub open spec fn navigate_step(
    mode: ModeView,
    tasks: Seq<TaskView>,
    folder: Seq<char>,
    key: KeyEvent,
) -> NavigateOutcome {
    let rows = matching(tasks, folder);
    let same = NavigateOutcome { mode: mode, tasks: tasks, effect: Effect::Nothing };
    match mode {
        ModeView::Navigate { selected } => if rows.len() == 0 {
            NavigateOutcome { mode: ModeView::Command, ..same }
        } else {
            let last = (rows.len() - 1) as nat;
            let held = if selected > last { last } else { selected };
            let stay = NavigateOutcome { mode: ModeView::Navigate { selected: held }, ..same };
            match key.code {
                KeyCode::Esc => NavigateOutcome { mode: ModeView::Command, ..same },
                KeyCode::Up => NavigateOutcome {
                    mode: ModeView::Navigate {
                        selected: if held > 0 { (held - 1) as nat } else { held },
                    },
                    ..same
                },
                KeyCode::Down => NavigateOutcome {
                    mode: ModeView::Navigate {
                        selected: if held < last { held + 1 } else { held },
                    },
                    ..same
                },
                KeyCode::Char(c) => if c == 'd' {
                    NavigateOutcome {
                        mode: ModeView::Navigate { selected: held },
                        tasks: tasks.update(
                            rows[held as int] as int,
                            done_task(tasks[rows[held as int] as int]),
                        ),
                        effect: Effect::Save,
                    }
                } else {
                    stay
                },
                _ => stay,
            }
        },
        _ => same,
    }
}

/// What a key press does: the step of the mode that the state is in.
pub open spec fn key_step(state: State, key: KeyEvent, now: Timestamp) -> Outcome {
    match state.mode {
        ModeView::Command => {
            let step = command_step(
                state.mode,
                state.buffer,
                matching(state.tasks, state.folder).len(),
                key,
            );
            Outcome {
                state: State { mode: step.mode, buffer: step.buffer, ..state },
                effect: step.effect,
            }
        },
        ModeView::Input { .. } => input_step(state, key, now),
        ModeView::Navigate { .. } => {
            let step = navigate_step(state.mode, state.tasks, state.folder, key);
            Outcome {
                state: State { mode: step.mode, tasks: step.tasks, ..state },
                effect: step.effect,
            }
        },
    }
}

/// Deleting a folder removes every task that carries its name, letter case
/// of ASCII letters set aside, and no other. Where the current folder was
/// the one deleted, the current folder becomes that of the first remaining
/// task, or the default where none remains; any other current folder stays.
/// The store is written out exactly where a task was removed.
pub proof fn law_folder_deleted(tasks: Seq<TaskView>, folder: Seq<char>, name: Seq<char>)
    ensures
        forall|k: int|
            0 <= k < folder_deleted(tasks, folder, name).tasks.len()
                ==> !same_ignoring_ascii_case(
                (#[trigger] folder_deleted(tasks, folder, name).tasks[k]).folder,
                delete_target(name, folder),
            ),
        forall|i: int|
            0 <= i < tasks.len() && !same_ignoring_ascii_case(
                (#[trigger] tasks[i]).folder,
                delete_target(name, folder),
            ) ==> folder_deleted(tasks, folder, name).tasks.contains(tasks[i]),
        same_ignoring_ascii_case(folder, delete_target(name, folder)) ==> folder_deleted(
            tasks,
            folder,
            name,
        ).folder == first_folder(folder_deleted(tasks, folder, name).tasks),
        !same_ignoring_ascii_case(folder, delete_target(name, folder)) ==> folder_deleted(
            tasks,
            folder,
            name,
        ).folder == folder,
        folder_deleted(tasks, folder, name).save == (exists|i: int|
            0 <= i < tasks.len() && same_ignoring_ascii_case(
                (#[trigger] tasks[i]).folder,
                delete_target(name, folder),
            )),
{
    law_delete_folder(tasks, delete_target(name, folder));
    lemma_delete_folder_count(tasks, delete_target(name, folder));
}

/// After any key press the selection is a row of the current folder: where
/// the mode is the navigate mode, the selected row is less than the number
/// of rows of the current folder. So the navigate mode is never left
/// standing on an empty folder.
pub proof fn law_selection_is_a_row(state: State, key: KeyEvent, now: Timestamp)
    requires
        state.tasks.len() <= usize::MAX,
    ensures
        key_step(state, key, now).state.mode matches ModeView::Navigate { selected } ==> selected
            < matching(
            key_step(state, key, now).state.tasks,
            key_step(state, key, now).state.folder,
        ).len(),
{
    let rows = matching(state.tasks, state.folder);
    match state.mode {
        ModeView::Navigate { selected } => {
            if rows.len() > 0 {
                let held = if selected > rows.len() - 1 {
                    rows.len() - 1
                } else {
                    selected as int
                };
                lemma_matching_positions(state.tasks, state.folder);
                lemma_rows_after_done(state.tasks, rows[held] as int, state.folder);
            }
        },
        _ => {},
    }
}

/// Handles a key press in the command mode.
pub fn handle_command(
    key: KeyEvent,
    mode: &mut Mode,
    buf: &mut String,
    tasks: &Vec<Task>,
    folder: &str,
) -> (effect: Effect)
    ensures
        command_outcome(*final(mode), final(buf)@, effect) == command_step(
            old(mode)@,
            old(buf)@,
            matching(views(tasks@), folder@).len(),
            key,
        ),
{
    match key.code {
        KeyCode::Esc => {
            *buf = String::new();
        },
        KeyCode::Backspace => {
            pop_char(buf);
        },
        KeyCode::Enter => {
            let typed = trim(&chars_of(buf.as_str()));
            let word = lowercase(string_of(&typed).as_str());
            match command_for(word.as_str()) {
                Some(kind) => {
                    *mode = Mode::CommandInput(CommandContext::new(kind, String::new()));
                },
                None => {},
            }
            *buf = String::new();
        },
        KeyCode::Char(c) => {
            if c == 'D' && key.shift {
                let rows = filtered_indices(tasks, folder);
                if rows.len() > 0 {
                    *mode = Mode::Navigate { selected: rows.len() - 1 };
                }
            } else if c == 'q' {
                return Effect::Quit;
            } else if !key.control {
                buf.push(c);
            }
        },
        _ => {},
    }
    Effect::Nothing
}

/// Reads what the text of a delete line asks for.
pub fn read_delete(input: &Vec<char>, folder: &String) -> (out: Option<CommandAction>)
    ensures
        read_view(out) == delete_request(input@, folder@),
{
    let list = split_words(input);
    let mut head: Vec<char> = Vec::new();
    if list.len() > 0 {
        push_chars(&mut head, &list[0]);
    }
    assert(head@ == first_word(words(input@)));
    if eq_ignore_ascii_case(&head, &chars_of("folder")) {
        let target = join_from(&list, 1);
        if target.len() == 0 {
            Some(CommandAction::DeleteFolder(folder.clone()))
        } else {
            Some(CommandAction::DeleteFolder(string_of(&target)))
        }
    } else {
        match parse_number(input) {
            Some(rank) => if rank > 0 {
                Some(CommandAction::DeleteTask(rank))
            } else {
                None
            },
            None => None,
        }
    }
}

/// Reads what Enter asks for on an input line that holds `buffer`.
pub fn read_submission(kind: InputKind, buffer: &str, folder: &String) -> (out: Option<
    CommandAction,
>)
    ensures
        read_view(out) == submitted(kind, buffer@, folder@),
{
    let input = trim(&chars_of(buffer));
    if input.len() == 0 {
        None
    } else {
        match kind {
            InputKind::Add => Some(CommandAction::AddTask(string_of(&input))),
            InputKind::Folder => Some(CommandAction::SwitchFolder(string_of(&input))),
            InputKind::Delete => read_delete(&input, folder),
        }
    }
}

/// Carries out an action on the store and the current folder, with `now` as
/// the time of creation of a task that it adds. Returns whether the store is
/// to be written out.
pub fn apply_action(
    action: CommandAction,
    tasks: &mut Vec<Task>,
    folder: &mut String,
    now: Timestamp,
) -> (save: bool)
    ensures
        applied_of(final(tasks)@, final(folder)@, save) == applied(
            action@,
            views(old(tasks)@),
            old(folder)@,
            now,
        ),
{
    match action {
        CommandAction::AddTask(text) => {
            crate::store::add(tasks, text, folder.clone(), now);
            true
        },
        CommandAction::SwitchFolder(name) => {
            *folder = name;
            false
        },
        CommandAction::DeleteTask(rank) => delete_by_folder_rank(tasks, folder.as_str(), rank),
        CommandAction::DeleteFolder(name) => {
            let target: String = if name.as_str().is_empty() { folder.clone() } else { name };
            let removed = delete_folder(tasks, target.as_str());
            let current = chars_of(folder.as_str());
            let deleted = chars_of(target.as_str());
            if eq_ignore_ascii_case(&current, &deleted) {
                *folder = initial_folder(tasks);
            }
            removed > 0
        },
    }
}

/// Decides what a key press does to an input line that holds `buffer`:
/// the text of the line after the key, whether the line is left, and the
/// action asked for.
pub fn decide(kind: InputKind, buffer: &String, folder: &String, key: KeyEvent) -> (out: (
    String,
    bool,
    Option<CommandAction>,
))
    ensures
        decision_of(out.0@, out.1, out.2) == decision(kind, buffer@, folder@, key),
{
    match key.code {
        KeyCode::Esc => (String::new(), true, None),
        KeyCode::Backspace => {
            let mut line = buffer.clone();
            pop_char(&mut line);
            (line, false, None)
        },
        KeyCode::Enter => match read_submission(kind, buffer.as_str(), folder) {
            Some(action) => (String::new(), true, Some(action)),
            None => (buffer.clone(), false, None),
        },
        KeyCode::Char(c) => {
            let mut line = buffer.clone();
            if c == 'b' && key.plain() && buffer.as_str().is_empty() {
                (line, true, None)
            } else if !key.control {
                line.push(c);
                (line, false, None)
            } else {
                (line, false, None)
            }
        },
        _ => (buffer.clone(), false, None),
    }
}

/// Handles a key press in an input mode. The clock of the machine is read
/// where the key asks for an action, and a task that the action adds is
/// stamped with that time.
pub fn handle_command_input(
    key: KeyEvent,
    mode: &mut Mode,
    cmd_buf: &mut String,
    tasks: &mut Vec<Task>,
    folder: &mut String,
) -> (effect: Effect)
    ensures
        exists|now: Timestamp|
            outcome_of(
                state_of(*final(mode), final(cmd_buf)@, final(tasks)@, final(folder)@),
                effect,
            ) == #[trigger] input_step(
                state_of(*old(mode), old(cmd_buf)@, old(tasks)@, old(folder)@),
                key,
                now,
            ),
{
    let ghost before = state_of(*mode, cmd_buf@, tasks@, folder@);
    let ghost mut at: Timestamp = arbitrary();
    let (kind, typed): (InputKind, String) = match mode {
        Mode::CommandInput(context) => (context.kind(), context.buffer().clone()),
        _ => {
            assert(outcome_of(before, Effect::Nothing) == input_step(before, key, at));
            return Effect::Nothing;
        },
    };
    let (line, exit, action) = decide(kind, &typed, folder, key);
    let save = match action {
        Some(request) => {
            let now = Timestamp::now();
            proof {
                at = now;
            }
            apply_action(request, tasks, folder, now)
        },
        None => false,
    };
    if exit {
        *mode = Mode::Command;
        *cmd_buf = String::new();
    } else {
        *mode = Mode::CommandInput(CommandContext::new(kind, line));
    }
    let effect = if save { Effect::Save } else { Effect::Nothing };
    assert(outcome_of(state_of(*mode, cmd_buf@, tasks@, folder@), effect) == input_step(
        before,
        key,
        at,
    ));
    effect
}

/// Handles a key press in the navigate mode.
pub fn handle_navigate(
    key: KeyEvent,
    mode: &mut Mode,
    tasks: &mut Vec<Task>,
    folder: &str,
) -> (effect: Effect)
    ensures
        navigate_outcome(*final(mode), final(tasks)@, effect) == navigate_step(
            old(mode)@,
            views(old(tasks)@),
            folder@,
            key,
        ),
{
    let selected: usize = match mode {
        Mode::Navigate { selected } => *selected,
        _ => {
            return Effect::Nothing;
        },
    };
    let rows = filtered_indices(tasks, folder);
    if rows.len() == 0 {
        *mode = Mode::Command;
        return Effect::Nothing;
    }
    let last: usize = rows.len() - 1;
    let held: usize = if selected > last { last } else { selected };
    match key.code {
        KeyCode::Esc => {
            *mode = Mode::Command;
            Effect::Nothing
        },
        KeyCode::Up => {
            *mode = Mode::Navigate { selected: if held > 0 { held - 1 } else { held } };
            Effect::Nothing
        },
        KeyCode::Down => {
            *mode = Mode::Navigate { selected: if held < last { held + 1 } else { held } };
            Effect::Nothing
        },
        KeyCode::Char(c) => {
            *mode = Mode::Navigate { selected: held };
            if c == 'd' {
                proof {
                    lemma_matching_positions(views(tasks@), folder@);
                }
                mark_done(tasks, rows[held]);
                Effect::Save
            } else {
                Effect::Nothing
            }
        },
        _ => {
            *mode = Mode::Navigate { selected: held };
            Effect::Nothing
        },
    }
}

/// Handles a key press in whatever mode is active.
pub fn handle_key(
    key: KeyEvent,
    mode: &mut Mode,
    buffer: &mut String,
    tasks: &mut Vec<Task>,
    folder: &mut String,
) -> (effect: Effect)
    ensures
        exists|now: Timestamp|
            outcome_of(
                state_of(*final(mode), final(buffer)@, final(tasks)@, final(folder)@),
                effect,
            ) == #[trigger] key_step(
                state_of(*old(mode), old(buffer)@, old(tasks)@, old(folder)@),
                key,
                now,
            ),
        final(mode)@ matches ModeView::Navigate { selected } ==> selected < matching(
            views(final(tasks)@),
            final(folder)@,
        ).len(),
{
    let ghost before = state_of(*mode, buffer@, tasks@, folder@);
    let ghost any: Timestamp = arbitrary();
    let total = tasks.len();
    proof {
        assert(before.tasks.len() == total);
        assert forall|now: Timestamp|
            (#[trigger] key_step(before, key, now)).state.mode matches ModeView::Navigate {
                selected,
            } ==> selected < matching(
                key_step(before, key, now).state.tasks,
                key_step(before, key, now).state.folder,
            ).len() by {
            law_selection_is_a_row(before, key, now);
        }
    }
    match mode {
        Mode::Command => {
            let effect = handle_command(key, mode, buffer, tasks, folder.as_str());
            assert(outcome_of(state_of(*mode, buffer@, tasks@, folder@), effect) == key_step(
                before,
                key,
                any,
            ));
            effect
        },
        Mode::CommandInput(_) => {
            let effect = handle_command_input(key, mode, buffer, tasks, folder);
            proof {
                let after = outcome_of(state_of(*mode, buffer@, tasks@, folder@), effect);
                let now = choose|now: Timestamp| after == #[trigger] input_step(before, key, now);
                assert(after == key_step(before, key, now));
            }
            effect
        },
        Mode::Navigate { .. } => {
            let effect = handle_navigate(key, mode, tasks, folder.as_str());
            assert(outcome_of(state_of(*mode, buffer@, tasks@, folder@), effect) == key_step(
                before,
                key,
                any,
            ));
            effect
        },
    }
}

} // verus!
