use pastel_todo::input::{
    apply_action, command_for, decide, handle_command, handle_command_input, handle_key,
    handle_navigate, initial_folder, read_delete, read_submission, CommandAction, Effect,
    DEFAULT_FOLDER,
};
use pastel_todo::mode::{CommandContext, InputKind, KeyCode, KeyEvent, Mode};
use pastel_todo::stamp::Timestamp;
use pastel_todo::store::Task;

fn key(code: KeyCode) -> KeyEvent {
    KeyEvent { code, shift: false, control: false, other_modifier: false }
}

fn shift(code: KeyCode) -> KeyEvent {
    KeyEvent { code, shift: true, control: false, other_modifier: false }
}

fn control(code: KeyCode) -> KeyEvent {
    KeyEvent { code, shift: false, control: true, other_modifier: false }
}

fn stamp() -> Timestamp {
    Timestamp::new(1_700_000_000, 0, 0).unwrap()
}

fn task(text: &str, folder: &str) -> Task {
    Task { text: text.to_string(), done: false, folder: folder.to_string(), created_at: stamp() }
}

fn sample() -> Vec<Task> {
    vec![
        task("buy milk", "inbox"),
        task("plan trip", "travel"),
        task("write report", "inbox"),
        task("book hotel", "Travel"),
    ]
}

fn texts(tasks: &[Task]) -> Vec<&str> {
    tasks.iter().map(|t| t.text.as_str()).collect()
}

fn add_line(s: &str) -> Mode {
    Mode::CommandInput(CommandContext::Add { buffer: s.to_string() })
}

fn folder_line(s: &str) -> Mode {
    Mode::CommandInput(CommandContext::Folder { buffer: s.to_string() })
}

fn delete_line(s: &str) -> Mode {
    Mode::CommandInput(CommandContext::Delete { buffer: s.to_string() })
}

struct App {
    mode: Mode,
    buffer: String,
    tasks: Vec<Task>,
    folder: String,
}

fn app(mode: Mode, buffer: &str) -> App {
    App { mode, buffer: buffer.to_string(), tasks: sample(), folder: "inbox".to_string() }
}

fn press(a: &mut App, k: KeyEvent) -> Effect {
    handle_key(k, &mut a.mode, &mut a.buffer, &mut a.tasks, &mut a.folder)
}

fn type_text(a: &mut App, s: &str) {
    for c in s.chars() {
        assert_eq!(press(a, key(KeyCode::Char(c))), Effect::Nothing);
    }
}

#[test]
fn command_for_knows_the_three_commands() {
    assert_eq!(command_for("add"), Some(InputKind::Add));
    assert_eq!(command_for("delete"), Some(InputKind::Delete));
    assert_eq!(command_for("folder"), Some(InputKind::Folder));
    assert_eq!(command_for("Add"), None);
    assert_eq!(command_for("adds"), None);
    assert_eq!(command_for(""), None);
}

#[test]
fn command_escape_clears_the_buffer() {
    let mut a = app(Mode::Command, "abc");
    assert_eq!(press(&mut a, key(KeyCode::Esc)), Effect::Nothing);
    assert_eq!(a.buffer, "");
    assert_eq!(a.mode, Mode::Command);
}

#[test]
fn command_backspace_takes_the_last_character() {
    let mut a = app(Mode::Command, "abc");
    press(&mut a, key(KeyCode::Backspace));
    assert_eq!(a.buffer, "ab");
    let mut a = app(Mode::Command, "");
    press(&mut a, key(KeyCode::Backspace));
    assert_eq!(a.buffer, "");
}

#[test]
fn command_characters_are_appended() {
    let mut a = app(Mode::Command, "");
    type_text(&mut a, "add");
    assert_eq!(a.buffer, "add");
    assert_eq!(press(&mut a, shift(KeyCode::Char('A'))), Effect::Nothing);
    assert_eq!(a.buffer, "addA");
    assert_eq!(a.tasks, sample());
}

#[test]
fn command_characters_with_control_are_dropped() {
    let mut a = app(Mode::Command, "x");
    assert_eq!(press(&mut a, control(KeyCode::Char('c'))), Effect::Nothing);
    assert_eq!(a.buffer, "x");
}

#[test]
fn command_other_keys_do_nothing() {
    let mut a = app(Mode::Command, "x");
    for code in [KeyCode::Up, KeyCode::Down, KeyCode::Other] {
        assert_eq!(press(&mut a, key(code)), Effect::Nothing);
    }
    assert_eq!(a.buffer, "x");
    assert_eq!(a.mode, Mode::Command);
}

#[test]
fn command_q_asks_to_leave() {
    let mut a = app(Mode::Command, "ab");
    assert_eq!(press(&mut a, key(KeyCode::Char('q'))), Effect::Quit);
    assert_eq!(a.buffer, "ab");
    assert_eq!(press(&mut a, control(KeyCode::Char('q'))), Effect::Quit);
}

#[test]
fn command_shift_d_enters_navigate_on_the_last_row() {
    let mut a = app(Mode::Command, "ab");
    assert_eq!(press(&mut a, shift(KeyCode::Char('D'))), Effect::Nothing);
    assert_eq!(a.mode, Mode::Navigate { selected: 1 });
    assert_eq!(a.buffer, "ab");
}

#[test]
fn command_shift_d_on_an_empty_folder_stays_in_command() {
    let mut a = app(Mode::Command, "ab");
    a.folder = "empty".to_string();
    assert_eq!(press(&mut a, shift(KeyCode::Char('D'))), Effect::Nothing);
    assert_eq!(a.mode, Mode::Command);
    assert_eq!(a.buffer, "ab");
}

#[test]
fn command_capital_d_without_shift_is_typed() {
    let mut a = app(Mode::Command, "");
    press(&mut a, key(KeyCode::Char('D')));
    assert_eq!(a.buffer, "D");
    assert_eq!(a.mode, Mode::Command);
}

#[test]
fn command_enter_opens_the_input_line_of_the_command() {
    for (typed, mode) in [
        ("add", add_line("")),
        ("delete", delete_line("")),
        ("folder", folder_line("")),
        ("  ADD  ", add_line("")),
        ("Folder", folder_line("")),
        ("\tdElEtE\u{a0}", delete_line("")),
    ] {
        let mut a = app(Mode::Command, typed);
        assert_eq!(press(&mut a, key(KeyCode::Enter)), Effect::Nothing);
        assert_eq!(a.mode, mode);
        assert_eq!(a.buffer, "");
    }
}

#[test]
fn command_enter_on_any_other_text_only_clears() {
    for typed in ["", "ad", "add it", "remove", "a d d"] {
        let mut a = app(Mode::Command, typed);
        assert_eq!(press(&mut a, key(KeyCode::Enter)), Effect::Nothing);
        assert_eq!(a.mode, Mode::Command);
        assert_eq!(a.buffer, "");
    }
}

#[test]
fn handle_command_leaves_another_mode_alone_unless_it_enters_one() {
    let tasks = sample();
    let mut mode = Mode::Navigate { selected: 0 };
    let mut buffer = "x".to_string();
    assert_eq!(
        handle_command(key(KeyCode::Char('y')), &mut mode, &mut buffer, &tasks, "inbox"),
        Effect::Nothing
    );
    assert_eq!(mode, Mode::Navigate { selected: 0 });
    assert_eq!(buffer, "xy");
}

#[test]
fn input_escape_clears_and_leaves() {
    let mut a = app(add_line("half typed"), "left over");
    assert_eq!(press(&mut a, key(KeyCode::Esc)), Effect::Nothing);
    assert_eq!(a.mode, Mode::Command);
    assert_eq!(a.buffer, "");
    assert_eq!(a.tasks, sample());
}

#[test]
fn input_plain_b_on_an_empty_line_goes_back() {
    for line in [add_line(""), folder_line(""), delete_line("")] {
        let mut a = app(line, "");
        assert_eq!(press(&mut a, key(KeyCode::Char('b'))), Effect::Nothing);
        assert_eq!(a.mode, Mode::Command);
    }
}

#[test]
fn input_b_is_typed_on_a_line_with_text_or_with_a_modifier() {
    let mut a = app(add_line("a"), "");
    press(&mut a, key(KeyCode::Char('b')));
    assert_eq!(a.mode, add_line("ab"));
    let mut a = app(add_line(""), "");
    press(&mut a, shift(KeyCode::Char('b')));
    assert_eq!(a.mode, add_line("b"));
    let mut a = app(add_line(""), "");
    press(&mut a, KeyEvent { code: KeyCode::Char('b'), shift: false, control: false, other_modifier: true });
    assert_eq!(a.mode, add_line("b"));
    let mut a = app(add_line(""), "");
    press(&mut a, control(KeyCode::Char('b')));
    assert_eq!(a.mode, add_line(""));
}

#[test]
fn input_backspace_and_characters_edit_the_line() {
    let mut a = app(folder_line("wor"), "");
    press(&mut a, key(KeyCode::Char('k')));
    assert_eq!(a.mode, folder_line("work"));
    press(&mut a, key(KeyCode::Backspace));
    press(&mut a, key(KeyCode::Backspace));
    assert_eq!(a.mode, folder_line("wo"));
    press(&mut a, control(KeyCode::Char('x')));
    assert_eq!(a.mode, folder_line("wo"));
    for code in [KeyCode::Up, KeyCode::Down, KeyCode::Other] {
        press(&mut a, key(code));
    }
    assert_eq!(a.mode, folder_line("wo"));
    let mut a = app(delete_line(""), "");
    press(&mut a, key(KeyCode::Backspace));
    assert_eq!(a.mode, delete_line(""));
}

#[test]
fn add_enter_appends_a_task_to_the_current_folder() {
    let mut a = app(add_line("  call mum  "), "junk");
    assert_eq!(press(&mut a, key(KeyCode::Enter)), Effect::Save);
    assert_eq!(a.mode, Mode::Command);
    assert_eq!(a.buffer, "");
    assert_eq!(a.tasks.len(), 5);
    assert_eq!(&a.tasks[..4], &sample()[..]);
    assert_eq!(a.tasks[4].text, "call mum");
    assert_eq!(a.tasks[4].folder, "inbox");
    assert!(!a.tasks[4].done);
    assert!(a.tasks[4].created_at.seconds() > 1_600_000_000);
}

#[test]
fn enter_on_a_blank_line_changes_nothing() {
    for line in [add_line(""), add_line("   "), folder_line(" \t"), delete_line("  ")] {
        let mut a = app(line.clone(), "kept");
        assert_eq!(press(&mut a, key(KeyCode::Enter)), Effect::Nothing);
        assert_eq!(a.mode, line);
        assert_eq!(a.buffer, "kept");
        assert_eq!(a.tasks, sample());
        assert_eq!(a.folder, "inbox");
    }
}

#[test]
fn folder_enter_switches_the_current_folder() {
    let mut a = app(folder_line(" brand new "), "");
    assert_eq!(press(&mut a, key(KeyCode::Enter)), Effect::Nothing);
    assert_eq!(a.folder, "brand new");
    assert_eq!(a.mode, Mode::Command);
    assert_eq!(a.tasks, sample());
}

#[test]
fn delete_enter_with_a_rank_removes_that_row() {
    let mut a = app(delete_line(" 2 "), "");
    assert_eq!(press(&mut a, key(KeyCode::Enter)), Effect::Save);
    assert_eq!(texts(&a.tasks), vec!["buy milk", "plan trip", "book hotel"]);
    assert_eq!(a.mode, Mode::Command);
}

#[test]
fn delete_one_of_two_leaves_the_other_at_rank_one() {
    let mut a = App {
        mode: delete_line("1"),
        buffer: String::new(),
        tasks: vec![task("buy milk", "inbox"), task("write report", "inbox")],
        folder: "inbox".to_string(),
    };
    assert_eq!(press(&mut a, key(KeyCode::Enter)), Effect::Save);
    assert_eq!(texts(&a.tasks), vec!["write report"]);
}

#[test]
fn delete_enter_with_a_rank_past_the_folder_leaves_the_store() {
    let mut a = app(delete_line("3"), "");
    assert_eq!(press(&mut a, key(KeyCode::Enter)), Effect::Nothing);
    assert_eq!(a.tasks, sample());
    assert_eq!(a.mode, Mode::Command);
}

#[test]
fn delete_enter_with_invalid_text_keeps_the_line() {
    for typed in ["0", "-1", "two", "1 2", "1x", "99999999999999999999999"] {
        let mut a = app(delete_line(typed), "kept");
        assert_eq!(press(&mut a, key(KeyCode::Enter)), Effect::Nothing);
        assert_eq!(a.mode, delete_line(typed));
        assert_eq!(a.buffer, "kept");
        assert_eq!(a.tasks, sample());
    }
}

#[test]
fn delete_enter_with_folder_and_a_name_removes_that_folder() {
    let mut a = app(delete_line("FOLDER   travel"), "");
    assert_eq!(press(&mut a, key(KeyCode::Enter)), Effect::Save);
    assert_eq!(texts(&a.tasks), vec!["buy milk", "write report"]);
    assert_eq!(a.folder, "inbox");
    assert_eq!(a.mode, Mode::Command);
}

#[test]
fn delete_enter_with_folder_alone_removes_the_current_folder() {
    let mut a = app(delete_line("folder"), "");
    assert_eq!(press(&mut a, key(KeyCode::Enter)), Effect::Save);
    assert_eq!(texts(&a.tasks), vec!["plan trip", "book hotel"]);
    assert_eq!(a.folder, "travel");
}

#[test]
fn deleting_the_last_folder_falls_back_to_the_default() {
    let mut a = App {
        mode: delete_line("folder WORK"),
        buffer: String::new(),
        tasks: vec![task("a", "work"), task("b", "Work")],
        folder: "work".to_string(),
    };
    assert_eq!(press(&mut a, key(KeyCode::Enter)), Effect::Save);
    assert!(a.tasks.is_empty());
    assert_eq!(a.folder, "inbox");
}

#[test]
fn deleting_a_folder_without_tasks_saves_nothing() {
    let mut a = app(delete_line("folder none"), "");
    assert_eq!(press(&mut a, key(KeyCode::Enter)), Effect::Nothing);
    assert_eq!(a.tasks, sample());
    assert_eq!(a.folder, "inbox");
    assert_eq!(a.mode, Mode::Command);
    let mut a = app(delete_line("folder"), "");
    a.folder = "Nowhere".to_string();
    assert_eq!(press(&mut a, key(KeyCode::Enter)), Effect::Nothing);
    assert_eq!(a.folder, "inbox");
}

#[test]
fn delete_folder_name_joins_words_with_single_spaces() {
    let read = read_delete(&"folder  my   stuff".chars().collect(), &"inbox".to_string());
    assert_eq!(read, Some(CommandAction::DeleteFolder("my stuff".to_string())));
    let read = read_delete(&"folders".chars().collect(), &"inbox".to_string());
    assert_eq!(read, None);
    let read = read_delete(&"+3".chars().collect(), &"inbox".to_string());
    assert_eq!(read, Some(CommandAction::DeleteTask(3)));
    let read = read_delete(&"".chars().collect(), &"inbox".to_string());
    assert_eq!(read, None);
}

#[test]
fn read_submission_trims_the_line() {
    let folder = "inbox".to_string();
    assert_eq!(
        read_submission(InputKind::Add, " x y ", &folder),
        Some(CommandAction::AddTask("x y".to_string()))
    );
    assert_eq!(
        read_submission(InputKind::Folder, "work\n", &folder),
        Some(CommandAction::SwitchFolder("work".to_string()))
    );
    assert_eq!(
        read_submission(InputKind::Delete, " folder ", &folder),
        Some(CommandAction::DeleteFolder("inbox".to_string()))
    );
    assert_eq!(read_submission(InputKind::Delete, " 7 ", &folder), Some(CommandAction::DeleteTask(7)));
    assert_eq!(read_submission(InputKind::Add, "   ", &folder), None);
}

#[test]
fn decide_reports_line_exit_and_action() {
    let folder = "inbox".to_string();
    let (line, exit, action) = decide(InputKind::Add, &"ab".to_string(), &folder, key(KeyCode::Char('c')));
    assert_eq!((line.as_str(), exit, action), ("abc", false, None));
    let (line, exit, action) = decide(InputKind::Add, &"ab".to_string(), &folder, key(KeyCode::Enter));
    assert_eq!((line.as_str(), exit), ("", true));
    assert_eq!(action, Some(CommandAction::AddTask("ab".to_string())));
    let (line, exit, action) = decide(InputKind::Delete, &"x".to_string(), &folder, key(KeyCode::Enter));
    assert_eq!((line.as_str(), exit, action), ("x", false, None));
}

#[test]
fn apply_action_stamps_a_new_task_with_the_given_time() {
    let mut tasks = sample();
    let mut folder = "travel".to_string();
    let at = Timestamp::new(1_431_648_000, 9, 60).unwrap();
    assert!(apply_action(CommandAction::AddTask("pack".to_string()), &mut tasks, &mut folder, at));
    assert_eq!(
        tasks[4],
        Task { text: "pack".to_string(), done: false, folder: "travel".to_string(), created_at: at }
    );
    assert_eq!(folder, "travel");
}

#[test]
fn apply_action_delete_folder_with_empty_name_means_the_current_one() {
    let mut tasks = sample();
    let mut folder = "TRAVEL".to_string();
    assert!(apply_action(CommandAction::DeleteFolder(String::new()), &mut tasks, &mut folder, stamp()));
    assert_eq!(texts(&tasks), vec!["buy milk", "write report"]);
    assert_eq!(folder, "inbox");
}

#[test]
fn apply_action_delete_task_of_rank_zero_changes_nothing() {
    let mut tasks = sample();
    let mut folder = "inbox".to_string();
    assert!(!apply_action(CommandAction::DeleteTask(0), &mut tasks, &mut folder, stamp()));
    assert_eq!(tasks, sample());
}

#[test]
fn handle_command_input_in_another_mode_does_nothing() {
    let mut a = app(Mode::Command, "x");
    let effect = handle_command_input(
        key(KeyCode::Enter),
        &mut a.mode,
        &mut a.buffer,
        &mut a.tasks,
        &mut a.folder,
    );
    assert_eq!(effect, Effect::Nothing);
    assert_eq!(a.mode, Mode::Command);
    assert_eq!(a.buffer, "x");
}

#[test]
fn navigate_escape_returns_to_command() {
    let mut a = app(Mode::Navigate { selected: 1 }, "");
    assert_eq!(press(&mut a, key(KeyCode::Esc)), Effect::Nothing);
    assert_eq!(a.mode, Mode::Command);
}

#[test]
fn navigate_arrows_move_within_the_folder() {
    let mut a = app(Mode::Navigate { selected: 1 }, "");
    press(&mut a, key(KeyCode::Up));
    assert_eq!(a.mode, Mode::Navigate { selected: 0 });
    press(&mut a, key(KeyCode::Up));
    assert_eq!(a.mode, Mode::Navigate { selected: 0 });
    press(&mut a, key(KeyCode::Down));
    assert_eq!(a.mode, Mode::Navigate { selected: 1 });
    press(&mut a, key(KeyCode::Down));
    assert_eq!(a.mode, Mode::Navigate { selected: 1 });
}

#[test]
fn navigate_holds_a_selection_past_the_end_to_the_last_row() {
    let mut a = app(Mode::Navigate { selected: 9 }, "");
    press(&mut a, key(KeyCode::Other));
    assert_eq!(a.mode, Mode::Navigate { selected: 1 });
    let mut a = app(Mode::Navigate { selected: 9 }, "");
    press(&mut a, key(KeyCode::Up));
    assert_eq!(a.mode, Mode::Navigate { selected: 0 });
}

#[test]
fn navigate_d_marks_the_selected_task_done() {
    let mut a = app(Mode::Navigate { selected: 1 }, "");
    assert_eq!(press(&mut a, key(KeyCode::Char('d'))), Effect::Save);
    let mut expected = sample();
    expected[2].done = true;
    assert_eq!(a.tasks, expected);
    assert_eq!(a.mode, Mode::Navigate { selected: 1 });
    assert_eq!(press(&mut a, key(KeyCode::Char('d'))), Effect::Save);
    assert_eq!(a.tasks, expected);
}

#[test]
fn navigate_other_characters_do_nothing() {
    let mut a = app(Mode::Navigate { selected: 0 }, "");
    for c in ['q', 'D', 'x', 'b'] {
        assert_eq!(press(&mut a, key(KeyCode::Char(c))), Effect::Nothing);
    }
    assert_eq!(press(&mut a, key(KeyCode::Enter)), Effect::Nothing);
    assert_eq!(press(&mut a, key(KeyCode::Backspace)), Effect::Nothing);
    assert_eq!(a.tasks, sample());
    assert_eq!(a.mode, Mode::Navigate { selected: 0 });
}

#[test]
fn navigate_on_an_empty_folder_falls_back_to_command() {
    for code in [KeyCode::Up, KeyCode::Down, KeyCode::Char('d'), KeyCode::Esc, KeyCode::Other] {
        let mut a = app(Mode::Navigate { selected: 0 }, "");
        a.folder = "empty".to_string();
        assert_eq!(press(&mut a, key(code)), Effect::Nothing);
        assert_eq!(a.mode, Mode::Command);
        assert_eq!(a.tasks, sample());
    }
}

#[test]
fn handle_navigate_in_another_mode_does_nothing() {
    let mut tasks = sample();
    let mut mode = Mode::Command;
    assert_eq!(handle_navigate(key(KeyCode::Char('d')), &mut mode, &mut tasks, "inbox"), Effect::Nothing);
    assert_eq!(mode, Mode::Command);
    assert_eq!(tasks, sample());
}

#[test]
fn selection_stays_a_row_of_the_folder_through_a_session() {
    let mut a = app(Mode::Command, "");
    let keys = [
        shift(KeyCode::Char('D')),
        key(KeyCode::Down),
        key(KeyCode::Char('d')),
        key(KeyCode::Up),
        key(KeyCode::Up),
        key(KeyCode::Esc),
        key(KeyCode::Char('d')),
        key(KeyCode::Backspace),
        shift(KeyCode::Char('D')),
    ];
    for k in keys {
        press(&mut a, k);
        if let Mode::Navigate { selected } = a.mode {
            let rows = a.tasks.iter().filter(|t| t.folder == a.folder).count();
            assert!(selected < rows);
        }
    }
}

#[test]
fn a_whole_session() {
    let mut a = App {
        mode: Mode::Command,
        buffer: String::new(),
        tasks: Vec::new(),
        folder: "inbox".to_string(),
    };
    type_text(&mut a, "add");
    press(&mut a, key(KeyCode::Enter));
    type_text(&mut a, "get milk");
    assert_eq!(press(&mut a, key(KeyCode::Enter)), Effect::Save);
    type_text(&mut a, "add");
    press(&mut a, key(KeyCode::Enter));
    type_text(&mut a, "write report");
    assert_eq!(press(&mut a, key(KeyCode::Enter)), Effect::Save);
    assert_eq!(texts(&a.tasks), vec!["get milk", "write report"]);
    type_text(&mut a, "delete");
    press(&mut a, key(KeyCode::Enter));
    type_text(&mut a, "1");
    assert_eq!(press(&mut a, key(KeyCode::Enter)), Effect::Save);
    assert_eq!(texts(&a.tasks), vec!["write report"]);
    assert_eq!(a.mode, Mode::Command);
    assert_eq!(press(&mut a, key(KeyCode::Char('q'))), Effect::Quit);
}

#[test]
fn initial_folder_is_that_of_the_first_task() {
    assert_eq!(initial_folder(&sample()), "inbox");
    assert_eq!(initial_folder(&vec![task("a", "Work"), task("b", "inbox")]), "Work");
}

#[test]
fn initial_folder_of_an_empty_store_is_the_default() {
    assert_eq!(initial_folder(&Vec::new()), "inbox");
    assert_eq!(DEFAULT_FOLDER, "inbox");
}
