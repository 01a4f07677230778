use pastel_todo::persist::{parse_tasks, read_line, serialize_tasks, split_fields};
use pastel_todo::stamp::Timestamp;
use pastel_todo::store::Task;

fn chars(s: &str) -> Vec<char> {
    s.chars().collect()
}

fn task(text: &str, folder: &str, done: bool, secs: i64) -> Task {
    Task {
        text: text.to_string(),
        done,
        folder: folder.to_string(),
        created_at: Timestamp::new(secs, 0, 0).unwrap(),
    }
}

#[test]
fn serialize_writes_one_line_per_task() {
    let tasks = vec![
        task("buy milk", "inbox", false, 1_431_648_000),
        task("write report", "work", true, 1_700_000_000),
    ];
    assert_eq!(
        serialize_tasks(&tasks),
        "0\tinbox\t2015-05-15T00:00:00+00:00\tbuy milk\n1\twork\t2023-11-14T22:13:20+00:00\twrite report\n"
    );
}

#[test]
fn serialize_of_an_empty_store_is_empty() {
    assert_eq!(serialize_tasks(&Vec::new()), "");
}

#[test]
fn split_fields_splits_at_the_first_three_tabs() {
    let fields = split_fields(&chars("1\tinbox\twhen\ta\tb\tc")).unwrap();
    assert_eq!(fields.0, chars("1"));
    assert_eq!(fields.1, chars("inbox"));
    assert_eq!(fields.2, chars("when"));
    assert_eq!(fields.3, chars("a\tb\tc"));
}

#[test]
fn split_fields_takes_empty_fields() {
    let fields = split_fields(&chars("\t\t\t")).unwrap();
    assert_eq!(fields, (Vec::new(), Vec::new(), Vec::new(), Vec::new()));
}

#[test]
fn split_fields_wants_three_tabs() {
    assert!(split_fields(&chars("")).is_none());
    assert!(split_fields(&chars("1")).is_none());
    assert!(split_fields(&chars("1\tinbox")).is_none());
    assert!(split_fields(&chars("1\tinbox\twhen")).is_none());
}

#[test]
fn read_line_makes_the_task_of_a_record() {
    let read = read_line(&chars("1\twork\t2023-11-14T22:13:20+00:00\twrite\treport")).unwrap();
    assert!(read.done);
    assert_eq!(read.folder, "work");
    assert_eq!(read.text, "write\treport");
    assert_eq!(read.created_at.seconds(), 1_700_000_000);
    assert_eq!(read.created_at.nanoseconds(), 0);
}

#[test]
fn read_line_takes_only_one_as_done() {
    for flag in ["0", "", "true", "11", " 1", "x"] {
        let line = format!("{}\tinbox\t2023-11-14T22:13:20+00:00\ttext", flag);
        assert!(!read_line(&chars(&line)).unwrap().done);
    }
}

#[test]
fn read_line_falls_back_to_the_clock_for_an_unreadable_time() {
    let read = read_line(&chars("0\tinbox\tnot a time\ttext")).unwrap();
    assert_eq!(read.text, "text");
    assert!(read.created_at.seconds() > 1_600_000_000);
}

#[test]
fn parse_skips_lines_that_are_no_records() {
    let content = "garbage\n0\tinbox\t2015-05-15T00:00:00+00:00\tbuy milk\n\n1\tonly\ttwo\n1\twork\t2023-11-14T22:13:20+00:00\tb\n";
    let tasks = parse_tasks(content);
    assert_eq!(tasks.len(), 2);
    assert_eq!(tasks[0].text, "buy milk");
    assert!(!tasks[0].done);
    assert_eq!(tasks[1].text, "b");
    assert_eq!(tasks[1].folder, "work");
    assert!(tasks[1].done);
}

#[test]
fn parse_of_nothing_is_an_empty_store() {
    assert!(parse_tasks("").is_empty());
    assert!(parse_tasks("\n\n").is_empty());
}

#[test]
fn parse_takes_a_last_line_without_line_feed() {
    let tasks = parse_tasks("0\ta\t2015-05-15T00:00:00+00:00\tone\n0\tb\t2015-05-15T00:00:00+00:00\ttwo");
    assert_eq!(tasks.len(), 2);
    assert_eq!(tasks[1].text, "two");
}

#[test]
fn parse_drops_the_carriage_return_before_a_line_feed() {
    let tasks = parse_tasks("0\ta\t2015-05-15T00:00:00+00:00\tone\r\n0\tb\t2015-05-15T00:00:00+00:00\ttwo\r");
    assert_eq!(tasks[0].text, "one");
    assert_eq!(tasks[1].text, "two\r");
}

#[test]
fn round_trip_keeps_flag_folder_text_and_second() {
    let tasks = vec![
        task("buy milk", "inbox", false, 1_431_648_000),
        task("text with\ttabs\tinside", "my folder", true, 1_700_000_000),
        task("", "", false, 0),
        task("  spaces kept  ", "Ünïcode", true, 951_782_400),
    ];
    let reloaded = parse_tasks(&serialize_tasks(&tasks));
    assert_eq!(reloaded.len(), tasks.len());
    for (a, b) in tasks.iter().zip(reloaded.iter()) {
        assert_eq!(a.done, b.done);
        assert_eq!(a.folder, b.folder);
        assert_eq!(a.text, b.text);
        assert_eq!(a.created_at.seconds(), b.created_at.seconds());
    }
}

#[test]
fn round_trip_keeps_the_fraction_of_a_second() {
    let mut one = task("a", "inbox", false, 1_700_000_000);
    one.created_at = Timestamp::new(1_700_000_000, 123_456_789, 7200).unwrap();
    let reloaded = parse_tasks(&serialize_tasks(&vec![one]));
    assert_eq!(reloaded[0].created_at.seconds(), 1_700_000_000);
    assert_eq!(reloaded[0].created_at.nanoseconds(), 123_456_789);
}

#[test]
fn a_line_feed_in_a_text_breaks_the_record() {
    let tasks = vec![task("two\nlines", "inbox", false, 1_431_648_000)];
    let reloaded = parse_tasks(&serialize_tasks(&tasks));
    assert_eq!(reloaded.len(), 1);
    assert_eq!(reloaded[0].text, "two");
}
