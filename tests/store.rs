use giskard::config::{Config, TaskFileConfig};
use giskard::task_file::IndexError;
use giskard::{Date, Status, Task, TaskFile};

fn lines(text: &str) -> Vec<String> {
    text.lines().map(|l| l.to_string()).collect()
}

fn subjects(tasks: &[Task]) -> Vec<String> {
    tasks.iter().map(|t| t.subject.clone()).collect()
}

fn active_subjects(f: &TaskFile) -> Vec<String> {
    f.tasks().into_iter().map(|(_, t)| t.subject.clone()).collect()
}

#[test]
fn scenario_store_order() {
    let text = "x C\n(A) buy milk\nx 2024-01-02 2023-12-01 wash car\nx A\nx 2024-01-01 2023-12-01 feed cat\nx B";
    let f = TaskFile::open("todo.txt".to_string(), Some("done.txt".to_string()), &lines(text)).unwrap();
    assert_eq!(active_subjects(&f), vec!["buy milk"]);
    assert_eq!(subjects(f.archive()), vec!["feed cat", "wash car", "A", "B", "C"]);
    assert_eq!(f.archive()[0].status, Status::Finished(Some(Date { year: 2024, month: 1, day: 1 })));
}

#[test]
fn scenario_with_the_todo_txt_grammar() {
    let text = "A\nx @home\nB\n(A) buy milk\nx 2024-01-02 wash car\nC\nx 2024-01-01 feed cat";
    let f = TaskFile::open("todo.txt".to_string(), None, &lines(text)).unwrap();
    assert_eq!(active_subjects(&f), vec!["A", "B", "buy milk", "C"]);
    assert_eq!(subjects(f.archive()), vec!["@home", "feed cat", "wash car"]);
}

#[test]
fn partition_after_reload() {
    let text = "x done one\nopen one\nx 2024-02-02 2024-01-01 done two\nopen two";
    let f = TaskFile::open("t".to_string(), Some("d".to_string()), &lines(text)).unwrap();
    for (_, t) in f.tasks() {
        assert_eq!(t.status, Status::Started);
    }
    for t in f.archive() {
        assert!(t.is_done());
    }
    assert_eq!(f.tasks().len(), 2);
    assert_eq!(f.archive().len(), 2);
}

#[test]
fn same_date_ties_break_by_subject() {
    let text = "x 2024-01-01 2023-01-01 zebra\nx 2024-01-01 2023-01-01 apple\nx 2023-06-01 2023-01-01 mango";
    let f = TaskFile::open("t".to_string(), None, &lines(text)).unwrap();
    assert_eq!(subjects(f.archive()), vec!["mango", "apple", "zebra"]);
}

#[test]
fn identical_finished_records_kept_once() {
    let text = "x 2024-01-01 2023-01-01 same\nx other\nx 2024-01-01 2023-01-01 same";
    let f = TaskFile::open("t".to_string(), Some("d".to_string()), &lines(text)).unwrap();
    assert_eq!(subjects(f.archive()), vec!["same", "other"]);
}

#[test]
fn reload_merges_into_pending_archive() {
    let mut f = TaskFile::open("t".to_string(), Some("d".to_string()), &lines("x b\nkeep")).unwrap();
    f.reload(&lines("x a\nx b\nnew")).unwrap();
    assert_eq!(subjects(f.archive()), vec!["a", "b"]);
    assert_eq!(active_subjects(&f), vec!["new"]);
}

#[test]
fn flush_twice_appends_once() {
    let mut f = TaskFile::open("t".to_string(), Some("d".to_string()), &lines("x b\nkeep\nx a")).unwrap();
    let first = f.flush();
    f.archived();
    assert_eq!(first.task_file, "t");
    assert_eq!(first.task_lines, vec!["keep"]);
    assert_eq!(first.done_file, Some("d".to_string()));
    assert_eq!(first.done_lines, vec!["x a", "x b"]);
    let second = f.flush();
    f.archived();
    assert_eq!(second.task_lines, first.task_lines);
    assert!(second.done_lines.is_empty());
    assert!(f.archive().is_empty());
}

#[test]
fn same_file_keeps_archive() {
    let mut f = TaskFile::open("t".to_string(), Some("t".to_string()), &lines("x b\nkeep\nx a")).unwrap();
    let out = f.flush();
    f.archived();
    assert_eq!(out.done_file, Some("t".to_string()));
    let mut all = out.task_lines.clone();
    all.extend(out.done_lines.clone());
    assert_eq!(all, vec!["keep", "x a", "x b"]);
    assert_eq!(f.archive().len(), 2);
}

#[test]
fn no_done_file_discards() {
    let mut f = TaskFile::open("t".to_string(), None, &lines("x b\nkeep")).unwrap();
    let out = f.flush();
    f.archived();
    assert_eq!(out.done_file, None);
    assert!(out.done_lines.is_empty());
    assert!(f.archive().is_empty());
}

#[test]
fn add_returns_last_index() {
    let mut f = TaskFile::open("t".to_string(), None, &lines("one\ntwo")).unwrap();
    let idx = f.add(Task::parse("three").unwrap());
    assert_eq!(idx, 2);
    let tasks = f.tasks();
    assert_eq!(tasks.len(), 3);
    assert_eq!(tasks[2].0, 2);
    assert_eq!(tasks[2].1.subject, "three");
}

#[test]
fn delete_shifts_later_tasks() {
    let mut f = TaskFile::open("t".to_string(), None, &lines("one\ntwo\nthree")).unwrap();
    assert_eq!(f.delete(1), Ok(()));
    let tasks = f.tasks();
    assert_eq!(tasks.len(), 2);
    assert_eq!((tasks[0].0, tasks[0].1.subject.as_str()), (0, "one"));
    assert_eq!((tasks[1].0, tasks[1].1.subject.as_str()), (1, "three"));
}

#[test]
fn delete_out_of_range() {
    let mut f = TaskFile::open("t".to_string(), None, &lines("one")).unwrap();
    assert_eq!(f.delete(1), Err(IndexError));
    assert_eq!(f.tasks().len(), 1);
}

#[test]
fn empty_file() {
    let mut f = TaskFile::open("t".to_string(), Some("d".to_string()), &Vec::new()).unwrap();
    assert!(f.tasks().is_empty());
    let out = f.flush();
    assert!(out.task_lines.is_empty());
    assert!(out.done_lines.is_empty());
}

fn cfg(name: &str, done: Option<&str>, discard: bool) -> TaskFileConfig {
    TaskFileConfig {
        name: name.to_string(),
        task_file: format!("{}.txt", name),
        done_file: done.map(|d| d.to_string()),
        discard_done: discard,
    }
}

#[test]
fn archive_path_choice() {
    assert_eq!(cfg("a", Some("done.txt"), true).archive_path(), Some("done.txt".to_string()));
    assert_eq!(cfg("a", None, false).archive_path(), Some("a.txt".to_string()));
    assert_eq!(cfg("a", None, true).archive_path(), None);
}

#[test]
fn select_task_file() {
    let c = Config { taskfiles: vec![cfg("work", None, false), cfg("home", None, false)] };
    assert_eq!(c.select(None), Some(0));
    assert_eq!(c.select(Some(&"home".to_string())), Some(1));
    assert_eq!(c.select(Some(&"gym".to_string())), None);
    let empty = Config { taskfiles: Vec::new() };
    assert_eq!(empty.select(None), None);
}

#[test]
fn identical_records_apart_in_key_order_kept_once() {
    let text = "x 2024-01-01 2023-01-01 same\nx (B) 2024-01-01 2023-01-01 same\nx 2024-01-01 2023-01-01 same";
    let f = TaskFile::open("t".to_string(), Some("d".to_string()), &lines(text)).unwrap();
    assert_eq!(f.archive().len(), 2);
    let plain = f.archive().iter().filter(|t| t.priority == 26).count();
    let marked = f.archive().iter().filter(|t| t.priority == 1).count();
    assert_eq!((plain, marked), (1, 1));
}

#[test]
fn flush_alone_keeps_archive_buffer() {
    let f = TaskFile::open("t".to_string(), Some("d".to_string()), &lines("x a\nkeep")).unwrap();
    let out = f.flush();
    assert_eq!(out.done_lines, vec!["x a"]);
    assert_eq!(f.archive().len(), 1);
    assert_eq!(f.flush().done_lines, vec!["x a"]);
    assert_eq!(f.filename(), "t");
}
