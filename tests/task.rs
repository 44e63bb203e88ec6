use giskard::ls::priority_letter;
use giskard::task::Record;
use giskard::{Date, Status, Task};

fn date(year: i32, month: u32, day: u32) -> Date {
    Date { year, month, day }
}

#[test]
fn parse_finished_with_two_dates() {
    let t = Task::parse("x 2024-01-02 2023-12-01 wash car").unwrap();
    assert_eq!(t.subject, "wash car");
    assert_eq!(t.status, Status::Finished(Some(date(2024, 1, 2))));
    assert_eq!(t.creation_date, Some(date(2023, 12, 1)));
    assert!(t.is_done());
}

#[test]
fn parse_single_date_after_mark_is_creation_date() {
    let t = Task::parse("x 2024-01-02 wash car").unwrap();
    assert_eq!(t.status, Status::Finished(None));
    assert_eq!(t.creation_date, Some(date(2024, 1, 2)));
}

#[test]
fn parse_priority_and_markers() {
    let t = Task::parse("(A) buy milk @home +shop #food due:2024-03-04 aisle:5").unwrap();
    assert_eq!(t.priority, 0);
    assert_eq!(t.status, Status::Started);
    assert!(!t.is_done());
    assert_eq!(t.contexts, vec!["home".to_string()]);
    assert_eq!(t.projects, vec!["shop".to_string()]);
    assert_eq!(t.hashtags, vec!["food".to_string()]);
    assert_eq!(t.due_date, Some(date(2024, 3, 4)));
    assert_eq!(t.tags, vec![("aisle".to_string(), "5".to_string())]);
    assert_eq!(t.subject, "buy milk @home +shop #food");
}

#[test]
fn parse_without_priority() {
    let t = Task::parse("feed cat").unwrap();
    assert_eq!(t.priority, 26);
    assert_eq!(t.subject, "feed cat");
    assert_eq!(t.creation_date, None);
}

#[test]
fn render_canonical_lines() {
    assert_eq!(Task::parse("x 2024-01-02 2023-12-01 wash car").unwrap().render(), "x 2024-01-02 2023-12-01 wash car");
    assert_eq!(Task::parse("(B) call mum").unwrap().render(), "(B) call mum");
    assert_eq!(Task::parse("2023-05-06 plan trip").unwrap().render(), "2023-05-06 plan trip");
}

#[test]
fn render_differs_from_subject() {
    let t = Task::parse("(C) read book").unwrap();
    assert_ne!(t.render(), t.subject);
}

#[test]
fn round_trip_parse_render_parse() {
    let lines = [
        "x 2024-01-02 2023-12-01 wash car",
        "(A) buy milk @home +shop",
        "x @home",
        "2023-01-01 pay rent due:2023-02-01 t:2023-01-15 k:v",
        "plain words",
    ];
    for line in lines.iter() {
        let t = Task::parse(*line).unwrap();
        let again = Task::parse(t.render().as_str()).unwrap();
        assert!(again == t, "{}", line);
    }
}

#[test]
fn record_round_trip() {
    let t = Task::parse("x 2024-01-02 2023-12-01 wash car +home").unwrap();
    let back = Task::from_record(t.to_record());
    assert!(back == t);
    let r: Record = t.to_record();
    assert!(r.finished);
    assert_eq!(r.finish_date, Some(date(2024, 1, 2)));
}

#[test]
fn equality_sees_every_field() {
    let a = Task::parse("x 2024-01-02 2023-12-01 wash car").unwrap();
    let b = Task::parse("x 2024-01-02 2023-12-01 wash car k:v").unwrap();
    assert!(a != b);
    assert!(a == a.duplicate());
}

#[test]
fn priority_letters() {
    assert_eq!(priority_letter(0), 'A');
    assert_eq!(priority_letter(25), 'Z');
    assert_eq!(priority_letter(26), ' ');
}

#[test]
fn render_keeps_every_tag_and_date() {
    let t = Task::parse("pay rent zeta:1 alpha:2 due:2024-02-29").unwrap();
    assert_eq!(t.tags, vec![("alpha".to_string(), "2".to_string()), ("zeta".to_string(), "1".to_string())]);
    assert_eq!(t.render(), "pay rent due:2024-02-29 alpha:2 zeta:1");
}
