use std::str::FromStr;

use chrono::Datelike;
use vstd::prelude::*;

use crate::order::lex_le;

verus! {

/// A calendar date, held as year, month and day.
#[derive(Clone, Copy, Debug, PartialEq, Eq, Structural)]
pub struct Date {
    pub year: i32,
    pub month: u32,
    pub day: u32,
}

/// Chronological order on dates.
pub open spec fn date_le(a: Date, b: Date) -> bool {
    a.year < b.year || (a.year == b.year && (a.month < b.month || (a.month == b.month
        && a.day <= b.day)))
}

/// The number of days of a month, 1 to 12, in the proleptic Gregorian calendar.
pub open spec fn days_in_month(year: int, month: int) -> int {
    if month == 2 {
        if (year % 4 == 0 && year % 100 != 0) || year % 400 == 0 {
            29
        } else {
            28
        }
    } else if month == 4 || month == 6 || month == 9 || month == 11 {
        30
    } else {
        31
    }
}

/// A day that exists, within the years that chrono's `NaiveDate` can hold.
pub open spec fn valid_date(d: Date) -> bool {
    -262143 <= d.year <= 262142 && 1 <= d.month <= 12 && 1 <= d.day <= days_in_month(
        d.year as int,
        d.month as int,
    )
}

/// An absent date, or one that exists.
pub open spec fn valid_opt(d: Option<Date>) -> bool {
    match d {
        Some(x) => valid_date(x),
        None => true,
    }
}

/// Tag keys in strictly ascending order, so each key once.
pub open spec fn tags_ok(tags: Seq<(Seq<char>, Seq<char>)>) -> bool {
    forall|i: int, j: int|
        0 <= i < j < tags.len() ==> lex_le(tags[i].0, tags[j].0) && tags[i].0 != tags[j].0
}

/// Where a task stands.
#[derive(Clone, Copy, Debug, PartialEq, Eq, Structural)]
pub enum Status {
    /// The task is started.
    Started,
    /// The task is finished, with an optional finish date.
    Finished(Option<Date>),
}

/// A task line in the flat shape of the todo.txt format: a done flag beside a finish date.
#[derive(Debug)]
pub struct Record {
    pub subject: String,
    pub priority: u8,
    pub create_date: Option<Date>,
    pub finish_date: Option<Date>,
    pub finished: bool,
    pub threshold_date: Option<Date>,
    pub due_date: Option<Date>,
    pub contexts: Vec<String>,
    pub projects: Vec<String>,
    pub hashtags: Vec<String>,
    /// Key/value tags, in ascending key order.
    pub tags: Vec<(String, String)>,
}

/// A task with its metadata.
#[derive(Debug)]
pub struct Task {
    pub subject: String,
    /// 0 to 25 for the letters A to Z; any larger value means no priority.
    pub priority: u8,
    pub creation_date: Option<Date>,
    pub status: Status,
    pub threshold_date: Option<Date>,
    pub due_date: Option<Date>,
    pub contexts: Vec<String>,
    pub projects: Vec<String>,
    pub hashtags: Vec<String>,
    /// Key/value tags, in ascending key order.
    pub tags: Vec<(String, String)>,
}

/// The contents of a `Record`, as mathematical values.
pub struct RecordView {
    pub subject: Seq<char>,
    pub priority: u8,
    pub create_date: Option<Date>,
    pub finish_date: Option<Date>,
    pub finished: bool,
    pub threshold_date: Option<Date>,
    pub due_date: Option<Date>,
    pub contexts: Seq<Seq<char>>,
    pub projects: Seq<Seq<char>>,
    pub hashtags: Seq<Seq<char>>,
    pub tags: Seq<(Seq<char>, Seq<char>)>,
}

/// The contents of a `Task`, as mathematical values.
pub struct TaskView {
    pub subject: Seq<char>,
    pub priority: u8,
    pub creation_date: Option<Date>,
    pub status: Status,
    pub threshold_date: Option<Date>,
    pub due_date: Option<Date>,
    pub contexts: Seq<Seq<char>>,
    pub projects: Seq<Seq<char>>,
    pub hashtags: Seq<Seq<char>>,
    pub tags: Seq<(Seq<char>, Seq<char>)>,
}

pub open spec fn strs(v: Seq<String>) -> Seq<Seq<char>> {
    v.map_values(|s: String| s@)
}

pub open spec fn pairs(v: Seq<(String, String)>) -> Seq<(Seq<char>, Seq<char>)> {
    v.map_values(|p: (String, String)| (p.0@, p.1@))
}

impl View for Record {
    type V = RecordView;

    open spec fn view(&self) -> RecordView {
        RecordView {
            subject: self.subject@,
            priority: self.priority,
            create_date: self.create_date,
            finish_date: self.finish_date,
            finished: self.finished,
            threshold_date: self.threshold_date,
            due_date: self.due_date,
            contexts: strs(self.contexts@),
            projects: strs(self.projects@),
            hashtags: strs(self.hashtags@),
            tags: pairs(self.tags@),
        }
    }
}

impl View for Task {
    type V = TaskView;

    open spec fn view(&self) -> TaskView {
        TaskView {
            subject: self.subject@,
            priority: self.priority,
            creation_date: self.creation_date,
            status: self.status,
            threshold_date: self.threshold_date,
            due_date: self.due_date,
            contexts: strs(self.contexts@),
            projects: strs(self.projects@),
            hashtags: strs(self.hashtags@),
            tags: pairs(self.tags@),
        }
    }
}

/// The status that a record's done flag and finish date stand for.
pub open spec fn status_of(finished: bool, finish_date: Option<Date>) -> Status {
    if finished {
        Status::Finished(finish_date)
    } else {
        Status::Started
    }
}

/// The task that a record describes.
pub open spec fn task_of(r: RecordView) -> TaskView {
    TaskView {
        subject: r.subject,
        priority: r.priority,
        creation_date: r.create_date,
        status: status_of(r.finished, r.finish_date),
        threshold_date: r.threshold_date,
        due_date: r.due_date,
        contexts: r.contexts,
        projects: r.projects,
        hashtags: r.hashtags,
        tags: r.tags,
    }
}

/// The record that describes a task.
pub open spec fn record_of(t: TaskView) -> RecordView {
    RecordView {
        subject: t.subject,
        priority: t.priority,
        create_date: t.creation_date,
        finish_date: match t.status {
            Status::Finished(d) => d,
            Status::Started => None,
        },
        finished: t.status is Finished,
        threshold_date: t.threshold_date,
        due_date: t.due_date,
        contexts: t.contexts,
        projects: t.projects,
        hashtags: t.hashtags,
        tags: t.tags,
    }
}

/// A record whose dates exist and whose tag keys ascend, as the todo.txt format holds them.
pub open spec fn record_ok(r: RecordView) -> bool {
    valid_opt(r.create_date) && valid_opt(r.finish_date) && valid_opt(r.threshold_date)
        && valid_opt(r.due_date) && tags_ok(r.tags)
}

/// A task that can be written as a record without loss.
pub open spec fn task_ok(t: TaskView) -> bool {
    record_ok(record_of(t))
}

/// Every task of the sequence can be written without loss.
pub open spec fn all_ok(s: Seq<TaskView>) -> bool {
    forall|i: int| 0 <= i < s.len() ==> task_ok(#[trigger] s[i])
}

/// What the todo.txt grammar makes of a line: `None` where it refuses the line.
pub uninterp spec fn parsed(line: Seq<char>) -> Option<RecordView>;

/// The canonical todo.txt line of a record.
pub uninterp spec fn rendered(r: RecordView) -> Seq<char>;

/// A calendar date of chrono, carried opaquely between the todo.txt crate and `Date`.
#[verifier::external_type_specification]
#[verifier::external_body]
pub struct ExNaiveDate(chrono::NaiveDate);

/// Relies on `chrono::NaiveDate::from_ymd_opt`, which gives `None` for a day that does not exist.
#[verifier::external_body]
fn naive_date(d: Date) -> (r: Option<chrono::NaiveDate>) {
    chrono::NaiveDate::from_ymd_opt(d.year, d.month, d.day)
}

/// Relies on chrono's `Datelike` accessors of `NaiveDate`, which only holds days that exist,
/// in years from `MIN_YEAR` (-262143) to `MAX_YEAR` (262142).
#[verifier::external_body]
fn date_of(d: chrono::NaiveDate) -> (r: Date)
    ensures
        valid_date(r),
{
    Date { year: d.year(), month: d.month(), day: d.day() }
}

/// Relies on `todo_txt::Task::from_str`: the todo.txt grammar, which yields a record or refuses.
/// Its dates are chrono's, and its tags come out of a `BTreeMap`, in ascending key order.
#[verifier::external_body]
fn parse_record(line: &str) -> (r: Option<Record>)
    ensures
        match r {
            Some(rec) => parsed(line@) == Some(rec@) && record_ok(rec@),
            None => parsed(line@).is_none(),
        },
{
    let t = todo_txt::Task::from_str(line).ok()?;
    Some(Record {
        subject: t.subject,
        priority: t.priority,
        create_date: t.create_date.map(date_of),
        finish_date: t.finish_date.map(date_of),
        finished: t.finished,
        threshold_date: t.threshold_date.map(date_of),
        due_date: t.due_date.map(date_of),
        contexts: t.contexts,
        projects: t.projects,
        hashtags: t.hashtags,
        tags: t.tags.into_iter().collect(),
    })
}

/// Relies on the `Display` impl of `todo_txt::Task`: the canonical line of a record.
#[verifier::external_body]
fn render_record(r: Record) -> (s: String)
    requires
        record_ok(r@),
    ensures
        s@ == rendered(r@),
{
    let raw = todo_txt::Task {
        subject: r.subject,
        priority: r.priority,
        create_date: r.create_date.and_then(naive_date),
        finish_date: r.finish_date.and_then(naive_date),
        finished: r.finished,
        threshold_date: r.threshold_date.and_then(naive_date),
        due_date: r.due_date.and_then(naive_date),
        contexts: r.contexts,
        projects: r.projects,
        hashtags: r.hashtags,
        tags: r.tags.into_iter().collect(),
    };
    raw.to_string()
}

/// The line could not be read as a todo.txt record.
#[derive(Clone, Copy, Debug, PartialEq, Eq, Structural)]
pub struct MalformedRecord;

fn clone_strs(v: &Vec<String>) -> (r: Vec<String>)
    ensures
        strs(r@) == strs(v@),
{
    let mut r: Vec<String> = Vec::new();
    let mut i: usize = 0;
    while i < v.len()
        invariant
            i <= v@.len(),
            r@.len() == i,
            forall|j: int| 0 <= j < i ==> r@[j]@ == v@[j]@,
        decreases v@.len() - i,
    {
        r.push(v[i].clone());
        i += 1;
    }
    assert(strs(r@) =~= strs(v@));
    r
}

fn clone_pairs(v: &Vec<(String, String)>) -> (r: Vec<(String, String)>)
    ensures
        pairs(r@) == pairs(v@),
{
    let mut r: Vec<(String, String)> = Vec::new();
    let mut i: usize = 0;
    while i < v.len()
        invariant
            i <= v@.len(),
            r@.len() == i,
            forall|j: int| 0 <= j < i ==> r@[j].0@ == v@[j].0@ && r@[j].1@ == v@[j].1@,
        decreases v@.len() - i,
    {
        r.push((v[i].0.clone(), v[i].1.clone()));
        i += 1;
    }
    assert(pairs(r@) =~= pairs(v@));
    r
}

fn same_strs(a: &Vec<String>, b: &Vec<String>) -> (r: bool)
    ensures
        r == (strs(a@) == strs(b@)),
{
    if a.len() != b.len() {
        assert(strs(a@).len() != strs(b@).len());
        return false;
    }
    let mut i: usize = 0;
    while i < a.len()
        invariant
            i <= a@.len(),
            a@.len() == b@.len(),
            forall|j: int| 0 <= j < i ==> a@[j]@ == b@[j]@,
        decreases a@.len() - i,
    {
        if a[i] != b[i] {
            assert(strs(a@)[i as int] != strs(b@)[i as int]);
            return false;
        }
        i += 1;
    }
    assert(strs(a@) =~= strs(b@));
    true
}

fn same_pairs(a: &Vec<(String, String)>, b: &Vec<(String, String)>) -> (r: bool)
    ensures
        r == (pairs(a@) == pairs(b@)),
{
    if a.len() != b.len() {
        assert(pairs(a@).len() != pairs(b@).len());
        return false;
    }
    let mut i: usize = 0;
    while i < a.len()
        invariant
            i <= a@.len(),
            a@.len() == b@.len(),
            forall|j: int| 0 <= j < i ==> a@[j].0@ == b@[j].0@ && a@[j].1@ == b@[j].1@,
        decreases a@.len() - i,
    {
        if a[i].0 != b[i].0 || a[i].1 != b[i].1 {
            assert(pairs(a@)[i as int] != pairs(b@)[i as int]);
            return false;
        }
        i += 1;
    }
    assert(pairs(a@) =~= pairs(b@));
    true
}

pub(crate) fn same_date(a: Option<Date>, b: Option<Date>) -> (r: bool)
    ensures
        r == (a == b),
{
    match (a, b) {
        (None, None) => true,
        (Some(x), Some(y)) => x.year == y.year && x.month == y.month && x.day == y.day,
        _ => false,
    }
}

fn same_status(a: Status, b: Status) -> (r: bool)
    ensures
        r == (a == b),
{
    match (a, b) {
        (Status::Started, Status::Started) => true,
        (Status::Finished(x), Status::Finished(y)) => same_date(x, y),
        _ => false,
    }
}

impl Task {
    /// The task that a record describes: the done flag and finish date become a status.
    pub fn from_record(r: Record) -> (t: Task)
        ensures
            t@ == task_of(r@),
    {
        let status = if r.finished {
            Status::Finished(r.finish_date)
        } else {
            Status::Started
        };
        Task {
            subject: r.subject,
            priority: r.priority,
            creation_date: r.create_date,
            status,
            threshold_date: r.threshold_date,
            due_date: r.due_date,
            contexts: r.contexts,
            projects: r.projects,
            hashtags: r.hashtags,
            tags: r.tags,
        }
    }

    /// The record that describes the task: its status becomes a done flag and a finish date.
    pub fn to_record(&self) -> (r: Record)
        ensures
            r@ == record_of(self@),
    {
        let (finished, finish_date) = match self.status {
            Status::Started => (false, None),
            Status::Finished(date) => (true, date),
        };
        Record {
            subject: self.subject.clone(),
            priority: self.priority,
            create_date: self.creation_date,
            finish_date,
            finished,
            threshold_date: self.threshold_date,
            due_date: self.due_date,
            contexts: clone_strs(&self.contexts),
            projects: clone_strs(&self.projects),
            hashtags: clone_strs(&self.hashtags),
            tags: clone_pairs(&self.tags),
        }
    }

    /// Parse a task from one line of the todo.txt format.
    pub fn parse(txt: &str) -> (r: Result<Task, MalformedRecord>)
        ensures
            match r {
                Ok(t) => parsed(txt@) is Some && t@ == task_of(parsed(txt@).unwrap()) && task_ok(t@),
                Err(_) => parsed(txt@) is None,
            },
    {
        match parse_record(txt) {
            Some(rec) => Ok(Task::from_record(rec)),
            None => Err(MalformedRecord),
        }
    }

    /// The canonical todo.txt line of the task.
    pub fn render(&self) -> (s: String)
        requires
            task_ok(self@),
        ensures
            s@ == rendered(record_of(self@)),
    {
        render_record(self.to_record())
    }

    /// Whether the task is finished.
    pub fn is_done(&self) -> (r: bool)
        ensures
            r == (self.status is Finished),
    {
        if let Status::Finished(_) = self.status {
            true
        } else {
            false
        }
    }

    /// A copy of the task.
    pub fn duplicate(&self) -> (t: Task)
        ensures
            t@ == self@,
    {
        Task::from_record(self.to_record())
    }
}

impl PartialEq for Task {
    fn eq(&self, o: &Task) -> (r: bool) {
        self.subject == o.subject && self.priority == o.priority && same_date(
            self.creation_date,
            o.creation_date,
        ) && same_status(self.status, o.status) && same_date(self.threshold_date, o.threshold_date)
            && same_date(self.due_date, o.due_date) && same_strs(&self.contexts, &o.contexts)
            && same_strs(&self.projects, &o.projects) && same_strs(&self.hashtags, &o.hashtags)
            && same_pairs(&self.tags, &o.tags)
    }
}

impl vstd::std_specs::cmp::PartialEqSpecImpl for Task {
    open spec fn obeys_eq_spec() -> bool {
        true
    }

    open spec fn eq_spec(&self, o: &Task) -> bool {
        self@ == o@
    }
}

/// A task turned into its record and back is the same task; a record whose finish date
/// stands only beside the done flag survives the trip the other way.
pub proof fn lemma_record_round_trip(t: TaskView, r: RecordView)
    ensures
        task_of(record_of(t)) == t,
        r.finished || r.finish_date is None ==> record_of(task_of(r)) == r,
{
}

} // verus!
