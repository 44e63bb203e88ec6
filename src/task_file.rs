use vstd::prelude::*;

use crate::order::{dedup, dedup_tasks, finish_date, precedes, sort_tasks, sorted, views};
use crate::task::{
    all_ok, date_le, parsed, record_of, rendered, task_of, task_ok, MalformedRecord, Task, TaskView,
};

verus! {

broadcast use vstd::seq_lib::group_to_multiset_ensures;

/// Representation of a todo.txt task file and its optional done file.
///
/// The store holds the unfinished tasks read from the task file, and a buffer of finished
/// tasks that wait to be archived. Without a done file the finished tasks are discarded; a
/// done file equal to the task file keeps them in the task file, after the unfinished ones.
///
/// Positions in the task list identify tasks only until the next `reload`.
pub struct TaskFile {
    filename: String,
    done_file: Option<String>,
    tasks: Vec<Task>,
    done: Vec<Task>,
}

/// The contents of a `TaskFile`, as mathematical values.
pub struct TaskFileView {
    pub filename: Seq<char>,
    pub done_file: Option<Seq<char>>,
    pub tasks: Seq<TaskView>,
    pub done: Seq<TaskView>,
}

/// The index given to `delete` is past the end of the task list.
#[derive(Clone, Copy, Debug, PartialEq, Eq, Structural)]
pub struct IndexError;

/// What a flush writes: the whole task file, then the lines appended to the done file.
pub struct Flush {
    /// The task file, to be overwritten.
    pub task_file: String,
    /// Its new contents, one line per unfinished task.
    pub task_lines: Vec<String>,
    /// The done file, if any, to be appended to.
    pub done_file: Option<String>,
    /// The lines to append to it, one per archived task; empty without a done file.
    pub done_lines: Vec<String>,
}

/// The contents of a `Flush`, as mathematical values.
pub struct FlushView {
    pub task_file: Seq<char>,
    pub task_lines: Seq<Seq<char>>,
    pub done_file: Option<Seq<char>>,
    pub done_lines: Seq<Seq<char>>,
}

impl View for TaskFile {
    type V = TaskFileView;

    closed spec fn view(&self) -> TaskFileView {
        TaskFileView {
            filename: self.filename@,
            done_file: match self.done_file {
                Some(d) => Some(d@),
                None => None,
            },
            tasks: views(self.tasks@),
            done: views(self.done@),
        }
    }
}

impl View for Flush {
    type V = FlushView;

    open spec fn view(&self) -> FlushView {
        FlushView {
            task_file: self.task_file@,
            task_lines: self.task_lines@.map_values(|s: String| s@),
            done_file: match self.done_file {
                Some(d) => Some(d@),
                None => None,
            },
            done_lines: self.done_lines@.map_values(|s: String| s@),
        }
    }
}

/// The unfinished tasks of a sequence, in order.
pub open spec fn started(s: Seq<TaskView>) -> Seq<TaskView>
    decreases s.len(),
{
    if s.len() == 0 {
        s
    } else if s.last().status is Started {
        started(s.drop_last()).push(s.last())
    } else {
        started(s.drop_last())
    }
}

/// The finished tasks of a sequence, in order.
pub open spec fn finished(s: Seq<TaskView>) -> Seq<TaskView>
    decreases s.len(),
{
    if s.len() == 0 {
        s
    } else if s.last().status is Finished {
        finished(s.drop_last()).push(s.last())
    } else {
        finished(s.drop_last())
    }
}

/// Every line of the file is a todo.txt record.
pub open spec fn all_parse(lines: Seq<Seq<char>>) -> bool {
    forall|i: int| 0 <= i < lines.len() ==> (#[trigger] parsed(lines[i])) is Some
}

/// The tasks that the lines of a file describe.
pub open spec fn tasks_of(lines: Seq<Seq<char>>) -> Seq<TaskView> {
    lines.map_values(|l: Seq<char>| task_of(parsed(l).unwrap()))
}

/// The canonical lines of a sequence of tasks.
pub open spec fn lines_of(s: Seq<TaskView>) -> Seq<Seq<char>> {
    s.map_values(|t: TaskView| rendered(record_of(t)))
}

/// `s` holds the tasks of an archive and of newly finished tasks, each as often, in archive order.
pub open spec fn merged(archive: Seq<TaskView>, done: Seq<TaskView>, s: Seq<TaskView>) -> bool {
    sorted(s) && s.to_multiset() == (archive + done).to_multiset()
}

/// Whether the done file is the task file itself.
pub open spec fn same_file(st: TaskFileView) -> bool {
    st.done_file == Some(st.filename)
}

/// What a flush of the store writes.
pub open spec fn flush_out(st: TaskFileView) -> FlushView {
    FlushView {
        task_file: st.filename,
        task_lines: lines_of(st.tasks),
        done_file: st.done_file,
        done_lines: if st.done_file is Some {
            lines_of(st.done)
        } else {
            Seq::empty()
        },
    }
}

/// The store after a flush: the archive buffer is kept only when the done file is the task file.
pub open spec fn after_flush(st: TaskFileView) -> TaskFileView {
    TaskFileView {
        done: if same_file(st) {
            st.done
        } else {
            Seq::empty()
        },
        ..st
    }
}

/// Every task of the archive buffer is finished, and the buffer is in archive order.
pub open spec fn archive_ok(done: Seq<TaskView>) -> bool {
    sorted(done) && forall|i: int| 0 <= i < done.len() ==> (#[trigger] done[i]).status is Finished
}

fn strings_of(v: &Vec<Task>) -> (r: Vec<String>)
    requires
        all_ok(views(v@)),
    ensures
        r@.map_values(|s: String| s@) == lines_of(views(v@)),
{
    let mut r: Vec<String> = Vec::new();
    let mut i: usize = 0;
    while i < v.len()
        invariant
            i <= v@.len(),
            r@.len() == i,
            all_ok(views(v@)),
            forall|j: int| 0 <= j < i ==> (#[trigger] r@[j])@ == rendered(record_of(v@[j]@)),
        decreases v@.len() - i,
    {
        assert(task_ok(views(v@)[i as int]));
        r.push(v[i].render());
        i += 1;
    }
    assert(r@.map_values(|s: String| s@) =~= lines_of(views(v@)));
    r
}

impl TaskFile {
    pub open spec fn wf(&self) -> bool {
        archive_ok(self@.done) && all_ok(self@.done) && all_ok(self@.tasks)
    }

    /// Open a task file, given its lines, and its optional done file.
    pub fn open(path: String, done_file: Option<String>, lines: &Vec<String>) -> (r: Result<
        TaskFile,
        MalformedRecord,
    >)
        ensures
            match r {
                Ok(f) => {
                    &&& all_parse(lines@.map_values(|l: String| l@))
                    &&& f.wf()
                    &&& f@.filename == path@
                    &&& f@.done_file == match done_file {
                        Some(d) => Some(d@),
                        None => None,
                    }
                    &&& f@.tasks == started(tasks_of(lines@.map_values(|l: String| l@)))
                    &&& exists|s: Seq<TaskView>|
                        merged(
                            Seq::empty(),
                            finished(tasks_of(lines@.map_values(|l: String| l@))),
                            s,
                        ) && f@.done == dedup(s)
                    &&& f@.done.no_duplicates()
                    &&& forall|x: TaskView| #[trigger] f@.done.contains(x) <==> finished(
                        tasks_of(lines@.map_values(|l: String| l@)),
                    ).contains(x)
                },
                Err(_) => !all_parse(lines@.map_values(|l: String| l@)),
            },
    {
        let mut me = TaskFile { filename: path, done_file, tasks: Vec::new(), done: Vec::new() };
        assert(me@.done =~= Seq::<TaskView>::empty());
        match me.reload(lines) {
            Ok(()) => Ok(me),
            Err(e) => Err(e),
        }
    }

    /// Read the task file again from its lines.
    ///
    /// Unflushed changes to the task list are lost. The finished tasks join the archive
    /// buffer, which is then sorted and rid of repeated tasks. On a line that is no
    /// todo.txt record nothing changes.
    pub fn reload(&mut self, lines: &Vec<String>) -> (r: Result<(), MalformedRecord>)
        requires
            old(self).wf(),
        ensures
            final(self).wf(),
            final(self)@.filename == old(self)@.filename,
            final(self)@.done_file == old(self)@.done_file,
            match r {
                Ok(()) => {
                    &&& all_parse(lines@.map_values(|l: String| l@))
                    &&& final(self)@.tasks == started(tasks_of(lines@.map_values(|l: String| l@)))
                    &&& forall|i: int| 0 <= i < final(self)@.tasks.len()
                        ==> (#[trigger] final(self)@.tasks[i]).status is Started
                    &&& exists|s: Seq<TaskView>|
                        merged(
                            old(self)@.done,
                            finished(tasks_of(lines@.map_values(|l: String| l@))),
                            s,
                        ) && final(self)@.done == dedup(s)
                    &&& final(self)@.done.no_duplicates()
                    &&& forall|x: TaskView| #[trigger] final(self)@.done.contains(x) <==> (old(
                        self,
                    )@.done + finished(tasks_of(lines@.map_values(|l: String| l@)))).contains(x)
                },
                Err(_) => {
                    &&& !all_parse(lines@.map_values(|l: String| l@))
                    &&& final(self)@ == old(self)@
                },
            },
    {
        let ghost ls = lines@.map_values(|l: String| l@);
        let mut all: Vec<Task> = Vec::new();
        let mut i: usize = 0;
        while i < lines.len()
            invariant
                i <= lines@.len(),
                ls == lines@.map_values(|l: String| l@),
                self.wf(),
                self@ == old(self)@,
                all_parse(ls.take(i as int)),
                views(all@) == tasks_of(ls.take(i as int)),
                all_ok(views(all@)),
            decreases lines@.len() - i,
        {
            match Task::parse(lines[i].as_str()) {
                Ok(t) => {
                    let ghost a = all@;
                    all.push(t);
                    proof {
                        assert(ls.take(i + 1) =~= ls.take(i as int).push(ls[i as int]));
                        assert(views(all@) =~= views(a).push(all@.last()@));
                        assert(tasks_of(ls.take(i + 1)) =~= tasks_of(ls.take(i as int)).push(
                            task_of(parsed(ls[i as int]).unwrap()),
                        ));
                        assert forall|k: int| 0 <= k < i + 1 implies (#[trigger] parsed(
                            ls.take(i + 1)[k],
                        )) is Some by {
                            if k < i {
                                assert(ls.take(i + 1)[k] == ls.take(i as int)[k]);
                            }
                        }
                    }
                    i += 1;
                },
                Err(e) => {
                    proof {
                        assert(!(parsed(ls[i as int]) is Some));
                    }
                    return Err(e);
                },
            }
        }
        proof {
            assert(ls.take(lines@.len() as int) =~= ls);
        }
        let ghost va = views(all@);
        let mut tasks: Vec<Task> = Vec::new();
        let mut fresh: Vec<Task> = Vec::new();
        let mut j: usize = 0;
        while j < all.len()
            invariant
                j <= all@.len(),
                va == views(all@),
                views(tasks@) == started(va.take(j as int)),
                views(fresh@) == finished(va.take(j as int)),
                all_ok(va),
                all_ok(views(tasks@)),
                all_ok(views(fresh@)),
                forall|k: int| 0 <= k < tasks@.len() ==> (#[trigger] tasks@[k]@).status is Started,
            decreases all@.len() - j,
        {
            proof {
                assert(va.take(j + 1).drop_last() =~= va.take(j as int));
            }
            assert(task_ok(va[j as int]));
            let t = all[j].duplicate();
            if t.is_done() {
                let ghost f = fresh@;
                fresh.push(t);
                proof {
                    assert(views(fresh@) =~= views(f).push(va[j as int]));
                }
            } else {
                let ghost g = tasks@;
                tasks.push(t);
                proof {
                    assert(views(tasks@) =~= views(g).push(va[j as int]));
                }
            }
            j += 1;
        }
        proof {
            assert(va.take(all@.len() as int) =~= va);
        }
        let ghost before = views(self.done@);
        let mut pending: Vec<Task> = Vec::new();
        std::mem::swap(&mut pending, &mut self.done);
        let ghost p0 = views(pending@);
        let mut k: usize = 0;
        while k < fresh.len()
            invariant
                k <= fresh@.len(),
                views(pending@) == p0 + views(fresh@).take(k as int),
                all_ok(views(pending@)),
                all_ok(views(fresh@)),
            decreases fresh@.len() - k,
        {
            assert(task_ok(views(fresh@)[k as int]));
            let ghost p = pending@;
            pending.push(fresh[k].duplicate());
            proof {
                assert(views(pending@) =~= views(p).push(fresh@[k as int]@));
                assert(views(fresh@).take(k + 1) =~= views(fresh@).take(k as int).push(
                    fresh@[k as int]@,
                ));
            }
            k += 1;
        }
        proof {
            assert(views(fresh@).take(fresh@.len() as int) =~= views(fresh@));
        }
        let sorted_done = sort_tasks(pending);
        let deduped = dedup_tasks(&sorted_done);
        proof {
            lemma_finished_all(va);
            let s = views(sorted_done@);
            assert forall|q: int| 0 <= q < s.len() implies (#[trigger] s[q]).status is Finished
                && task_ok(s[q]) by {
                assert(s.to_multiset().count(s[q]) > 0);
                assert((before + views(fresh@)).to_multiset().count(s[q]) > 0);
                let all2 = before + views(fresh@);
                assert(all2.contains(s[q]));
                let w = choose|w: int| 0 <= w < all2.len() && all2[w] == s[q];
                if w < before.len() {
                    assert(all2[w] == before[w]);
                } else {
                    assert(all2[w] == views(fresh@)[w - before.len()]);
                }
            }
            assert(merged(before, finished(va), s));
            let d = views(deduped@);
            let all3 = before + finished(va);
            assert forall|x: TaskView| #[trigger] d.contains(x) <==> all3.contains(x) by {
                assert(s.contains(x) == (s.to_multiset().count(x) > 0));
                assert(all3.contains(x) == (all3.to_multiset().count(x) > 0));
            }
            assert forall|q: int| 0 <= q < d.len() implies (#[trigger] d[q]).status is Finished
                && task_ok(d[q]) by {
                assert(d.contains(d[q]));
                assert(s.contains(d[q]));
            }
        }
        self.tasks = tasks;
        self.done = deduped;
        Ok(())
    }

    /// What a flush writes: the task file is overwritten with the task list, and the
    /// archive buffer is appended to the done file, if any. The store is left as it is; call
    /// `archived` once every write has succeeded.
    pub fn flush(&self) -> (r: Flush)
        requires
            self.wf(),
        ensures
            r@ == flush_out(self@),
    {
        let task_lines = strings_of(&self.tasks);
        let done_lines = match &self.done_file {
            Some(_) => strings_of(&self.done),
            None => Vec::new(),
        };
        let r = Flush {
            task_file: self.filename.clone(),
            task_lines,
            done_file: match &self.done_file {
                Some(d) => Some(d.clone()),
                None => None,
            },
            done_lines,
        };
        proof {
            assert(r@.done_lines =~= flush_out(self@).done_lines);
        }
        r
    }

    /// Record that a flush was written: the archive buffer is emptied, unless the done file is
    /// the task file, where emptying it would lose the finished tasks on the next flush.
    /// Without a done file the buffer is discarded.
    pub fn archived(&mut self)
        requires
            old(self).wf(),
        ensures
            final(self).wf(),
            final(self)@ == after_flush(old(self)@),
    {
        let keep = match &self.done_file {
            Some(d) => *d == self.filename,
            None => false,
        };
        if !keep {
            self.done = Vec::new();
        }
        proof {
            assert(self@.done =~= after_flush(old(self)@).done);
        }
    }

    /// The task file's path.
    pub fn filename(&self) -> (r: &String)
        ensures
            r@ == self@.filename,
    {
        &self.filename
    }

    /// The unfinished tasks, each with the index that identifies it until the next `reload`.
    pub fn tasks(&self) -> (r: Vec<(usize, &Task)>)
        ensures
            r@.len() == self@.tasks.len(),
            forall|i: int|
                0 <= i < r@.len() ==> (#[trigger] r@[i]).0 == i && r@[i].1@ == self@.tasks[i],
    {
        let mut r: Vec<(usize, &Task)> = Vec::new();
        let mut i: usize = 0;
        while i < self.tasks.len()
            invariant
                i <= self.tasks@.len(),
                r@.len() == i,
                forall|j: int|
                    0 <= j < i ==> (#[trigger] r@[j]).0 == j && r@[j].1@ == self.tasks@[j]@,
            decreases self.tasks@.len() - i,
        {
            r.push((i, &self.tasks[i]));
            i += 1;
        }
        r
    }

    /// The finished tasks that wait to be archived, in archive order.
    pub fn archive(&self) -> (r: &Vec<Task>)
        ensures
            views(r@) == self@.done,
    {
        &self.done
    }

    /// Add a task at the end of the list, and return its index.
    pub fn add(&mut self, task: Task) -> (r: usize)
        requires
            old(self).wf(),
            task_ok(task@),
            old(self)@.tasks.len() < usize::MAX,
        ensures
            final(self).wf(),
            r == old(self)@.tasks.len(),
            final(self)@ == (TaskFileView { tasks: old(self)@.tasks.push(task@), ..old(self)@ }),
    {
        let ghost t = task@;
        self.tasks.push(task);
        proof {
            assert(self@.tasks =~= old(self)@.tasks.push(t));
        }
        self.tasks.len() - 1
    }

    /// Delete the task at index `idx`; the tasks after it move down by one.
    pub fn delete(&mut self, idx: usize) -> (r: Result<(), IndexError>)
        requires
            old(self).wf(),
        ensures
            final(self).wf(),
            match r {
                Ok(()) => {
                    &&& idx < old(self)@.tasks.len()
                    &&& final(self)@ == (TaskFileView {
                        tasks: old(self)@.tasks.remove(idx as int),
                        ..old(self)@
                    })
                },
                Err(_) => idx >= old(self)@.tasks.len() && final(self)@ == old(self)@,
            },
    {
        if idx >= self.tasks.len() {
            return Err(IndexError);
        }
        self.tasks.remove(idx);
        proof {
            assert(self@.tasks =~= old(self)@.tasks.remove(idx as int));
        }
        Ok(())
    }
}

proof fn lemma_finished_all(s: Seq<TaskView>)
    ensures
        forall|i: int| 0 <= i < finished(s).len() ==> (#[trigger] finished(s)[i]).status is Finished,
    decreases s.len(),
{
    if s.len() > 0 {
        lemma_finished_all(s.drop_last());
    }
}

/// With a done file distinct from the task file, or none, a second flush that follows the
/// first writes the same task file and appends nothing, and changes nothing more.
pub proof fn lemma_flush_idempotent(st: TaskFileView)
    requires
        !same_file(st),
    ensures
        flush_out(after_flush(st)).task_lines == flush_out(st).task_lines,
        flush_out(after_flush(st)).done_lines.len() == 0,
        after_flush(after_flush(st)) == after_flush(st),
{
}

/// With the done file equal to the task file, a flush leaves in that one file the unfinished
/// tasks followed by the whole archive buffer, in archive order, and keeps the buffer.
pub proof fn lemma_same_file_flush(st: TaskFileView)
    requires
        same_file(st),
    ensures
        flush_out(st).done_file == Some(flush_out(st).task_file),
        flush_out(st).task_lines + flush_out(st).done_lines == lines_of(st.tasks + st.done),
        after_flush(st) == st,
{
    assert(lines_of(st.tasks) + lines_of(st.done) =~= lines_of(st.tasks + st.done));
}

/// In an archive in order, a task finished earlier stands before one finished later, and a
/// task with a finish date stands before every finished task without one.
pub proof fn lemma_archive_order(s: Seq<TaskView>, i: int, j: int)
    requires
        archive_ok(s),
        0 <= i < s.len(),
        0 <= j < s.len(),
    ensures
        finish_date(s[i]) is Some && finish_date(s[j]) is Some && finish_date(s[i])
            != finish_date(s[j]) && date_le(finish_date(s[i]).unwrap(), finish_date(s[j]).unwrap())
            ==> i < j,
        finish_date(s[i]) is Some && finish_date(s[j]) is None ==> i < j,
{
    if j < i {
        assert(precedes(s[j], s[i]));
    }
}

} // verus!
