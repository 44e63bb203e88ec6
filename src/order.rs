use vstd::prelude::*;
use vstd::string::StrSliceExecFns;

use crate::task::{date_le, same_date, Date, Status, Task, TaskView};

verus! {

broadcast use vstd::seq_lib::group_to_multiset_ensures;

/// Lexicographic order on texts, by code point (the order of `str`'s `Ord`).
pub open spec fn lex_le(a: Seq<char>, b: Seq<char>) -> bool
    decreases a.len(),
{
    if a.len() == 0 {
        true
    } else if b.len() == 0 {
        false
    } else if (a[0] as u32) != (b[0] as u32) {
        (a[0] as u32) < (b[0] as u32)
    } else {
        lex_le(a.drop_first(), b.drop_first())
    }
}

pub proof fn lemma_lex_total(a: Seq<char>, b: Seq<char>)
    ensures
        lex_le(a, b) || lex_le(b, a),
    decreases a.len(),
{
    if a.len() > 0 && b.len() > 0 && (a[0] as u32) == (b[0] as u32) {
        lemma_lex_total(a.drop_first(), b.drop_first());
    }
}

pub proof fn lemma_lex_trans(a: Seq<char>, b: Seq<char>, c: Seq<char>)
    requires
        lex_le(a, b),
        lex_le(b, c),
    ensures
        lex_le(a, c),
    decreases a.len(),
{
    if a.len() > 0 && b.len() > 0 && c.len() > 0 && (a[0] as u32) == (b[0] as u32) && (b[0] as u32) == (c[0] as u32) {
        lemma_lex_trans(a.drop_first(), b.drop_first(), c.drop_first());
    }
}

/// The finish date that orders a task in the archive.
pub open spec fn finish_date(t: TaskView) -> Option<Date> {
    match t.status {
        Status::Finished(d) => d,
        Status::Started => None,
    }
}

/// Archive order: by finish date, tasks without one after all that have one; then by subject.
pub open spec fn precedes(a: TaskView, b: TaskView) -> bool {
    match (finish_date(a), finish_date(b)) {
        (Some(x), Some(y)) => if x == y {
            lex_le(a.subject, b.subject)
        } else {
            date_le(x, y)
        },
        (Some(_), None) => true,
        (None, Some(_)) => false,
        (None, None) => lex_le(a.subject, b.subject),
    }
}

pub proof fn lemma_precedes_total(a: TaskView, b: TaskView)
    ensures
        precedes(a, b) || precedes(b, a),
{
    lemma_lex_total(a.subject, b.subject);
}

pub proof fn lemma_precedes_trans(a: TaskView, b: TaskView, c: TaskView)
    requires
        precedes(a, b),
        precedes(b, c),
    ensures
        precedes(a, c),
{
    if lex_le(a.subject, b.subject) && lex_le(b.subject, c.subject) {
        lemma_lex_trans(a.subject, b.subject, c.subject);
    }
}

/// The views of a sequence of tasks.
pub open spec fn views(s: Seq<Task>) -> Seq<TaskView> {
    s.map_values(|t: Task| t@)
}

/// Each task precedes every task after it.
pub open spec fn sorted(s: Seq<TaskView>) -> bool {
    forall|i: int, j: int| 0 <= i < j < s.len() ==> precedes(s[i], s[j])
}

/// The sequence with every repeated task removed after its first occurrence.
pub open spec fn dedup(s: Seq<TaskView>) -> Seq<TaskView>
    decreases s.len(),
{
    if s.len() == 0 {
        s
    } else {
        let d = dedup(s.drop_last());
        if d.contains(s.last()) {
            d
        } else {
            d.push(s.last())
        }
    }
}

/// Whether text `a` comes at or before text `b`, character by character.
pub fn subject_le(a: &String, b: &String) -> (r: bool)
    ensures
        r == lex_le(a@, b@),
{
    let sa = a.as_str();
    let sb = b.as_str();
    let na = sa.unicode_len();
    let nb = sb.unicode_len();
    let mut i: usize = 0;
    assert(a@.subrange(0, na as int) =~= a@);
    assert(b@.subrange(0, nb as int) =~= b@);
    while i < na && i < nb
        invariant
            i <= na,
            i <= nb,
            na == a@.len(),
            nb == b@.len(),
            sa@ == a@,
            sb@ == b@,
            lex_le(a@, b@) == lex_le(a@.subrange(i as int, na as int), b@.subrange(i as int, nb as int)),
        decreases na - i,
    {
        let ca = sa.get_char(i);
        let cb = sb.get_char(i);
        if (ca as u32) != (cb as u32) {
            return (ca as u32) < (cb as u32);
        }
        assert(a@.subrange(i as int, na as int).drop_first() =~= a@.subrange(i + 1, na as int));
        assert(b@.subrange(i as int, nb as int).drop_first() =~= b@.subrange(i + 1, nb as int));
        i += 1;
    }
    i == na
}

fn finish_of(t: &Task) -> (r: Option<Date>)
    ensures
        r == finish_date(t@),
{
    match t.status {
        Status::Finished(d) => d,
        Status::Started => None,
    }
}

/// Whether task `a` may stand before task `b` in the archive.
pub fn task_precedes(a: &Task, b: &Task) -> (r: bool)
    ensures
        r == precedes(a@, b@),
{
    let da = finish_of(a);
    let db = finish_of(b);
    match (da, db) {
        (Some(x), Some(y)) => if same_date(da, db) {
            subject_le(&a.subject, &b.subject)
        } else {
            x.year < y.year || (x.year == y.year && (x.month < y.month || (x.month == y.month
                && x.day <= y.day)))
        },
        (Some(_), None) => true,
        (None, Some(_)) => false,
        (None, None) => subject_le(&a.subject, &b.subject),
    }
}

proof fn lemma_views_insert(s: Seq<Task>, p: int, x: Task)
    requires
        0 <= p <= s.len(),
    ensures
        views(s.insert(p, x)) == views(s).insert(p, x@),
{
    assert(views(s.insert(p, x)) =~= views(s).insert(p, x@));
}

/// Insert `x` into a sorted sequence after every task that precedes it.
fn insert_sorted(out: &mut Vec<Task>, x: Task)
    requires
        sorted(views(old(out)@)),
    ensures
        sorted(views(final(out)@)),
        views(final(out)@).to_multiset() == views(old(out)@).to_multiset().insert(x@),
{
    let mut p: usize = 0;
    let mut found = false;
    while !found && p < out.len()
        invariant
            p <= out@.len(),
            forall|j: int| 0 <= j < p ==> precedes(out@[j]@, x@),
            found ==> p < out@.len() && !precedes(out@[p as int]@, x@),
        decreases out@.len() - p, if found { 0int } else { 1int },
    {
        if task_precedes(&out[p], &x) {
            p += 1;
        } else {
            found = true;
        }
    }
    let ghost s = views(out@);
    let ghost xv = x@;
    proof {
        if p < s.len() {
            lemma_precedes_total(s[p as int], xv);
        }
        assert forall|k: int| p <= k < s.len() implies precedes(xv, #[trigger] s[k]) by {
            if k > p {
                lemma_precedes_trans(xv, s[p as int], s[k]);
            }
        }
    }
    out.insert(p, x);
    proof {
        lemma_views_insert(old(out)@, p as int, out@[p as int]);
        let n = views(out@);
        assert(n == s.insert(p as int, xv));
        assert forall|i: int, j: int| 0 <= i < j < n.len() implies precedes(n[i], n[j]) by {
            if i < p && j > p {
                assert(precedes(xv, s[j - 1]));
                lemma_precedes_trans(n[i], xv, n[j]);
            } else if i == p {
                assert(precedes(xv, s[j - 1]));
            }
        }
    }
}

/// Sort tasks into archive order.
pub fn sort_tasks(v: Vec<Task>) -> (r: Vec<Task>)
    ensures
        sorted(views(r@)),
        views(r@).to_multiset() == views(v@).to_multiset(),
{
    let ghost orig = v@;
    let mut v = v;
    let mut out: Vec<Task> = Vec::new();
    while v.len() > 0
        invariant
            sorted(views(out@)),
            views(out@).to_multiset().add(views(v@).to_multiset()) == views(orig).to_multiset(),
        decreases v@.len(),
    {
        let ghost before = v@;
        let x = v.pop().unwrap();
        proof {
            assert(views(before) =~= views(v@).push(x@));
        }
        insert_sorted(&mut out, x);
    }
    proof {
        assert(views(v@) =~= Seq::<TaskView>::empty());
        assert(views(out@).to_multiset() =~= views(out@).to_multiset().add(views(v@).to_multiset()));
    }
    out
}

proof fn lemma_dedup_step(s: Seq<TaskView>, i: int)
    requires
        0 <= i < s.len(),
    ensures
        dedup(s.take(i + 1)) == if dedup(s.take(i)).contains(s[i]) {
            dedup(s.take(i))
        } else {
            dedup(s.take(i)).push(s[i])
        },
{
    assert(s.take(i + 1).drop_last() =~= s.take(i));
}

/// `dedup` keeps each task of the sequence exactly once, and adds none.
pub proof fn lemma_dedup_props(s: Seq<TaskView>)
    ensures
        dedup(s).no_duplicates(),
        forall|x: TaskView| dedup(s).contains(x) <==> s.contains(x),
    decreases s.len(),
{
    if s.len() > 0 {
        let t = s.drop_last();
        lemma_dedup_props(t);
        let d = dedup(t);
        assert forall|x: TaskView| s.contains(x) <==> (t.contains(x) || x == s.last()) by {
            if s.contains(x) {
                let w = choose|w: int| 0 <= w < s.len() && s[w] == x;
                if w < t.len() {
                    assert(t[w] == x);
                }
            }
            if t.contains(x) {
                let w = choose|w: int| 0 <= w < t.len() && t[w] == x;
                assert(s[w] == x);
            }
            if x == s.last() {
                assert(s[s.len() - 1] == x);
            }
        }
        if !d.contains(s.last()) {
            let n = d.push(s.last());
            assert forall|x: TaskView| n.contains(x) <==> (d.contains(x) || x == s.last()) by {
                if n.contains(x) {
                    let w = choose|w: int| 0 <= w < n.len() && n[w] == x;
                    if w < d.len() {
                        assert(d[w] == x);
                    }
                }
                if d.contains(x) {
                    let w = choose|w: int| 0 <= w < d.len() && d[w] == x;
                    assert(n[w] == x);
                }
                if x == s.last() {
                    assert(n[n.len() - 1] == x);
                }
            }
            assert forall|i: int, j: int| 0 <= i < n.len() && 0 <= j < n.len() && i != j implies n[i]
                != n[j] by {
                if i == d.len() && n[i] == n[j] {
                    assert(d[j] == s.last());
                    assert(d.contains(s.last()));
                } else if j == d.len() && n[i] == n[j] {
                    assert(d[i] == s.last());
                    assert(d.contains(s.last()));
                } else if i < d.len() && j < d.len() {
                    assert(n[i] == d[i] && n[j] == d[j]);
                }
            }
        }
    }
}

/// Remove every task that equals one before it; the others keep their order.
pub fn dedup_tasks(v: &Vec<Task>) -> (r: Vec<Task>)
    ensures
        views(r@) == dedup(views(v@)),
        views(r@).no_duplicates(),
        forall|x: TaskView| views(r@).contains(x) <==> views(v@).contains(x),
        sorted(views(v@)) ==> sorted(views(r@)),
{
    let ghost sv = views(v@);
    let mut out: Vec<Task> = Vec::new();
    let mut i: usize = 0;
    while i < v.len()
        invariant
            i <= v@.len(),
            sv == views(v@),
            views(out@) == dedup(sv.take(i as int)),
            sorted(sv) ==> sorted(views(out@)),
        decreases v@.len() - i,
    {
        proof {
            lemma_dedup_step(sv, i as int);
        }
        let mut k: usize = 0;
        let mut seen = false;
        while !seen && k < out.len()
            invariant
                k <= out@.len(),
                sv == views(v@),
                i < v@.len(),
                forall|j: int| 0 <= j < k ==> out@[j]@ != v@[i as int]@,
                seen ==> k < out@.len() && out@[k as int]@ == v@[i as int]@,
            decreases out@.len() - k, if seen { 0int } else { 1int },
        {
            if out[k] == v[i] {
                seen = true;
            } else {
                k += 1;
            }
        }
        let ghost o = views(out@);
        if seen {
            assert(o[k as int] == sv[i as int]);
            assert(o.contains(sv[i as int]));
        } else {
            assert(!o.contains(sv[i as int])) by {
                if o.contains(sv[i as int]) {
                    let w = choose|w: int| 0 <= w < o.len() && o[w] == sv[i as int];
                    assert(out@[w]@ == v@[i as int]@);
                }
            }
            out.push(v[i].duplicate());
            proof {
                assert(views(out@) =~= o.push(sv[i as int]));
                if sorted(sv) {
                    lemma_dedup_props(sv.take(i as int));
                    lemma_lex_refl(sv[i as int].subject);
                    let n = views(out@);
                    assert forall|a: int, b: int| 0 <= a < b < n.len() implies precedes(
                        n[a],
                        n[b],
                    ) by {
                        if b == o.len() {
                            assert(sv.take(i as int).contains(o[a]));
                            let w = choose|w: int|
                                0 <= w < i && sv.take(i as int)[w] == o[a];
                            assert(sv[w] == o[a]);
                        }
                    }
                }
            }
        }
        i += 1;
    }
    proof {
        assert(sv.take(v@.len() as int) =~= sv);
        lemma_dedup_props(sv);
    }
    out
}

pub proof fn lemma_lex_refl(a: Seq<char>)
    ensures
        lex_le(a, a),
    decreases a.len(),
{
    if a.len() > 0 {
        lemma_lex_refl(a.drop_first());
    }
}

/// However many copies of a task came in, the deduplicated archive holds it exactly once.
pub proof fn lemma_dedup_single(s: Seq<TaskView>, x: TaskView)
    requires
        s.contains(x),
    ensures
        dedup(s).to_multiset().count(x) == 1,
{
    lemma_dedup_props(s);
    dedup(s).lemma_multiset_has_no_duplicates();
    assert(dedup(s).to_multiset().contains(x));
}

} // verus!
