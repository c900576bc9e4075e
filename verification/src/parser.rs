//! Parsing a whole multi-line input: splitting into lines, skipping
//! blank ones, and iterating the resulting tasks from either end.

use vstd::prelude::*;
use vstd::seq_lib::*;

use crate::date::Date;
use crate::priority::Priority;
use crate::task::lemma_plain_line;
use crate::task::parse_task_at;
use crate::task::step_date;
use crate::task::step_priority;
use crate::task::State;
use crate::task::Task;
use crate::task::TaskView;
use crate::text::first_non_ws;
use crate::text::is_ws;
use crate::text::lemma_first_non_ws_bounds;
use crate::text::lemma_trim_len;
use crate::text::lemma_trim_of_trimmed;
use crate::text::trim;
use crate::text::trim_spec;

verus! {

/// The first position at or after `i` holding a line feed, or the length
/// of `s` when none follows.
pub open spec fn find_nl(s: Seq<char>, i: int) -> int
    recommends
        0 <= i <= s.len(),
    decreases s.len() - i,
{
    if i < 0 || i >= s.len() || s[i] == '\n' {
        i
    } else {
        find_nl(s, i + 1)
    }
}

pub proof fn lemma_find_nl_bounds(s: Seq<char>, i: int)
    requires
        0 <= i <= s.len(),
    ensures
        i <= find_nl(s, i) <= s.len(),
        forall|k: int| i <= k < find_nl(s, i) ==> s[k] != '\n',
        find_nl(s, i) < s.len() ==> s[find_nl(s, i)] == '\n',
    decreases s.len() - i,
{
    if i < s.len() && s[i] != '\n' {
        lemma_find_nl_bounds(s, i + 1);
    }
}

/// The lines of `s` from position `i` on: the segments between line
/// feeds, in order, the line feeds themselves excluded.
pub open spec fn lines_from(s: Seq<char>, i: int) -> Seq<Seq<char>>
    recommends
        0 <= i <= s.len(),
    decreases s.len() - i,
    via lines_from_decreases
{
    let j = find_nl(s, i);
    if j >= s.len() {
        seq![s.subrange(i, s.len() as int)]
    } else {
        seq![s.subrange(i, j)] + lines_from(s, j + 1)
    }
}

#[via_fn]
proof fn lines_from_decreases(s: Seq<char>, i: int) {
    if 0 <= i <= s.len() {
        lemma_find_nl_bounds(s, i);
    }
}

/// All the lines of an input.
pub open spec fn lines_of(s: Seq<char>) -> Seq<Seq<char>> {
    lines_from(s, 0)
}

/// The views of a sequence of owned lines.
pub open spec fn views_of(lines: Seq<String>) -> Seq<Seq<char>> {
    lines.map_values(|l: String| l@)
}

/// The tasks one line contributes: none when the line trims to nothing,
/// else the task its trimmed form parses to.
pub open spec fn line_tasks(l: Seq<char>) -> Seq<TaskView> {
    if trim_spec(l).len() == 0 {
        Seq::empty()
    } else {
        seq![parse_task_at(trim_spec(l))]
    }
}

/// The tasks of a sequence of lines, in order: each line trimmed, blank
/// lines contributing nothing, every other line parsed.
pub open spec fn tasks_from_lines(ls: Seq<Seq<char>>) -> Seq<TaskView>
    decreases ls.len(),
{
    if ls.len() == 0 {
        Seq::empty()
    } else {
        line_tasks(ls[0]) + tasks_from_lines(ls.drop_first())
    }
}

/// The tasks of a whole multi-line input, in line order.
pub open spec fn tasks_of(input: Seq<char>) -> Seq<TaskView> {
    tasks_from_lines(lines_of(input))
}

/// Appending a line appends exactly that line's tasks.
pub proof fn lemma_tasks_from_lines_snoc(ls: Seq<Seq<char>>, l: Seq<char>)
    ensures
        tasks_from_lines(ls.push(l)) == tasks_from_lines(ls) + line_tasks(l),
    decreases ls.len(),
{
    if ls.len() == 0 {
        assert(ls.push(l)[0] == l);
        assert(ls.push(l).drop_first() =~= Seq::<Seq<char>>::empty());
        assert(tasks_from_lines(ls.push(l).drop_first()) == Seq::<TaskView>::empty());
        assert(tasks_from_lines(ls.push(l)) =~= tasks_from_lines(ls) + line_tasks(l));
    } else {
        lemma_tasks_from_lines_snoc(ls.drop_first(), l);
        assert(ls.push(l).drop_first() =~= ls.drop_first().push(l));
        assert(tasks_from_lines(ls.push(l)) =~= tasks_from_lines(ls) + line_tasks(l));
    }
}

/// A blank line — all whitespace, anywhere among an input's lines —
/// produces no task: removing it leaves the tasks unchanged.
pub proof fn lemma_blank_line_no_task(ls: Seq<Seq<char>>, i: int)
    requires
        0 <= i < ls.len(),
        forall|k: int| 0 <= k < ls[i].len() ==> is_ws(ls[i][k]),
    ensures
        tasks_from_lines(ls.remove(i)) == tasks_from_lines(ls),
    decreases ls.len(),
{
    lemma_first_non_ws_bounds(ls[i], 0);
    assert(first_non_ws(ls[i], 0) == ls[i].len());
    lemma_trim_len(ls[i]);
    if i == 0 {
        assert(ls.remove(0) =~= ls.drop_first());
        assert(line_tasks(ls[0]) =~= Seq::<TaskView>::empty());
        assert(tasks_from_lines(ls.remove(0)) =~= tasks_from_lines(ls));
    } else {
        lemma_blank_line_no_task(ls.drop_first(), i - 1);
        assert(ls.remove(i).drop_first() =~= ls.drop_first().remove(i - 1));
        assert(ls.remove(i)[0] == ls[0]);
        assert(tasks_from_lines(ls.remove(i)) =~= tasks_from_lines(ls));
    }
}

/// A line that opens with no completion marker, no priority field and no
/// date field contributes exactly one minimal incomplete task, whose
/// description is the whole trimmed line.
pub proof fn lemma_plain_line_tasks(line: Seq<char>)
    requires
        line.len() > 0,
        !is_ws(line[0]),
        !is_ws(line[line.len() - 1]),
        !(line[0] == 'x' && 1 < line.len() && is_ws(line[1])),
        step_priority(line, 0) == (Option::<Priority>::None, 0int),
        step_date(line, 0) == (Option::<Date>::None, 0int),
    ensures
        line_tasks(line) == seq![
            TaskView { state: State::Incomplete(None, None), text: line },
        ],
{
    lemma_trim_of_trimmed(line);
    lemma_plain_line(line);
    assert(line_tasks(line) =~= seq![
        TaskView { state: State::Incomplete(None, None), text: line },
    ]);
}

/// Walking an input's tasks backwards yields exactly the forward order
/// reversed: the task met after `i` steps from the back is the one met
/// after `i` steps from the front of the reversed sequence, which
/// [`Iter::collect_all_rev`] returns.
pub proof fn lemma_reverse_iteration(input: Seq<char>)
    ensures
        tasks_of(input).reverse().len() == tasks_of(input).len(),
        forall|i: int|
            0 <= i < tasks_of(input).len() ==> tasks_of(input).reverse()[i] == tasks_of(
                input,
            )[tasks_of(input).len() - 1 - i],
{
}

/// The views of a sequence of tasks.
pub open spec fn task_views(ts: Seq<Task>) -> Seq<TaskView> {
    ts.map_values(|t: Task| t@)
}

/// Provides methods for types that can be used as parser input.
pub trait Input: View<V = Seq<char>> {
    /// Returns an iterator over the tasks contained in `self`: each
    /// non-blank line trimmed and parsed, in line order.
    fn tasks(&self) -> (it: Iter)
        ensures
            it.wf(),
            it@ == tasks_of(self@),
    ;
}

impl Input for str {
    fn tasks(&self) -> (it: Iter) {
        Iter::new(self)
    }
}

/// An iterator over the tasks of a given input.
///
/// Lines are trimmed, blank lines are skipped, and every other line
/// parses to one task. The iterator walks from either end: each line's
/// task is self-contained, so the back is reached without touching the
/// front.
#[derive(Debug)]
pub struct Iter {
    lines: Vec<String>,
    front: usize,
    back: usize,
}

impl View for Iter {
    type V = Seq<TaskView>;

    /// The tasks not yet yielded from either end, in line order.
    closed spec fn view(&self) -> Seq<TaskView> {
        tasks_from_lines(views_of(self.lines@).subrange(self.front as int, self.back as int))
    }
}

impl Iter {
    /// The cursors sit inside the stored lines.
    pub closed spec fn wf(self) -> bool {
        self.front <= self.back <= self.lines@.len()
    }

    /// Builds an iterator over every task of `input`.
    pub fn new(input: &str) -> (it: Iter)
        ensures
            it.wf(),
            it@ == tasks_of(input@),
    {
        let ghost s = input@;
        let n = input.unicode_len();
        let mut lines: Vec<String> = Vec::new();
        let mut pos: usize = 0;
        loop
            invariant_except_break
                pos <= n,
                n == s.len(),
                s == input@,
                lines_of(s) == views_of(lines@) + lines_from(s, pos as int),
            ensures
                s == input@,
                lines_of(s) == views_of(lines@),
            decreases n - pos,
        {
            let j = scan_newline(input, pos);
            let segment = input.substring_char(pos, j).to_owned();
            lines.push(segment);
            proof {
                assert(views_of(lines@) =~= views_of(lines@.drop_last()) + seq![
                    s.subrange(pos as int, j as int),
                ]);
            }
            if j == n {
                proof {
                    assert(lines_of(s) =~= views_of(lines@));
                }
                break ;
            }
            proof {
                assert(lines_of(s) =~= views_of(lines@) + lines_from(s, j + 1));
            }
            pos = j + 1;
        }
        let back = lines.len();
        let it = Iter { lines, front: 0, back };
        proof {
            assert(views_of(it.lines@).subrange(0, it.back as int) =~= views_of(it.lines@));
        }
        it
    }

    /// Yields the next task from the front: the first pending line that
    /// does not trim to nothing, trimmed and parsed. Returns `None` once
    /// nothing is pending.
    pub fn next(&mut self) -> (r: Option<Task>)
        requires
            old(self).wf(),
        ensures
            final(self).wf(),
            match r {
                Some(t) => old(self)@.len() > 0 && t@ == old(self)@[0] && final(self)@ == old(
                    self,
                )@.drop_first(),
                None => old(self)@.len() == 0 && final(self)@.len() == 0,
            },
    {
        loop
            invariant
                self.wf(),
                tasks_from_lines(
                    views_of(self.lines@).subrange(self.front as int, self.back as int),
                ) == old(self)@,
            decreases self.back - self.front,
        {
            if self.front == self.back {
                return None;
            }
            let front = self.front;
            let ghost pending = views_of(self.lines@).subrange(front as int, self.back as int);
            proof {
                assert(pending[0] == self.lines@[front as int]@);
                assert(pending.drop_first() =~= views_of(self.lines@).subrange(
                    front as int + 1,
                    self.back as int,
                ));
            }
            let parsed: Option<Task> = {
                let trimmed = trim(self.lines[front].as_str());
                if trimmed.unicode_len() > 0 {
                    Some(Task::parse(trimmed))
                } else {
                    None
                }
            };
            self.front = front + 1;
            match parsed {
                Some(t) => {
                    proof {
                        assert(old(self)@.drop_first() =~= self@);
                    }
                    return Some(t);
                },
                None => {},
            }
        }
    }

    /// Yields the next task from the back: the last pending line that
    /// does not trim to nothing, trimmed and parsed. Returns `None` once
    /// nothing is pending.
    pub fn next_back(&mut self) -> (r: Option<Task>)
        requires
            old(self).wf(),
        ensures
            final(self).wf(),
            match r {
                Some(t) => old(self)@.len() > 0 && t@ == old(self)@.last() && final(self)@ == old(
                    self,
                )@.drop_last(),
                None => old(self)@.len() == 0 && final(self)@.len() == 0,
            },
    {
        loop
            invariant
                self.wf(),
                tasks_from_lines(
                    views_of(self.lines@).subrange(self.front as int, self.back as int),
                ) == old(self)@,
            decreases self.back - self.front,
        {
            if self.front == self.back {
                return None;
            }
            let last = self.back - 1;
            let ghost pending = views_of(self.lines@).subrange(self.front as int, self.back as int);
            let ghost shorter = views_of(self.lines@).subrange(self.front as int, last as int);
            proof {
                assert(pending =~= shorter.push(self.lines@[last as int]@));
                lemma_tasks_from_lines_snoc(shorter, self.lines@[last as int]@);
            }
            let parsed: Option<Task> = {
                let trimmed = trim(self.lines[last].as_str());
                if trimmed.unicode_len() > 0 {
                    Some(Task::parse(trimmed))
                } else {
                    None
                }
            };
            self.back = last;
            match parsed {
                Some(t) => {
                    proof {
                        assert(old(self)@.drop_last() =~= self@);
                    }
                    return Some(t);
                },
                None => {},
            }
        }
    }

    /// Collects every pending task in forward order, leaving the
    /// iterator exhausted.
    pub fn collect_all(&mut self) -> (r: Vec<Task>)
        requires
            old(self).wf(),
        ensures
            final(self).wf(),
            task_views(r@) == old(self)@,
    {
        let mut out: Vec<Task> = Vec::new();
        loop
            invariant
                self.wf(),
                old(self)@ == task_views(out@) + self@,
            decreases self@.len(),
        {
            match self.next() {
                Some(t) => {
                    out.push(t);
                    proof {
                        assert(old(self)@ =~= task_views(out@) + self@);
                    }
                },
                None => {
                    proof {
                        assert(old(self)@ =~= task_views(out@));
                    }
                    return out;
                },
            }
        }
    }

    /// Collects every pending task in backward order — the exact reverse
    /// of the forward order — leaving the iterator exhausted.
    pub fn collect_all_rev(&mut self) -> (r: Vec<Task>)
        requires
            old(self).wf(),
        ensures
            final(self).wf(),
            task_views(r@) == old(self)@.reverse(),
    {
        let mut out: Vec<Task> = Vec::new();
        loop
            invariant
                self.wf(),
                old(self)@ == self@ + task_views(out@).reverse(),
            decreases self@.len(),
        {
            match self.next_back() {
                Some(t) => {
                    out.push(t);
                    proof {
                        assert(task_views(out@) =~= task_views(out@.drop_last()).push(t@));
                        assert(task_views(out@).reverse() =~= seq![t@] + task_views(
                            out@.drop_last(),
                        ).reverse());
                        assert(old(self)@ =~= self@ + task_views(out@).reverse());
                    }
                },
                None => {
                    proof {
                        assert(old(self)@ =~= task_views(out@).reverse());
                        assert(old(self)@.reverse() =~= task_views(out@));
                    }
                    return out;
                },
            }
        }
    }
}

/// Advances `i` to the next line feed of `s`, or to its end.
fn scan_newline(s: &str, i: usize) -> (r: usize)
    requires
        i <= s@.len(),
    ensures
        r == find_nl(s@, i as int),
        i <= r <= s@.len(),
{
    let n = s.unicode_len();
    let mut j = i;
    while j < n && s.get_char(j) != '\n'
        invariant
            i <= j <= n,
            n == s@.len(),
            find_nl(s@, i as int) == find_nl(s@, j as int),
        decreases n - j,
    {
        j = j + 1;
    }
    j
}

} // verus!
