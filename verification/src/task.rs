//! Tasks and the line grammar: the completion/priority/date prefix of a
//! line, and the task record it produces.

use vstd::prelude::*;

use crate::date::date_chars;
use crate::date::parse_date;
use crate::date::parse_date_at;
use crate::date::Date;
use crate::priority::parse_priority_at;
use crate::priority::Priority;
use crate::tags::tags_of;
use crate::tags::Tags;
use crate::text::first_non_ws;
use crate::text::is_whitespace;
use crate::text::is_ws;
use crate::text::skip_whitespace;

verus! {

/// The disjoint state of complete and incomplete tasks.
///
/// A complete task carries either both its completion and creation dates
/// or neither; an incomplete task carries an optional priority and an
/// optional creation date. Keeping the two shapes in one disjoint union
/// makes the illegal combinations — a priority on a complete task, a
/// completion date on an incomplete one — unrepresentable.
#[derive(Clone, Copy, Debug, Eq, PartialEq)]
#[allow(missing_docs)]
pub enum State {
    Complete(Option<(Date, Date)>),
    Incomplete(Option<Priority>, Option<Date>),
}

impl State {
    /// The completion date: the first of a complete task's date pair,
    /// `None` for an incomplete task.
    pub open spec fn spec_completion_date(self) -> Option<Date> {
        match self {
            State::Complete(Some((completion, _))) => Some(completion),
            _ => None,
        }
    }

    /// The creation date: the second of a complete task's date pair, or
    /// an incomplete task's own date.
    pub open spec fn spec_creation_date(self) -> Option<Date> {
        match self {
            State::Complete(Some((_, creation))) => Some(creation),
            State::Complete(None) => None,
            State::Incomplete(_, creation) => creation,
        }
    }

    /// The priority: only an incomplete task has one.
    pub open spec fn spec_priority(self) -> Option<Priority> {
        match self {
            State::Complete(_) => None,
            State::Incomplete(priority, _) => priority,
        }
    }

    /// Whether the state is the complete one.
    pub open spec fn spec_is_complete(self) -> bool {
        self is Complete
    }
}

/// Every date a state carries names a real calendar day.
pub open spec fn state_wf(st: State) -> bool {
    match st {
        State::Complete(Some((completion, creation))) => completion.wf() && creation.wf(),
        State::Complete(None) => true,
        State::Incomplete(_, Some(creation)) => creation.wf(),
        State::Incomplete(_, None) => true,
    }
}

/// The position after the whitespace run that must follow a consumed
/// grammar token at `j`, or `None` when no whitespace follows — in which
/// case the token itself is a grammar non-match.
pub open spec fn ws_after(s: Seq<char>, j: int) -> Option<int> {
    if 0 <= j < s.len() && is_ws(s[j]) {
        Some(first_non_ws(s, j))
    } else {
        None
    }
}

/// The date pair of a complete task read at `i`: two dates, each followed
/// by whitespace, and the position after the second date's whitespace
/// run. A partial pair is no match at all.
pub open spec fn parse_complete_dates(s: Seq<char>, i: int) -> Option<((Date, Date), int)> {
    match parse_date_at(s, i) {
        Some((completion, j)) => match ws_after(s, j) {
            Some(k) => match parse_date_at(s, k) {
                Some((creation, l)) => match ws_after(s, l) {
                    Some(m) => Some(((completion, creation), m)),
                    None => None,
                },
                None => None,
            },
            None => None,
        },
        None => None,
    }
}

/// One optional `(X)` field at `i`: the priority when the marker and its
/// trailing whitespace are both present, consuming through the
/// whitespace run; otherwise nothing, consuming nothing.
pub open spec fn step_priority(s: Seq<char>, i: int) -> (Option<Priority>, int) {
    match parse_priority_at(s, i) {
        Some((p, j)) => match ws_after(s, j) {
            Some(k) => (Some(p), k),
            None => (None, i),
        },
        None => (None, i),
    }
}

/// One optional date field at `i`: the date when the token and its
/// trailing whitespace are both present, consuming through the
/// whitespace run; otherwise nothing, consuming nothing.
pub open spec fn step_date(s: Seq<char>, i: int) -> (Option<Date>, int) {
    match parse_date_at(s, i) {
        Some((d, j)) => match ws_after(s, j) {
            Some(k) => (Some(d), k),
            None => (None, i),
        },
        None => (None, i),
    }
}

/// The state read at position `i` of a line, and the position where the
/// description begins. The grammar cannot fail: every line reduces to
/// some state, in the worst case `Incomplete(None, None)` consuming
/// nothing.
///
/// A line opening with `x` and whitespace is complete, carrying its date
/// pair only when two dates each followed by whitespace appear next.
/// Any other line reads an optional priority and up to two optional
/// dates; two dates with no priority reinterpret the line as complete,
/// else the task is incomplete with the first date as its creation date.
pub open spec fn parse_state_at(s: Seq<char>, i: int) -> (State, int) {
    if 0 <= i < s.len() && s[i] == 'x' && ws_after(s, i + 1) is Some {
        let rest = ws_after(s, i + 1).unwrap();
        match parse_complete_dates(s, rest) {
            Some((pair, m)) => (State::Complete(Some(pair)), m),
            None => (State::Complete(None), rest),
        }
    } else {
        let (priority, i1) = step_priority(s, i);
        let (date1, i2) = step_date(s, i1);
        let (date2, i3) = step_date(s, i2);
        if priority is None && date1 is Some && date2 is Some {
            (State::Complete(Some((date1.unwrap(), date2.unwrap()))), i3)
        } else {
            (State::Incomplete(priority, date1), i3)
        }
    }
}

/// A parsed task, as seen by specifications: its state and the
/// characters of its description.
pub ghost struct TaskView {
    pub state: State,
    pub text: Seq<char>,
}

/// The task a whole line parses to: leading whitespace, then the state
/// grammar, then the rest of the line verbatim as the description.
pub open spec fn parse_task_at(line: Seq<char>) -> TaskView {
    let start = first_non_ws(line, 0);
    let st = parse_state_at(line, start);
    TaskView { state: st.0, text: line.subrange(st.1, line.len() as int) }
}

impl State {
    /// Reads the state grammar at position `i` of `s`, per
    /// [`parse_state_at`]: the state and the position where the
    /// description begins. Never fails.
    pub fn parse(s: &str, i: usize) -> (r: (State, usize))
        requires
            i <= s@.len(),
        ensures
            (r.0, r.1 as int) == parse_state_at(s@, i as int),
            i <= r.1 <= s@.len(),
            state_wf(r.0),
    {
        let n = s.unicode_len();
        if i < n && s.get_char(i) == 'x' {
            match space_after(s, i + 1) {
                Some(rest) => {
                    return match complete_dates(s, rest) {
                        Some((pair, m)) => (State::Complete(Some(pair)), m),
                        None => (State::Complete(None), rest),
                    };
                },
                None => {},
            }
        }
        let (priority, i1) = priority_step(s, i);
        let (date1, i2) = date_step(s, i1);
        let (date2, i3) = date_step(s, i2);
        if priority.is_none() && date1.is_some() && date2.is_some() {
            (State::Complete(Some((date1.unwrap(), date2.unwrap()))), i3)
        } else {
            (State::Incomplete(priority, date1), i3)
        }
    }
}

/// The whitespace run required after a consumed token at `j`, per
/// [`ws_after`].
fn space_after(s: &str, j: usize) -> (r: Option<usize>)
    requires
        j <= s@.len(),
    ensures
        match r {
            Some(k) => ws_after(s@, j as int) == Some(k as int) && j <= k <= s@.len(),
            None => ws_after(s@, j as int) is None,
        },
{
    let n = s.unicode_len();
    if j < n && is_whitespace(s.get_char(j)) {
        Some(skip_whitespace(s, j))
    } else {
        None
    }
}

/// The date pair of a complete task, per [`parse_complete_dates`].
fn complete_dates(s: &str, i: usize) -> (r: Option<((Date, Date), usize)>)
    requires
        i <= s@.len(),
    ensures
        match r {
            Some((pair, m)) => {
                &&& parse_complete_dates(s@, i as int) == Some((pair, m as int))
                &&& i <= m <= s@.len()
                &&& pair.0.wf() && pair.1.wf()
            },
            None => parse_complete_dates(s@, i as int) is None,
        },
{
    match parse_date(s, i) {
        Some((completion, j)) => match space_after(s, j) {
            Some(k) => match parse_date(s, k) {
                Some((creation, l)) => match space_after(s, l) {
                    Some(m) => Some(((completion, creation), m)),
                    None => None,
                },
                None => None,
            },
            None => None,
        },
        None => None,
    }
}

/// One optional priority field, per [`step_priority`].
fn priority_step(s: &str, i: usize) -> (r: (Option<Priority>, usize))
    requires
        i <= s@.len(),
    ensures
        (r.0, r.1 as int) == step_priority(s@, i as int),
        i <= r.1 <= s@.len(),
{
    match Priority::parse(s, i) {
        Some((p, j)) => match space_after(s, j) {
            Some(k) => (Some(p), k),
            None => (None, i),
        },
        None => (None, i),
    }
}

/// One optional date field, per [`step_date`].
fn date_step(s: &str, i: usize) -> (r: (Option<Date>, usize))
    requires
        i <= s@.len(),
    ensures
        (r.0, r.1 as int) == step_date(s@, i as int),
        i <= r.1 <= s@.len(),
        r.0 matches Some(d) ==> d.wf(),
{
    match parse_date(s, i) {
        Some((d, j)) => match space_after(s, j) {
            Some(k) => (Some(d), k),
            None => (None, i),
        },
        None => (None, i),
    }
}

/// A single complete or incomplete task: its state and its description.
///
/// The description is the rest of the task's line, verbatim; tags are not
/// stored but re-derived from it on demand.
#[derive(Debug, Eq, PartialEq)]
pub struct Task {
    state: State,
    text: String,
}

impl View for Task {
    type V = TaskView;

    closed spec fn view(&self) -> TaskView {
        TaskView { state: self.state, text: self.text@ }
    }
}

impl Task {
    #[verifier::type_invariant]
    spec fn inv(self) -> bool {
        state_wf(self.state) && self.text@.len() <= usize::MAX
    }

    /// Parses one line into a task, per [`parse_task_at`]: leading
    /// whitespace, the state grammar, then the rest of the line verbatim
    /// as the description. Never fails — a line that matches nothing
    /// becomes a minimal incomplete task.
    pub fn parse(line: &str) -> (t: Task)
        ensures
            t@ == parse_task_at(line@),
    {
        let n = line.unicode_len();
        let start = skip_whitespace(line, 0);
        let (state, description_start) = State::parse(line, start);
        let text = line.substring_char(description_start, n).to_owned();
        Task { state, text }
    }

    /// Returns the completion date. An incomplete task is guaranteed to
    /// answer `None`.
    pub fn completion_date(&self) -> (r: Option<Date>)
        ensures
            r == self@.state.spec_completion_date(),
    {
        match self.state {
            State::Complete(Some((completion, _))) => Some(completion),
            State::Complete(None) => None,
            State::Incomplete(_, _) => None,
        }
    }

    /// Returns the creation date: the second of a complete task's date
    /// pair, or an incomplete task's own date.
    pub fn creation_date(&self) -> (r: Option<Date>)
        ensures
            r == self@.state.spec_creation_date(),
    {
        match self.state {
            State::Complete(Some((_, creation))) => Some(creation),
            State::Complete(None) => None,
            State::Incomplete(_, creation) => creation,
        }
    }

    /// Returns the task's description.
    pub fn description(&self) -> (r: &str)
        ensures
            r@ == self@.text,
    {
        self.text.as_str()
    }

    /// Returns whether the task is complete.
    pub fn is_complete(&self) -> (r: bool)
        ensures
            r == self@.state.spec_is_complete(),
    {
        match self.state {
            State::Complete(_) => true,
            State::Incomplete(_, _) => false,
        }
    }

    /// Returns the priority. A complete task is guaranteed to answer
    /// `None`.
    pub fn priority(&self) -> (r: Option<Priority>)
        ensures
            r == self@.state.spec_priority(),
    {
        match self.state {
            State::Complete(_) => None,
            State::Incomplete(priority, _) => priority,
        }
    }

    /// Returns the task's state, to refine into the distinct data of a
    /// complete or incomplete task.
    pub fn state(&self) -> (r: State)
        ensures
            r == self@.state,
            state_wf(r),
    {
        proof {
            use_type_invariant(&*self);
        }
        self.state
    }

    /// Returns a scanner over the tags of the task's description.
    ///
    /// Tags are derived from the description on every call, so two
    /// scanners over the same task always yield the same tags.
    pub fn tags(&self) -> (r: Tags)
        ensures
            r.wf(),
            r@ == tags_of(self@.text),
            r.text_view() == self@.text,
    {
        proof {
            use_type_invariant(&*self);
        }
        Tags::over(self.text.clone())
    }
}

impl Clone for Task {
    /// A clone carries the same state and its own copy of the
    /// description, decoupled from any buffer the task was parsed from.
    fn clone(&self) -> (r: Self)
        ensures
            r@ == self@,
    {
        proof {
            use_type_invariant(&*self);
        }
        Task { state: self.state, text: self.text.clone() }
    }
}

/// The canonical rendering of a task: `x `, priority, completion date and
/// creation date, each followed by one space and present only when the
/// task carries it, then the description.
pub open spec fn render_spec(t: TaskView) -> Seq<char> {
    let marker: Seq<char> = if t.state.spec_is_complete() {
        seq!['x', ' ']
    } else {
        Seq::empty()
    };
    let priority: Seq<char> = match t.state.spec_priority() {
        Some(p) => seq!['(', p.letter_spec(), ')', ' '],
        None => Seq::empty(),
    };
    let completion: Seq<char> = match t.state.spec_completion_date() {
        Some(d) => date_chars(d) + seq![' '],
        None => Seq::empty(),
    };
    let creation: Seq<char> = match t.state.spec_creation_date() {
        Some(d) => date_chars(d) + seq![' '],
        None => Seq::empty(),
    };
    marker + priority + completion + creation + t.text
}

impl Task {
    /// Renders the task in its canonical textual form, per
    /// [`render_spec`].
    pub fn render(&self) -> (r: String)
        ensures
            r@ == render_spec(self@),
    {
        proof {
            use_type_invariant(&*self);
        }
        let mut out = String::new();
        if self.is_complete() {
            out.append(marker_str());
        }
        match self.priority() {
            Some(p) => out.append(priority_marker(p)),
            None => {},
        }
        match self.completion_date() {
            Some(d) => {
                let rendered = d.render();
                out.append(rendered.as_str());
                out.append(space_str());
            },
            None => {},
        }
        match self.creation_date() {
            Some(d) => {
                let rendered = d.render();
                out.append(rendered.as_str());
                out.append(space_str());
            },
            None => {},
        }
        out.append(self.text.as_str());
        proof {
            assert(out@ =~= render_spec(self@));
        }
        out
    }
}

/// The two characters that open a complete task's rendering.
fn marker_str() -> (r: &'static str)
    ensures
        r@ =~= seq!['x', ' '],
{
    proof {
        reveal_strlit("x ");
    }
    "x "
}

/// A single space.
fn space_str() -> (r: &'static str)
    ensures
        r@ =~= seq![' '],
{
    proof {
        reveal_strlit(" ");
    }
    " "
}

/// The four characters that render a priority: `(`, its letter, `)` and
/// a space.
fn priority_marker(p: Priority) -> (r: &'static str)
    ensures
        r@ =~= seq!['(', p.letter_spec(), ')', ' '],
{
    match p {
        Priority::A => {
            proof {
                reveal_strlit("(A) ");
            }
            "(A) "
        },
        Priority::B => {
            proof {
                reveal_strlit("(B) ");
            }
            "(B) "
        },
        Priority::C => {
            proof {
                reveal_strlit("(C) ");
            }
            "(C) "
        },
        Priority::D => {
            proof {
                reveal_strlit("(D) ");
            }
            "(D) "
        },
        Priority::E => {
            proof {
                reveal_strlit("(E) ");
            }
            "(E) "
        },
        Priority::F => {
            proof {
                reveal_strlit("(F) ");
            }
            "(F) "
        },
        Priority::G => {
            proof {
                reveal_strlit("(G) ");
            }
            "(G) "
        },
        Priority::H => {
            proof {
                reveal_strlit("(H) ");
            }
            "(H) "
        },
        Priority::I => {
            proof {
                reveal_strlit("(I) ");
            }
            "(I) "
        },
        Priority::J => {
            proof {
                reveal_strlit("(J) ");
            }
            "(J) "
        },
        Priority::K => {
            proof {
                reveal_strlit("(K) ");
            }
            "(K) "
        },
        Priority::L => {
            proof {
                reveal_strlit("(L) ");
            }
            "(L) "
        },
        Priority::M => {
            proof {
                reveal_strlit("(M) ");
            }
            "(M) "
        },
        Priority::N => {
            proof {
                reveal_strlit("(N) ");
            }
            "(N) "
        },
        Priority::O => {
            proof {
                reveal_strlit("(O) ");
            }
            "(O) "
        },
        Priority::P => {
            proof {
                reveal_strlit("(P) ");
            }
            "(P) "
        },
        Priority::Q => {
            proof {
                reveal_strlit("(Q) ");
            }
            "(Q) "
        },
        Priority::R => {
            proof {
                reveal_strlit("(R) ");
            }
            "(R) "
        },
        Priority::S => {
            proof {
                reveal_strlit("(S) ");
            }
            "(S) "
        },
        Priority::T => {
            proof {
                reveal_strlit("(T) ");
            }
            "(T) "
        },
        Priority::U => {
            proof {
                reveal_strlit("(U) ");
            }
            "(U) "
        },
        Priority::V => {
            proof {
                reveal_strlit("(V) ");
            }
            "(V) "
        },
        Priority::W => {
            proof {
                reveal_strlit("(W) ");
            }
            "(W) "
        },
        Priority::X => {
            proof {
                reveal_strlit("(X) ");
            }
            "(X) "
        },
        Priority::Y => {
            proof {
                reveal_strlit("(Y) ");
            }
            "(Y) "
        },
        Priority::Z => {
            proof {
                reveal_strlit("(Z) ");
            }
            "(Z) "
        },
    }
}

/// A trimmed line that opens with no completion marker, no priority
/// field and no date field parses to the minimal incomplete task, and
/// its description is the whole line.
pub proof fn lemma_plain_line(line: Seq<char>)
    requires
        line.len() > 0,
        !is_ws(line[0]),
        !is_ws(line[line.len() - 1]),
        !(line[0] == 'x' && 1 < line.len() && is_ws(line[1])),
        step_priority(line, 0) == (Option::<Priority>::None, 0int),
        step_date(line, 0) == (Option::<Date>::None, 0int),
    ensures
        parse_task_at(line) == (TaskView { state: State::Incomplete(None, None), text: line }),
{
    assert(first_non_ws(line, 0) == 0);
    if line[0] == 'x' {
        assert(ws_after(line, 1) is None);
    }
    assert(parse_state_at(line, 0) == (State::Incomplete(None, None), 0int));
    assert(line.subrange(0, line.len() as int) =~= line);
}

} // verus!
