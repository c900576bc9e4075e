//! The tag sublanguage embedded in a task's description: words classified
//! as context, project or special tags, scanned lazily and by position.

use vstd::prelude::*;

use crate::text::first_non_ws;
use crate::text::first_ws;
use crate::text::is_ws;
use crate::text::lemma_first_non_ws_bounds;
use crate::text::lemma_first_ws_bounds;
use crate::text::skip_whitespace;
use crate::text::skip_word;

verus! {

/// A tag inside a task's description.
///
/// Each variant carries the span of the whole word — the start position
/// (inclusive) and end position (exclusive), counted in characters of the
/// owning task's description — rather than a copy of its text. Slice the
/// description by the span, for instance with [`Tag::slice_of`], to read
/// the tag's text.
#[derive(Clone, Copy, Debug, Eq, PartialEq, Structural)]
#[allow(missing_docs)]
pub enum Tag {
    Context { start: usize, end: usize },
    Project { start: usize, end: usize },
    Special { start: usize, end: usize },
}

impl Tag {
    /// The start of the tag's span.
    pub open spec fn spec_start(self) -> usize {
        match self {
            Tag::Context { start, .. } => start,
            Tag::Project { start, .. } => start,
            Tag::Special { start, .. } => start,
        }
    }

    /// The end of the tag's span.
    pub open spec fn spec_end(self) -> usize {
        match self {
            Tag::Context { end, .. } => end,
            Tag::Project { end, .. } => end,
            Tag::Special { end, .. } => end,
        }
    }

    /// Returns the start position of the tag, counted in characters of
    /// the task's description.
    pub fn start(&self) -> (r: usize)
        ensures
            r == self.spec_start(),
    {
        match *self {
            Tag::Context { start, .. } => start,
            Tag::Project { start, .. } => start,
            Tag::Special { start, .. } => start,
        }
    }

    /// Returns the end position of the tag, counted in characters of the
    /// task's description.
    pub fn end(&self) -> (r: usize)
        ensures
            r == self.spec_end(),
    {
        match *self {
            Tag::Context { end, .. } => end,
            Tag::Project { end, .. } => end,
            Tag::Special { end, .. } => end,
        }
    }

    /// Returns the tag's text: the slice of `description` under the
    /// tag's span.
    pub fn slice_of<'a>(&self, description: &'a str) -> (r: &'a str)
        requires
            self.spec_start() <= self.spec_end() <= description@.len(),
        ensures
            r@ == description@.subrange(self.spec_start() as int, self.spec_end() as int),
    {
        description.substring_char(self.start(), self.end())
    }
}

/// Whether some character of `s` in `i..j` is a colon.
pub open spec fn has_colon(s: Seq<char>, i: int, j: int) -> bool {
    exists|k: int| i <= k < j && s[k] == ':'
}

/// The tags of `s` from position `i` on: repeatedly skip whitespace, take
/// the run of non-whitespace characters as a word, and classify it —
/// leading `@` makes a context tag, leading `+` a project tag, a colon
/// anywhere in any other word a special tag, and any other word no tag.
pub open spec fn tags_from(s: Seq<char>, i: int) -> Seq<Tag>
    recommends
        0 <= i <= s.len(),
    decreases s.len() - i,
    via tags_from_decreases
{
    if i < 0 || i >= s.len() {
        Seq::empty()
    } else if is_ws(s[i]) {
        tags_from(s, i + 1)
    } else {
        let e = first_ws(s, i);
        let rest = tags_from(s, e);
        if s[i] == '@' {
            seq![Tag::Context { start: i as usize, end: e as usize }] + rest
        } else if s[i] == '+' {
            seq![Tag::Project { start: i as usize, end: e as usize }] + rest
        } else if has_colon(s, i, e) {
            seq![Tag::Special { start: i as usize, end: e as usize }] + rest
        } else {
            rest
        }
    }
}

#[via_fn]
proof fn tags_from_decreases(s: Seq<char>, i: int) {
    if 0 <= i && i < s.len() && !is_ws(s[i]) {
        lemma_first_ws_bounds(s, i + 1);
    }
}

/// All the tags of a description, in scan order.
pub open spec fn tags_of(s: Seq<char>) -> Seq<Tag> {
    tags_from(s, 0)
}

/// Skipping a whitespace run changes no tag.
pub proof fn lemma_tags_from_skip_ws(s: Seq<char>, i: int)
    requires
        0 <= i <= s.len(),
    ensures
        tags_from(s, i) == tags_from(s, first_non_ws(s, i)),
    decreases s.len() - i,
{
    if i < s.len() && is_ws(s[i]) {
        lemma_tags_from_skip_ws(s, i + 1);
    }
}

/// Every tag scanned from position `i` on spans a non-empty word inside
/// the description.
pub proof fn lemma_tags_from_bounds(s: Seq<char>, i: int)
    requires
        0 <= i <= s.len() <= usize::MAX,
    ensures
        forall|k: int|
            0 <= k < tags_from(s, i).len() ==> i <= #[trigger] tags_from(s, i)[k].spec_start()
                < tags_from(s, i)[k].spec_end() <= s.len(),
    decreases s.len() - i,
{
    if i >= s.len() {
    } else if is_ws(s[i]) {
        lemma_tags_from_bounds(s, i + 1);
    } else {
        lemma_first_ws_bounds(s, i + 1);
        let e = first_ws(s, i);
        lemma_tags_from_bounds(s, e);
        let rest = tags_from(s, e);
        let all = tags_from(s, i);
        if all != rest {
            assert forall|k: int| 0 <= k < all.len() implies i <= #[trigger] all[k].spec_start()
                < all[k].spec_end() <= s.len() by {
                if k > 0 {
                    assert(all[k] == rest[k - 1]);
                }
            }
        }
    }
}

/// A word that begins with `@` classifies as a context tag even when it
/// also contains a colon: the context check takes precedence over the
/// special-tag containment check.
pub proof fn lemma_context_precedence(s: Seq<char>, i: int)
    requires
        0 <= i < s.len() <= usize::MAX,
        !is_ws(s[i]),
        s[i] == '@',
    ensures
        tags_from(s, i) == seq![
            Tag::Context { start: i as usize, end: first_ws(s, i) as usize },
        ] + tags_from(s, first_ws(s, i)),
{
}

/// Tag scanning is pure: the tags of a description are a function of
/// its characters alone, so deriving the tags of the same task twice —
/// as each call to `Task::tags` does — yields two identical sequences.
pub proof fn lemma_tags_deterministic(s1: Seq<char>, s2: Seq<char>)
    requires
        s1 == s2,
    ensures
        tags_of(s1) == tags_of(s2),
{
}

/// Finds the next word of `s` at or after `pos`: the maximal run of
/// non-whitespace characters, as its start (inclusive) and end
/// (exclusive) character positions, or `None` when only whitespace
/// remains.
pub fn next_word_boundary(s: &str, pos: usize) -> (r: Option<(usize, usize)>)
    requires
        pos <= s@.len(),
    ensures
        match r {
            Some((a, b)) => {
                &&& a == first_non_ws(s@, pos as int)
                &&& a < s@.len() && !is_ws(s@[a as int])
                &&& b == first_ws(s@, a as int)
                &&& a < b <= s@.len()
            },
            None => first_non_ws(s@, pos as int) == s@.len(),
        },
{
    let n = s.unicode_len();
    let a = skip_whitespace(s, pos);
    if a == n {
        return None;
    }
    proof {
        lemma_first_non_ws_bounds(s@, pos as int);
    }
    let b = skip_word(s, a);
    proof {
        lemma_first_ws_bounds(s@, a as int);
    }
    Some((a, b))
}

/// A lazy scanner over the tags of one task's description.
///
/// Obtained from `Task::tags`; each call to [`Tags::next`] scans forward
/// to the next tag. The scan is a pure function of the description, so
/// scanning the same description twice yields the same tags.
#[derive(Debug)]
pub struct Tags {
    text: String,
    pos: usize,
}

impl View for Tags {
    type V = Seq<Tag>;

    /// The tags the scanner has yet to produce, in order.
    closed spec fn view(&self) -> Seq<Tag> {
        tags_from(self.text@, self.pos as int)
    }
}

impl Clone for Tags {
    /// A clone scans the same description from the same position.
    fn clone(&self) -> (r: Self)
        ensures
            r == *self,
    {
        Tags { text: self.text.clone(), pos: self.pos }
    }
}

impl Tags {
    /// The scanner's position sits inside its description.
    pub closed spec fn wf(self) -> bool {
        self.pos <= self.text@.len() <= usize::MAX
    }

    /// The description the scanner reads.
    pub closed spec fn text_view(self) -> Seq<char> {
        self.text@
    }

    /// Builds a scanner over `description`, starting at its beginning.
    pub(crate) fn over(description: String) -> (r: Tags)
        requires
            description@.len() <= usize::MAX,
        ensures
            r.wf(),
            r@ == tags_of(description@),
            r.text_view() == description@,
    {
        Tags { text: description, pos: 0 }
    }

    /// Scans forward to the next tag of the description and returns it,
    /// or returns `None` when no tag remains.
    pub fn next(&mut self) -> (r: Option<Tag>)
        requires
            old(self).wf(),
        ensures
            final(self).wf(),
            final(self).text_view() == old(self).text_view(),
            match r {
                Some(t) => old(self)@.len() > 0 && t == old(self)@[0] && final(self)@ == old(
                    self,
                )@.drop_first(),
                None => old(self)@.len() == 0 && final(self)@.len() == 0,
            },
    {
        loop
            invariant
                self.wf(),
                self.text == old(self).text,
                tags_from(self.text@, self.pos as int) == old(self)@,
            decreases self.text@.len() - self.pos,
        {
            proof {
                lemma_tags_from_skip_ws(self.text@, self.pos as int);
                lemma_first_non_ws_bounds(self.text@, self.pos as int);
            }
            match next_word_boundary(self.text.as_str(), self.pos) {
                None => {
                    let n = self.text.as_str().unicode_len();
                    self.pos = n;
                    return None;
                },
                Some((start, end)) => {
                    let ghost entry = old(self)@;
                    let c = self.text.as_str().get_char(start);
                    if c == '@' {
                        let t = Tag::Context { start, end };
                        self.pos = end;
                        proof {
                            assert(entry =~= seq![t] + self@);
                            assert(entry.drop_first() =~= self@);
                        }
                        return Some(t);
                    } else if c == '+' {
                        let t = Tag::Project { start, end };
                        self.pos = end;
                        proof {
                            assert(entry =~= seq![t] + self@);
                            assert(entry.drop_first() =~= self@);
                        }
                        return Some(t);
                    } else if contains_colon(self.text.as_str(), start, end) {
                        let t = Tag::Special { start, end };
                        self.pos = end;
                        proof {
                            assert(entry =~= seq![t] + self@);
                            assert(entry.drop_first() =~= self@);
                        }
                        return Some(t);
                    } else {
                        self.pos = end;
                    }
                },
            }
        }
    }

    /// Scans the rest of the description and collects every remaining
    /// tag, in order, leaving the scanner exhausted.
    pub fn to_vec(&mut self) -> (r: Vec<Tag>)
        requires
            old(self).wf(),
        ensures
            final(self).wf(),
            r@ == old(self)@,
    {
        let mut out: Vec<Tag> = Vec::new();
        loop
            invariant
                self.wf(),
                old(self)@ == out@ + self@,
            decreases self@.len(),
        {
            match self.next() {
                Some(t) => {
                    out.push(t);
                    proof {
                        assert(old(self)@ =~= out@ + self@);
                    }
                },
                None => {
                    proof {
                        assert(old(self)@ =~= out@);
                    }
                    return out;
                },
            }
        }
    }
}

/// Whether the characters of `s` in `i..j` contain a colon.
fn contains_colon(s: &str, i: usize, j: usize) -> (r: bool)
    requires
        i <= j <= s@.len(),
    ensures
        r == has_colon(s@, i as int, j as int),
{
    let mut k = i;
    while k < j
        invariant
            i <= k <= j <= s@.len(),
            forall|t: int| i <= t < k ==> s@[t] != ':',
        decreases j - k,
    {
        if s.get_char(k) == ':' {
            assert(s@[k as int] == ':');
            return true;
        }
        k = k + 1;
    }
    false
}

} // verus!
