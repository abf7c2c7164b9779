//! Incremental search over the active tab's scrollback.

use crate::cycle::{after, before, go_after, go_before};
use crate::text::{digits, push_number};
use vstd::prelude::*;

verus! {

/// Where a match is: its line, its first and its last column.
pub type Match = (i32, usize, usize);

/// In-progress search.
pub struct FindState {
    pub query: String,
    /// Matches in absolute lines, top to bottom.
    pub matches: Vec<Match>,
    /// Index of the current (accented) match.
    pub current: usize,
}

impl FindState {
    /// The current match is one of the matches, where there are any.
    pub open spec fn wf(self) -> bool {
        if self.matches@.len() == 0 {
            self.current == 0
        } else {
            self.current < self.matches@.len()
        }
    }

    pub fn new() -> (f: Self)
        ensures
            f.wf(),
            f.query@.len() == 0,
            f.matches@.len() == 0,
            f.current == 0,
    {
        FindState { query: String::new(), matches: Vec::new(), current: 0 }
    }

    /// What the find bar says.
    pub open spec fn bar(self) -> Seq<char> {
        if self.query@.len() == 0 {
            "Find:"@
        } else if self.matches@.len() == 0 {
            "Find: "@ + self.query@ + "   no matches"@
        } else {
            "Find: "@ + self.query@ + "   "@ + digits((self.current + 1) as nat) + "/"@ + digits(
                self.matches@.len(),
            )
        }
    }

    /// The text of the find bar.
    pub fn bar_text(&self) -> (s: String)
        requires
            self.wf(),
        ensures
            s@ == self.bar(),
    {
        if self.query.as_str().is_empty() {
            return "Find:".to_owned();
        }
        let mut s = "Find: ".to_owned();
        s.append(self.query.as_str());
        if self.matches.len() == 0 {
            s.append("   no matches");
        } else {
            s.append("   ");
            push_number(&mut s, self.current as u64 + 1);
            s.append("/");
            push_number(&mut s, self.matches.len() as u64);
        }
        s
    }

    /// Go to the match after the current one, from the last back to the first.
    pub fn go_next(&mut self)
        requires
            old(self).wf(),
        ensures
            final(self).wf(),
            *final(self) == (FindState { current: final(self).current, ..*old(self) }),
            final(self).current == (if old(self).matches@.len() == 0 {
                0
            } else {
                after(old(self).current as int, old(self).matches@.len() as int)
            }),
    {
        if self.matches.len() != 0 {
            self.current = go_after(self.current, self.matches.len());
        }
    }

    /// Go to the match before the current one, from the first on to the last.
    pub fn go_prev(&mut self)
        requires
            old(self).wf(),
        ensures
            final(self).wf(),
            *final(self) == (FindState { current: final(self).current, ..*old(self) }),
            final(self).current == (if old(self).matches@.len() == 0 {
                0
            } else {
                before(old(self).current as int, old(self).matches@.len() as int)
            }),
    {
        if self.matches.len() != 0 {
            self.current = go_before(self.current, self.matches.len());
        }
    }

    /// Take what a search has found, and go to the first match.
    pub fn set_matches(&mut self, found: Vec<Match>)
        ensures
            final(self).wf(),
            *final(self) == (FindState { matches: found, current: 0, ..*old(self) }),
    {
        self.matches = found;
        self.current = 0;
    }

    /// The line of the current match, which the viewport goes to.
    pub fn target_line(&self) -> (r: Option<i32>)
        requires
            self.wf(),
        ensures
            r is Some <==> self.matches@.len() > 0,
            r matches Some(l) ==> l == self.matches@[self.current as int].0,
    {
        if self.matches.len() == 0 {
            None
        } else {
            Some(self.matches[self.current].0)
        }
    }
}

/// A find match on screen: its viewport row and columns, and whether it is the
/// current one.
#[derive(Copy, Clone, PartialEq, Eq, Structural, Debug)]
pub struct MatchRow {
    pub row: i32,
    pub start: usize,
    pub end: usize,
    pub current: bool,
}

/// The matches that a viewport scrolled by `offset` shows. Row `-1` counts, as
/// it does for a selection.
pub open spec fn match_rows(
    ms: Seq<Match>,
    current: usize,
    offset: i32,
    rows: usize,
) -> Seq<MatchRow>
    decreases ms.len(),
{
    if ms.len() == 0 {
        Seq::empty()
    } else {
        let before = match_rows(ms.drop_last(), current, offset, rows);
        let m = ms.last();
        let row = m.0 + offset;
        if -1 <= row < rows {
            before.push(
                MatchRow {
                    row: row as i32,
                    start: m.1,
                    end: (m.2 + 1) as usize,
                    current: ms.len() - 1 == current,
                },
            )
        } else {
            before
        }
    }
}

/// The matches to highlight in a viewport.
pub fn find_rows(find: &FindState, offset: i32, rows: usize) -> (out: Vec<MatchRow>)
    requires
        rows <= i32::MAX,
        offset >= 0,
        forall|i: int|
            0 <= i < find.matches@.len() ==> (#[trigger] find.matches@[i]).2 < usize::MAX
                && find.matches@[i].0 + offset <= i32::MAX,
    ensures
        out@ == match_rows(find.matches@, find.current, offset, rows),
{
    let mut out: Vec<MatchRow> = Vec::new();
    let mut i: usize = 0;
    while i < find.matches.len()
        invariant
            rows <= i32::MAX,
            offset >= 0,
            forall|i: int|
                0 <= i < find.matches@.len() ==> (#[trigger] find.matches@[i]).2 < usize::MAX
                    && find.matches@[i].0 + offset <= i32::MAX,
            i <= find.matches@.len(),
            out@ == match_rows(find.matches@.take(i as int), find.current, offset, rows),
        decreases find.matches.len() - i,
    {
        let m = find.matches[i];
        proof {
            assert(find.matches@.take(i + 1).drop_last() =~= find.matches@.take(i as int));
            assert(find.matches@.take(i + 1).last() == m);
        }
        let row = m.0 + offset;
        if row >= -1 && row < rows as i32 {
            out.push(MatchRow { row, start: m.1, end: m.2 + 1, current: i == find.current });
        }
        i = i + 1;
    }
    assert(find.matches@.take(find.matches@.len() as int) =~= find.matches@);
    out
}

} // verus!
