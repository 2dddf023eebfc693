//! Searching the process table for a command text.
use vstd::prelude::*;

use crate::models::ProcessInfo;
use crate::text::{chars_contain, contains, to_chars};

verus! {

/// The text searched for, the rows whose command contains it, and which of
/// those rows is the current one.
#[derive(Debug, Default)]
pub struct SearchState {
    pub query: String,
    pub current_match_idx: Option<usize>,
    pub matched_rows: Vec<usize>,
}

/// The positions of the rows of `rows` whose command contains `query`, in order.
pub open spec fn matching_rows(query: Seq<char>, rows: Seq<ProcessInfo>) -> Seq<usize>
    decreases rows.len(),
{
    if rows.len() == 0 {
        seq![]
    } else {
        let rest = matching_rows(query, rows.drop_last());
        if contains(rows.last().command@, query) {
            rest.push((rows.len() - 1) as usize)
        } else {
            rest
        }
    }
}

/// The current match after `get_current`: the first one, if none was
/// chosen yet and there are matches.
pub open spec fn current_after_get(s: SearchState) -> Option<usize> {
    if s.current_match_idx is None && s.matched_rows@.len() > 0 {
        Some(0)
    } else {
        s.current_match_idx
    }
}

/// The row `get_current` gives for the current match `idx`.
pub open spec fn row_of_match(matched: Seq<usize>, idx: Option<usize>) -> Option<usize> {
    match idx {
        Some(i) => if i < matched.len() {
            Some(matched[i as int])
        } else {
            None
        },
        None => None,
    }
}

impl SearchState {
    /// No search: empty text, no matches.
    pub fn new() -> (r: Self)
        ensures
            r.query@ == Seq::<char>::empty(),
            r.current_match_idx is None,
            r.matched_rows@ == Seq::<usize>::empty(),
    {
        SearchState { query: String::new(), current_match_idx: None, matched_rows: Vec::new() }
    }

    /// A search is going on when its text is not empty.
    pub fn is_active(&self) -> (r: bool)
        ensures
            r == (self.query@.len() > 0),
    {
        !self.query.as_str().is_empty()
    }

    /// Ends the search: no text, no matches, no current match.
    pub fn clear(&mut self)
        ensures
            final(self).query@ == Seq::<char>::empty(),
            final(self).current_match_idx is None,
            final(self).matched_rows@ == Seq::<usize>::empty(),
    {
        self.current_match_idx = None;
        self.matched_rows.clear();
        self.query = String::new();
    }

    /// Finds the rows whose command contains the text searched for. The
    /// current match is left as it was.
    pub fn calculate_matching_rows(&mut self, proc_info: &[ProcessInfo])
        ensures
            final(self).matched_rows@ == matching_rows(old(self).query@, proc_info@),
            final(self).query == old(self).query,
            final(self).current_match_idx == old(self).current_match_idx,
    {
        let q = to_chars(self.query.as_str());
        let mut found: Vec<usize> = Vec::new();
        let mut i: usize = 0;
        assert(proc_info@.take(0) =~= Seq::<ProcessInfo>::empty());
        while i < proc_info.len()
            invariant
                i <= proc_info@.len(),
                q@ == self.query@,
                found@ == matching_rows(q@, proc_info@.take(i as int)),
            decreases proc_info.len() - i,
        {
            assert(proc_info@.take(i + 1).drop_last() =~= proc_info@.take(i as int));
            let command = to_chars(proc_info[i].command.as_str());
            if chars_contain(&command, &q) {
                found.push(i);
            }
            i = i + 1;
        }
        assert(proc_info@.take(proc_info@.len() as int) =~= proc_info@);
        self.matched_rows = found;
    }

    /// The row of the current match, making the first match current if none
    /// was.
    pub fn get_current(&mut self) -> (r: Option<usize>)
        ensures
            final(self).current_match_idx == current_after_get(*old(self)),
            final(self).query == old(self).query,
            final(self).matched_rows == old(self).matched_rows,
            r == row_of_match(old(self).matched_rows@, current_after_get(*old(self))),
    {
        if self.current_match_idx.is_none() && self.matched_rows.len() > 0 {
            self.current_match_idx = Some(0);
        }
        match self.current_match_idx {
            Some(current_idx) => {
                if current_idx < self.matched_rows.len() {
                    Some(self.matched_rows[current_idx])
                } else {
                    None
                }
            },
            None => None,
        }
    }

    /// Moves to the next match, if there is one after the current match.
    pub fn seek_next(&mut self)
        requires
            old(self).current_match_idx != Some(usize::MAX),
        ensures
            final(self).query == old(self).query,
            final(self).matched_rows == old(self).matched_rows,
            final(self).current_match_idx == match old(self).current_match_idx {
                Some(c) => if c + 1 < old(self).matched_rows@.len() {
                    Some((c + 1) as usize)
                } else {
                    Some(c)
                },
                None => None,
            },
            final(self).current_match_idx != Some(usize::MAX),
    {
        if let Some(currently_matched) = self.current_match_idx {
            if currently_matched + 1 < self.matched_rows.len() {
                self.current_match_idx = Some(currently_matched + 1);
            }
        }
    }

    /// Moves to the previous match, if the current match is not the first.
    pub fn seek_previous(&mut self)
        ensures
            final(self).query == old(self).query,
            final(self).matched_rows == old(self).matched_rows,
            final(self).current_match_idx == match old(self).current_match_idx {
                Some(c) => if c > 0 {
                    Some((c - 1) as usize)
                } else {
                    Some(c)
                },
                None => None,
            },
    {
        if let Some(currently_matched) = self.current_match_idx {
            if currently_matched > 0 {
                self.current_match_idx = Some(currently_matched - 1);
            }
        }
    }
}

} // verus!
