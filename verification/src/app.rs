//! The file browser's state: the discovered files, the search filter over
//! them, the current selection, and the error banner.
//!
//! The filter is the heart of it: the filtered view always holds exactly the
//! indices of the files whose names contain the search query,
//! case-insensitively, in file order — and the selection is always inside
//! the filtered view or at its start.

use vstd::prelude::*;

use crate::files::TextFile;
use crate::text::{has_substring, lower_of, lowercase, str_contains};

verus! {

/// Whether a file name matches a search query: an empty query matches
/// everything; otherwise the folded query must occur in the folded name.
pub open spec fn file_matches(name: Seq<char>, query: Seq<char>) -> bool {
    query.len() == 0 || has_substring(lower_of(name), lower_of(query))
}

/// The names of a list of files, in order.
pub open spec fn names_of(files: Seq<TextFile>) -> Seq<Seq<char>> {
    Seq::new(files.len(), |i: int| files[i].name@)
}

/// The indices of the names that match the query, in increasing order.
pub open spec fn matching_indices(names: Seq<Seq<char>>, query: Seq<char>) -> Seq<usize>
    decreases names.len(),
{
    if names.len() == 0 {
        Seq::empty()
    } else {
        let prefix = matching_indices(names.drop_last(), query);
        if file_matches(names.last(), query) {
            prefix.push((names.len() - 1) as usize)
        } else {
            prefix
        }
    }
}

/// Every matching index points into the name list.
pub proof fn lemma_matching_indices_in_range(names: Seq<Seq<char>>, query: Seq<char>)
    ensures
        forall|k: int|
            0 <= k < matching_indices(names, query).len() ==> (#[trigger] matching_indices(
                names,
                query,
            )[k]) < names.len(),
    decreases names.len(),
{
    if names.len() > 0 {
        lemma_matching_indices_in_range(names.drop_last(), query);
        let prefix = matching_indices(names.drop_last(), query);
        let whole = matching_indices(names, query);
        assert forall|k: int| 0 <= k < whole.len() implies (#[trigger] whole[k]) < names.len() by {
            if file_matches(names.last(), query) {
                assert(whole == prefix.push((names.len() - 1) as usize));
                if k < prefix.len() {
                    assert(whole[k] == prefix[k]);
                }
            } else {
                assert(whole == prefix);
                assert(whole[k] == prefix[k]);
            }
        }
    }
}

/// The filtered view preserves file order: the matching indices are
/// strictly increasing, so filtering never reorders and never repeats.
pub proof fn lemma_matching_indices_increasing(names: Seq<Seq<char>>, query: Seq<char>)
    requires
        names.len() <= usize::MAX,
    ensures
        forall|k1: int, k2: int|
            0 <= k1 < k2 < matching_indices(names, query).len() ==> #[trigger] matching_indices(
                names,
                query,
            )[k1] < #[trigger] matching_indices(names, query)[k2],
    decreases names.len(),
{
    if names.len() > 0 {
        lemma_matching_indices_increasing(names.drop_last(), query);
        lemma_matching_indices_in_range(names.drop_last(), query);
        let prefix = matching_indices(names.drop_last(), query);
        let whole = matching_indices(names, query);
        if file_matches(names.last(), query) {
            assert(whole == prefix.push((names.len() - 1) as usize));
            assert forall|k1: int, k2: int|
                0 <= k1 < k2 < whole.len() implies #[trigger] whole[k1] < #[trigger] whole[k2] by {
                if k2 < prefix.len() {
                    assert(whole[k1] == prefix[k1] && whole[k2] == prefix[k2]);
                } else {
                    assert(whole[k1] == prefix[k1]);
                    assert(prefix[k1] < names.drop_last().len());
                }
            }
        } else {
            assert(whole == prefix);
            assert forall|k1: int, k2: int|
                0 <= k1 < k2 < whole.len() implies #[trigger] whole[k1] < #[trigger] whole[k2] by {
                assert(whole[k1] == prefix[k1] && whole[k2] == prefix[k2]);
            }
        }
    }
}

/// With an empty query, every index matches, in order.
proof fn lemma_matching_indices_all(names: Seq<Seq<char>>, query: Seq<char>)
    requires
        query.len() == 0,
    ensures
        matching_indices(names, query) =~= Seq::new(names.len(), |i: int| i as usize),
    decreases names.len(),
{
    if names.len() > 0 {
        lemma_matching_indices_all(names.drop_last(), query);
    }
}

/// The browser state: all discovered files, the indices of those matching
/// the search query, the selection within the filtered view, the query, and
/// the error banner.
pub struct App {
    /// All discovered text files.
    pub files: Vec<TextFile>,
    /// Indices into `files` that match the current search query.
    pub filtered_indices: Vec<usize>,
    /// The currently selected position in `filtered_indices`.
    pub selected_index: usize,
    /// The current search query.
    pub search_query: String,
    /// The error message to display, if any.
    pub error_message: Option<String>,
}

impl App {
    /// The state invariant: the filtered view holds exactly the matching
    /// indices, and the selection is inside it or at its start.
    pub open spec fn wf(self) -> bool {
        &&& self.filtered_indices@ == matching_indices(names_of(self.files@), self.search_query@)
        &&& (self.selected_index < self.filtered_indices@.len() || self.selected_index == 0)
    }

    /// A fresh browser over the given files: empty query, every file in the
    /// filtered view, the first one selected, no error.
    pub fn new(files: Vec<TextFile>) -> (r: App)
        ensures
            r.wf(),
            r.files@ == files@,
            r.filtered_indices@.len() == files@.len(),
            r.selected_index == 0,
            r.search_query@.len() == 0,
            r.error_message is None,
    {
        let mut filtered_indices: Vec<usize> = Vec::new();
        let n = files.len();
        for i in 0..n
            invariant
                filtered_indices@ =~= Seq::new(i as nat, |k: int| k as usize),
        {
            filtered_indices.push(i);
            assert(filtered_indices@ =~= Seq::new(i as nat + 1, |k: int| k as usize));
        }
        let search_query = String::new();
        proof {
            lemma_matching_indices_all(names_of(files@), search_query@);
        }
        App { files, filtered_indices, selected_index: 0, search_query, error_message: None }
    }

    /// Rebuild the filtered view from the current query, and pull the
    /// selection back to the start when it fell outside the new view.
    fn update_filter(&mut self)
        ensures
            final(self).files@ == old(self).files@,
            final(self).search_query@ == old(self).search_query@,
            final(self).error_message == old(self).error_message,
            final(self).filtered_indices@ == matching_indices(
                names_of(old(self).files@),
                old(self).search_query@,
            ),
            final(self).selected_index == (if old(self).selected_index
                >= final(self).filtered_indices@.len() {
                0usize
            } else {
                old(self).selected_index
            }),
            final(self).wf(),
    {
        let query = lowercase(self.search_query.as_str());
        let query_empty = self.search_query.unicode_len() == 0;
        let mut filtered: Vec<usize> = Vec::new();
        let n = self.files.len();
        let ghost names = names_of(self.files@);
        for i in 0..n
            invariant
                n == self.files@.len(),
                names == names_of(self.files@),
                query@ == lower_of(self.search_query@),
                query_empty == (self.search_query@.len() == 0),
                filtered@ == matching_indices(names.take(i as int), self.search_query@),
        {
            let matches = if query_empty {
                true
            } else {
                let folded = lowercase(self.files[i].name.as_str());
                str_contains(folded.as_str(), query.as_str())
            };
            proof {
                assert(names.take(i + 1).drop_last() =~= names.take(i as int));
                assert(names.take(i + 1).last() == self.files@[i as int].name@);
            }
            if matches {
                filtered.push(i);
            }
        }
        proof {
            assert(names.take(n as int) =~= names);
        }
        self.filtered_indices = filtered;
        if self.selected_index >= self.filtered_indices.len() {
            self.selected_index = 0;
        }
    }

    /// Move the selection up one entry, wrapping to the bottom from the top;
    /// nothing happens over an empty view.
    pub fn move_up(&mut self)
        requires
            old(self).wf(),
        ensures
            final(self).wf(),
            final(self).files@ == old(self).files@,
            final(self).filtered_indices@ == old(self).filtered_indices@,
            final(self).search_query@ == old(self).search_query@,
            final(self).error_message == old(self).error_message,
            final(self).selected_index == (if old(self).filtered_indices@.len() == 0 {
                old(self).selected_index as int
            } else if old(self).selected_index > 0 {
                old(self).selected_index - 1
            } else {
                old(self).filtered_indices@.len() - 1
            }),
    {
        if self.filtered_indices.len() == 0 {
            return ;
        }
        if self.selected_index > 0 {
            self.selected_index = self.selected_index - 1;
        } else {
            self.selected_index = self.filtered_indices.len() - 1;
        }
    }

    /// Move the selection down one entry, wrapping to the top from the
    /// bottom; nothing happens over an empty view.
    pub fn move_down(&mut self)
        requires
            old(self).wf(),
        ensures
            final(self).wf(),
            final(self).files@ == old(self).files@,
            final(self).filtered_indices@ == old(self).filtered_indices@,
            final(self).search_query@ == old(self).search_query@,
            final(self).error_message == old(self).error_message,
            final(self).selected_index == (if old(self).filtered_indices@.len() == 0 {
                old(self).selected_index as int
            } else if old(self).selected_index < old(self).filtered_indices@.len() - 1 {
                old(self).selected_index + 1
            } else {
                0
            }),
    {
        if self.filtered_indices.len() == 0 {
            return ;
        }
        if self.selected_index < self.filtered_indices.len() - 1 {
            self.selected_index = self.selected_index + 1;
        } else {
            self.selected_index = 0;
        }
    }

    /// The currently selected file: the one the filtered view's selection
    /// points at, or nothing when the view is empty.
    pub fn get_selected(&self) -> (r: Option<&TextFile>)
        requires
            self.wf(),
        ensures
            match r {
                Some(f) => self.filtered_indices@.len() > 0 && self.selected_index
                    < self.filtered_indices@.len() && *f == self.files@[self.filtered_indices@[self.selected_index as int] as int],
                None => self.filtered_indices@.len() == 0,
            },
    {
        proof {
            lemma_matching_indices_in_range(names_of(self.files@), self.search_query@);
        }
        if self.selected_index < self.filtered_indices.len() {
            let idx = self.filtered_indices[self.selected_index];
            Some(&self.files[idx])
        } else {
            None
        }
    }

    /// The files of the filtered view, in order, for display.
    pub fn filtered_files(&self) -> (r: Vec<&TextFile>)
        requires
            self.wf(),
        ensures
            r@.len() == self.filtered_indices@.len(),
            forall|k: int|
                0 <= k < r@.len() ==> *(#[trigger] r@[k])
                    == self.files@[self.filtered_indices@[k] as int],
    {
        proof {
            lemma_matching_indices_in_range(names_of(self.files@), self.search_query@);
        }
        let mut r: Vec<&TextFile> = Vec::new();
        let n = self.filtered_indices.len();
        for k in 0..n
            invariant
                n == self.filtered_indices@.len(),
                self.wf(),
                r@.len() == k,
                forall|j: int|
                    0 <= j < k ==> *(#[trigger] r@[j])
                        == self.files@[self.filtered_indices@[j] as int],
        {
            proof {
                lemma_matching_indices_in_range(names_of(self.files@), self.search_query@);
            }
            let idx = self.filtered_indices[k];
            r.push(&self.files[idx]);
        }
        r
    }

    /// The selected position within the filtered view.
    pub fn selected_index(&self) -> (r: usize)
        ensures
            r == self.selected_index,
    {
        self.selected_index
    }

    /// Show an error banner.
    pub fn set_error(&mut self, message: String)
        ensures
            final(self).error_message == Some(message),
            final(self).files@ == old(self).files@,
            final(self).filtered_indices@ == old(self).filtered_indices@,
            final(self).selected_index == old(self).selected_index,
            final(self).search_query@ == old(self).search_query@,
            old(self).wf() ==> final(self).wf(),
    {
        self.error_message = Some(message);
    }

    /// Clear the error banner.
    pub fn clear_error(&mut self)
        ensures
            final(self).error_message is None,
            final(self).files@ == old(self).files@,
            final(self).filtered_indices@ == old(self).filtered_indices@,
            final(self).selected_index == old(self).selected_index,
            final(self).search_query@ == old(self).search_query@,
            old(self).wf() ==> final(self).wf(),
    {
        self.error_message = None;
    }

    /// Replace the file list with a freshly discovered one: the query is
    /// cleared, every file shows, the first is selected. Returns how far the
    /// file count moved (the absolute difference of old and new counts).
    pub fn refresh_files(&mut self, new_files: Vec<TextFile>) -> (r: usize)
        ensures
            final(self).wf(),
            final(self).files@ == new_files@,
            final(self).filtered_indices@.len() == new_files@.len(),
            final(self).selected_index == 0,
            final(self).search_query@.len() == 0,
            final(self).error_message == old(self).error_message,
            r == if new_files@.len() >= old(self).files@.len() {
                new_files@.len() - old(self).files@.len()
            } else {
                old(self).files@.len() - new_files@.len()
            },
    {
        let new_count = new_files.len();
        let old_count = self.files.len();
        self.files = new_files;
        self.search_query = String::new();
        let mut filtered_indices: Vec<usize> = Vec::new();
        let n = self.files.len();
        for i in 0..n
            invariant
                filtered_indices@ =~= Seq::new(i as nat, |k: int| k as usize),
        {
            filtered_indices.push(i);
            assert(filtered_indices@ =~= Seq::new(i as nat + 1, |k: int| k as usize));
        }
        self.filtered_indices = filtered_indices;
        self.selected_index = 0;
        proof {
            lemma_matching_indices_all(names_of(self.files@), self.search_query@);
        }
        if new_count >= old_count {
            new_count - old_count
        } else {
            old_count - new_count
        }
    }

    /// The current error banner, if one is shown.
    pub fn get_error(&self) -> (r: Option<&String>)
        ensures
            match r {
                Some(m) => self.error_message == Some(*m),
                None => self.error_message is None,
            },
    {
        self.error_message.as_ref()
    }

    /// Append a character to the search query and re-filter.
    pub fn add_search_char(&mut self, c: char)
        ensures
            final(self).wf(),
            final(self).files@ == old(self).files@,
            final(self).error_message == old(self).error_message,
            final(self).search_query@ == old(self).search_query@.push(c),
            final(self).filtered_indices@ == matching_indices(
                names_of(old(self).files@),
                old(self).search_query@.push(c),
            ),
            final(self).selected_index == (if old(self).selected_index
                >= final(self).filtered_indices@.len() {
                0usize
            } else {
                old(self).selected_index
            }),
    {
        self.search_query.push(c);
        self.update_filter();
    }

    /// Remove the last character of the search query (if any) and re-filter.
    pub fn remove_search_char(&mut self)
        ensures
            final(self).wf(),
            final(self).files@ == old(self).files@,
            final(self).error_message == old(self).error_message,
            final(self).search_query@ == (if old(self).search_query@.len() > 0 {
                old(self).search_query@.drop_last()
            } else {
                old(self).search_query@
            }),
            final(self).filtered_indices@ == matching_indices(
                names_of(old(self).files@),
                final(self).search_query@,
            ),
            final(self).selected_index == (if old(self).selected_index
                >= final(self).filtered_indices@.len() {
                0usize
            } else {
                old(self).selected_index
            }),
    {
        let _ = self.search_query.pop();
        self.update_filter();
    }

    /// The current search query.
    pub fn search_query(&self) -> (r: &str)
        ensures
            r@ == self.search_query@,
    {
        self.search_query.as_str()
    }

    /// How many files the filtered view holds.
    pub fn filtered_count(&self) -> (r: usize)
        ensures
            r == self.filtered_indices@.len(),
    {
        self.filtered_indices.len()
    }

    /// Whether the search query is empty.
    pub fn is_search_empty(&self) -> (r: bool)
        ensures
            r == (self.search_query@.len() == 0),
    {
        self.search_query.unicode_len() == 0
    }

    /// How many files were discovered in all.
    pub fn total_count(&self) -> (r: usize)
        ensures
            r == self.files@.len(),
    {
        self.files.len()
    }
}

} // verus!
