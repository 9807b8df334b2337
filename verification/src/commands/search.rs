use crate::commands::cursor_move::{cursor_move, cursor_moved};
use crate::context::{ContextView, JoshutoContext};
use crate::error::JoshutoResult;
use crate::fs::dirlist::{DirectoryListing, ListingView};
use crate::util::glob::{compile_glob, glob_is_match, glob_matches, glob_set_patterns, glob_valid};
use crate::util::text::{contains_text, lowercase, text_contains, to_lowercase};
use vstd::prelude::*;

verus! {

/// What the user last searched for.
#[derive(Clone, Debug, PartialEq, Eq)]
pub enum SearchPattern {
    /// A glob, as typed.
    Glob(String),
    /// A piece of text to be found in a name, in lower case.
    String(String),
}

/// The mathematical content of a [`SearchPattern`].
pub enum PatternView {
    Glob(Seq<char>),
    String(Seq<char>),
}

impl View for SearchPattern {
    type V = PatternView;

    open spec fn view(&self) -> PatternView {
        match self {
            SearchPattern::Glob(s) => PatternView::Glob(s@),
            SearchPattern::String(s) => PatternView::String(s@),
        }
    }
}

/// Whether a file called `name` is what the user searched for: a glob must
/// be well formed and match the name; a text must occur in the name put in
/// lower case.
pub open spec fn entry_matches(pattern: PatternView, name: Seq<char>) -> bool {
    match pattern {
        PatternView::Glob(p) => glob_valid(p) && glob_matches(p, name),
        PatternView::String(s) => contains_text(lowercase(name), s),
    }
}

/// For each entry of `l`, whether it is what the user searched for.
pub open spec fn pattern_hits(l: ListingView, pattern: PatternView) -> Seq<bool> {
    Seq::new(l.entries.len(), |i: int| entry_matches(pattern, l.entries[i].name))
}

/// The position that follows `k` in a ring of `len` positions when walking
/// forward or backward.
pub open spec fn ring_step(k: int, len: int, forward: bool) -> int {
    if forward {
        if k + 1 >= len {
            0
        } else {
            k + 1
        }
    } else {
        if k <= 0 {
            len - 1
        } else {
            k - 1
        }
    }
}

/// The first marked position on a walk around the ring of `steps` steps
/// that starts at `k`.
pub open spec fn first_hit(hits: Seq<bool>, k: int, steps: nat, forward: bool) -> Option<int>
    decreases steps,
{
    if steps == 0 {
        None
    } else if hits[k] {
        Some(k)
    } else {
        first_hit(hits, ring_step(k, hits.len() as int, forward), (steps - 1) as nat, forward)
    }
}

/// Where a search ends that starts at the cursor `index`: at the first
/// marked entry after it (or before it, walking backward), wrapping around
/// at the end of the listing, the entry under the cursor coming last. No
/// cursor, no result.
pub open spec fn search_among(hits: Seq<bool>, index: Option<int>, forward: bool) -> Option<int> {
    match index {
        Some(i) => first_hit(hits, ring_step(i, hits.len() as int, forward), hits.len(), forward),
        None => None,
    }
}

/// The session after a search for what the user last searched for: the
/// cursor of the listing shown stands on the entry found, if one was found.
/// A glob is always searched for forward; a text in the direction given.
pub open spec fn searched(c: ContextView, forward: bool) -> ContextView {
    match (c.search_state, c.curr_list()) {
        (Some(p), Some(l)) => match search_among(
            pattern_hits(l, p),
            l.index,
            p is Glob || forward,
        ) {
            Some(k) => cursor_moved(c, k),
            None => c,
        },
        _ => c,
    }
}

/// A search ends on a marked entry of the listing.
pub proof fn lemma_first_hit(hits: Seq<bool>, k: int, steps: nat, forward: bool)
    requires
        0 <= k < hits.len(),
    ensures
        first_hit(hits, k, steps, forward) matches Some(r) ==> 0 <= r < hits.len() && hits[r],
    decreases steps,
{
    if steps > 0 && !hits[k] {
        lemma_first_hit(hits, ring_step(k, hits.len() as int, forward), (steps - 1) as nat, forward);
    }
}

/// Searches among the entries that `hits` marks, starting at the cursor.
pub fn find_hit(hits: &Vec<bool>, index: Option<usize>, forward: bool) -> (r: Option<usize>)
    requires
        index matches Some(i) ==> i < hits.len(),
    ensures
        r is Some <==> search_among(
            hits@,
            match index {
                Some(i) => Some(i as int),
                None => None,
            },
            forward,
        ) is Some,
        r matches Some(k) ==> k < hits.len() && hits@[k as int] && Some(k as int) == search_among(
            hits@,
            match index {
                Some(i) => Some(i as int),
                None => None,
            },
            forward,
        ),
{
    let start = match index {
        Some(i) => i,
        None => {
            return None;
        },
    };
    let len: usize = hits.len();
    let mut k: usize = step_in_ring(start, len, forward);
    let ghost first = k as int;
    let mut steps: usize = len;
    while steps > 0
        invariant
            len == hits.len(),
            k < len,
            steps <= len,
            index == Some(start),
            first == ring_step(start as int, len as int, forward),
            first_hit(hits@, first, len as nat, forward) == first_hit(
                hits@,
                k as int,
                steps as nat,
                forward,
            ),
        decreases steps,
    {
        if hits[k] {
            return Some(k);
        }
        k = step_in_ring(k, len, forward);
        steps = steps - 1;
    }
    None
}

fn step_in_ring(k: usize, len: usize, forward: bool) -> (r: usize)
    requires
        k < len,
    ensures
        r == ring_step(k as int, len as int, forward),
        r < len,
{
    if forward {
        if k + 1 >= len {
            0
        } else {
            k + 1
        }
    } else {
        if k == 0 {
            len - 1
        } else {
            k - 1
        }
    }
}

fn hits_of(list: &DirectoryListing, pattern: &SearchPattern) -> (hits: Vec<bool>)
    ensures
        hits@ == pattern_hits(list@, pattern@),
{
    let mut hits: Vec<bool> = Vec::new();
    match pattern {
        SearchPattern::Glob(p) => {
            let glob = compile_glob(p.as_str());
            let mut i: usize = 0;
            while i < list.len()
                invariant
                    i <= list@.entries.len(),
                    hits.len() == i,
                    glob is Some <==> glob_valid(p@),
                    glob matches Some(s) ==> glob_set_patterns(s) == seq![p@],
                    forall|j: int|
                        0 <= j < i ==> hits@[j] == entry_matches(pattern@, list@.entries[j].name),
                    pattern@ == PatternView::Glob(p@),
                decreases list@.entries.len() - i,
            {
                let hit = match &glob {
                    Some(s) => glob_is_match(s, list.entry(i).file_name(), Ghost(p@)),
                    None => false,
                };
                hits.push(hit);
                i = i + 1;
            }
        },
        SearchPattern::String(s) => {
            let mut i: usize = 0;
            while i < list.len()
                invariant
                    i <= list@.entries.len(),
                    hits.len() == i,
                    forall|j: int|
                        0 <= j < i ==> hits@[j] == entry_matches(pattern@, list@.entries[j].name),
                    pattern@ == PatternView::String(s@),
                decreases list@.entries.len() - i,
            {
                let name = to_lowercase(list.entry(i).file_name());
                hits.push(text_contains(name.as_str(), s.as_str()));
                i = i + 1;
            }
        },
    }
    assert(hits@ =~= pattern_hits(list@, pattern@));
    hits
}

fn search(context: &mut JoshutoContext, forward: bool)
    requires
        old(context)@.wf(),
    ensures
        final(context)@ == searched(old(context)@, forward),
        final(context)@.wf(),
{
    let found: Option<usize> = match (context.get_search_state(), context.curr_list_ref()) {
        (Some(pattern), Some(list)) => {
            let hits = hits_of(list, pattern);
            let is_glob = match pattern {
                SearchPattern::Glob(_) => true,
                SearchPattern::String(_) => false,
            };
            proof {
                crate::history::lemma_find_path(
                    context@.curr_tab().history,
                    context@.curr_tab().cwd,
                    0,
                );
            }
            find_hit(&hits, list.index(), is_glob || forward)
        },
        _ => None,
    };
    match found {
        Some(index) => {
            cursor_move(index, context);
        },
        None => {},
    }
}

/// Moves the cursor to the next entry that is what the user last searched
/// for.
pub fn search_next(context: &mut JoshutoContext) -> (r: JoshutoResult<()>)
    requires
        old(context)@.wf(),
    ensures
        r is Ok,
        final(context)@ == searched(old(context)@, true),
        final(context)@.wf(),
{
    search(context, true);
    Ok(())
}

/// Moves the cursor to the previous entry that holds the text the user
/// last searched for. A glob is searched for forward, as by
/// [`search_next`].
pub fn search_prev(context: &mut JoshutoContext) -> (r: JoshutoResult<()>)
    requires
        old(context)@.wf(),
    ensures
        r is Ok,
        final(context)@ == searched(old(context)@, false),
        final(context)@.wf(),
{
    search(context, false);
    Ok(())
}

} // verus!
