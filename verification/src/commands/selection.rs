use crate::context::{lemma_with_curr_list_wf, ContextView, JoshutoContext};
use crate::error::{JoshutoError, JoshutoErrorKind, JoshutoResult};
use crate::fs::dirlist::{lemma_with_selected_wf, DirectoryListing, ListingView};
use crate::history::lemma_find_path;
use crate::util::glob::{compile_glob, glob_is_match, glob_matches, glob_valid};
use vstd::prelude::*;
use vstd::string::StringExecFns;

verus! {

/// How a selection command treats the entries it applies to.
#[derive(Clone, Copy, Debug, PartialEq, Eq, Structural, Default)]
pub struct SelectOption {
    /// Flip the selection of each entry.
    pub toggle: bool,
    /// Apply to every entry of the listing, not only to the one under the cursor.
    pub all: bool,
    /// Deselect; this wins over `toggle`.
    pub reverse: bool,
}

/// The selection flag that an entry gets to which a command applies.
pub open spec fn select_value(selected: bool, options: SelectOption) -> bool {
    if options.reverse {
        false
    } else if options.toggle {
        !selected
    } else {
        true
    }
}

/// The listing after a selection command was applied to the entries that
/// `hits` marks; the others keep their flag.
pub open spec fn selected_where(l: ListingView, hits: Seq<bool>, options: SelectOption) -> ListingView {
    ListingView {
        entries: Seq::new(
            l.entries.len(),
            |i: int|
                if hits[i] {
                    l.entries[i].with_selected(select_value(l.entries[i].selected, options))
                } else {
                    l.entries[i]
                },
        ),
        ..l
    }
}

/// The marks of a command that applies to every entry.
pub open spec fn all_hits(l: ListingView) -> Seq<bool> {
    Seq::new(l.entries.len(), |i: int| true)
}

/// The marks of a command that applies to the entries whose name the glob
/// `pattern` matches.
pub open spec fn glob_hits(l: ListingView, pattern: Seq<char>) -> Seq<bool> {
    Seq::new(l.entries.len(), |i: int| glob_matches(pattern, l.entries[i].name))
}

/// The session after a selection command was applied to the entries of the
/// listing shown that `hits` marks.
pub open spec fn selected_entries(c: ContextView, hits: Seq<bool>, options: SelectOption) -> ContextView {
    match c.curr_list() {
        Some(l) => c.with_curr_list(selected_where(l, hits, options)),
        None => c,
    }
}

/// The session after a selection command without a pattern: with `all` it
/// applies to every entry of the listing shown; otherwise to the entry under
/// the cursor, and the cursor then moves down by one.
pub open spec fn selected_without_pattern(c: ContextView, options: SelectOption) -> ContextView {
    match c.curr_list() {
        Some(l) => if options.all {
            selected_entries(c, all_hits(l), options)
        } else {
            match l.index {
                Some(i) => c.with_curr_list(
                    l.with_selected(i, select_value(l.entries[i].selected, options)).moved_to(
                        i + 1,
                    ),
                ),
                None => c,
            }
        },
        None => c,
    }
}

/// The session after a selection command with the glob `pattern`, which
/// applies to the entries of the listing shown whose name the glob matches.
pub open spec fn selected_with_pattern(c: ContextView, pattern: Seq<char>, options: SelectOption) -> ContextView {
    match c.curr_list() {
        Some(l) => selected_entries(c, glob_hits(l, pattern), options),
        None => c,
    }
}

/// Applying a selection command keeps the invariant of a listing, its path
/// and its cursor.
pub proof fn lemma_selected_where_wf(l: ListingView, hits: Seq<bool>, options: SelectOption)
    requires
        l.wf(),
    ensures
        selected_where(l, hits, options).wf(),
{
    let t = selected_where(l, hits, options).entries;
    assert forall|a: int, b: int| 0 <= a < b < t.len() implies (#[trigger] t[a]).name != (
    #[trigger] t[b]).name by {
        assert(t[a].name == l.entries[a].name && t[b].name == l.entries[b].name);
    }
    assert forall|a: int, b: int| 0 <= a < b < t.len() implies crate::util::sort::entry_before(
        #[trigger] t[a],
        #[trigger] t[b],
        l.sort,
    ) by {
        assert(crate::util::sort::entry_before(l.entries[a], l.entries[b], l.sort));
    }
}

fn select_in_list(list: &mut DirectoryListing, hits: &Vec<bool>, options: &SelectOption)
    requires
        old(list)@.wf(),
        hits.len() == old(list)@.entries.len(),
    ensures
        final(list)@ == selected_where(old(list)@, hits@, *options),
        final(list)@.wf(),
{
    let ghost l = list@;
    let mut i: usize = 0;
    while i < list.len()
        invariant
            i <= l.entries.len(),
            hits.len() == l.entries.len(),
            list@.wf(),
            list@ == (ListingView {
                entries: Seq::new(
                    l.entries.len(),
                    |j: int|
                        if j < i {
                            selected_where(l, hits@, *options).entries[j]
                        } else {
                            l.entries[j]
                        },
                ),
                ..l
            }),
        decreases l.entries.len() - i,
    {
        if hits[i] {
            let selected = list.entry(i).is_selected();
            let value = if options.reverse {
                false
            } else if options.toggle {
                !selected
            } else {
                true
            };
            list.set_selected(i, value);
        }
        i = i + 1;
        assert(list@ =~= (ListingView {
            entries: Seq::new(
                l.entries.len(),
                |j: int|
                    if j < i {
                        selected_where(l, hits@, *options).entries[j]
                    } else {
                        l.entries[j]
                    },
            ),
            ..l
        }));
    }
    assert(list@ =~= selected_where(l, hits@, *options));
}

/// Applies a selection command to the entries of the listing shown that
/// `hits` marks, one mark for each entry.
pub fn select_entries(context: &mut JoshutoContext, hits: &Vec<bool>, options: &SelectOption)
    requires
        old(context)@.wf(),
        old(context)@.curr_list() matches Some(l) ==> hits.len() == l.entries.len(),
    ensures
        final(context)@ == selected_entries(old(context)@, hits@, *options),
        final(context)@.wf(),
{
    proof {
        let c = context@;
        if let Some(l) = c.curr_list() {
            lemma_find_path(c.curr_tab().history, c.curr_tab().cwd, 0);
            lemma_selected_where_wf(l, hits@, *options);
            lemma_with_curr_list_wf(c, selected_where(l, hits@, *options));
        }
    }
    match context.curr_list_mut() {
        Some(list) => {
            select_in_list(list, hits, options);
        },
        None => {},
    }
}

fn curr_len(context: &JoshutoContext) -> (n: usize)
    requires
        context@.wf(),
    ensures
        context@.curr_list() matches Some(l) ==> n == l.entries.len(),
{
    match context.curr_list_ref() {
        Some(list) => list.len(),
        None => 0,
    }
}

/// Applies a selection command without a pattern: to every entry of the
/// listing shown, or to the entry under the cursor, which then moves on.
pub fn select_without_pattern(context: &mut JoshutoContext, options: &SelectOption) -> (r:
    JoshutoResult<()>)
    requires
        old(context)@.wf(),
    ensures
        r is Ok,
        final(context)@ == selected_without_pattern(old(context)@, *options),
        final(context)@.wf(),
{
    let ghost c = context@;
    if options.all {
        let n = curr_len(context);
        let mut hits: Vec<bool> = Vec::new();
        while hits.len() < n
            invariant
                hits.len() <= n,
                forall|j: int| 0 <= j < hits.len() ==> hits@[j],
            decreases n - hits.len(),
        {
            hits.push(true);
        }
        proof {
            if let Some(l) = c.curr_list() {
                assert(hits@ =~= all_hits(l));
            }
        }
        select_entries(context, &hits, options);
    } else {
        proof {
            if let Some(l) = c.curr_list() {
                lemma_find_path(c.curr_tab().history, c.curr_tab().cwd, 0);
                if let Some(i) = l.index {
                    let marked = l.with_selected(i, select_value(l.entries[i].selected, *options));
                    lemma_with_selected_wf(l, i, select_value(l.entries[i].selected, *options));
                    lemma_with_curr_list_wf(c, marked.moved_to(i + 1));
                } else {
                    crate::context::lemma_with_curr_list_same(c);
                }
            }
        }
        match context.curr_list_mut() {
            Some(list) => {
                match list.index() {
                    Some(i) => {
                        let selected = list.entry(i).is_selected();
                        let value = if options.reverse {
                            false
                        } else if options.toggle {
                            !selected
                        } else {
                            true
                        };
                        list.set_selected(i, value);
                        let len: usize = list.len();
                        list.cursor_move(i.saturating_add(1));
                        assert(list@ == old(context)@.curr_list()->0.with_selected(
                            i as int,
                            value,
                        ).moved_to(i + 1));
                    },
                    None => {},
                }
            },
            None => {},
        }
    }
    Ok(())
}

/// The message of the error that a malformed glob gives.
pub open spec fn invalid_glob_message() -> Seq<char> {
    "Invalid glob input"@
}

/// Applies a selection command to the entries of the listing shown whose
/// name the glob `pattern` matches. A malformed glob is an error and leaves
/// the session as it is.
pub fn select_with_pattern(context: &mut JoshutoContext, pattern: &str, options: &SelectOption) -> (r:
    JoshutoResult<()>)
    requires
        old(context)@.wf(),
    ensures
        r is Ok <==> glob_valid(pattern@),
        r is Ok ==> final(context)@ == selected_with_pattern(old(context)@, pattern@, *options),
        r matches Err(e) ==> final(context)@ == old(context)@ && e@.kind
            == JoshutoErrorKind::IoInvalidData && e@.cause == invalid_glob_message(),
        final(context)@.wf(),
{
    let glob = match compile_glob(pattern) {
        Some(s) => s,
        None => {
            return Err(
                JoshutoError::new(
                    JoshutoErrorKind::IoInvalidData,
                    String::from_str("Invalid glob input"),
                ),
            );
        },
    };
    let mut hits: Vec<bool> = Vec::new();
    match context.curr_list_ref() {
        Some(list) => {
            let mut i: usize = 0;
            while i < list.len()
                invariant
                    i <= list@.entries.len(),
                    hits.len() == i,
                    crate::util::glob::glob_set_patterns(glob) == seq![pattern@],
                    forall|j: int|
                        0 <= j < i ==> hits@[j] == glob_matches(pattern@, list@.entries[j].name),
                decreases list@.entries.len() - i,
            {
                let hit = glob_is_match(&glob, list.entry(i).file_name(), Ghost(pattern@));
                hits.push(hit);
                i = i + 1;
            }
            assert(hits@ =~= glob_hits(list@, pattern@));
        },
        None => {},
    }
    select_entries(context, &hits, options);
    Ok(())
}

/// Applies a selection command to the listing shown: to the entries that
/// the glob `pattern` matches, or, with an empty pattern, as
/// [`select_without_pattern`] does.
pub fn select_files(context: &mut JoshutoContext, pattern: &str, options: &SelectOption) -> (r:
    JoshutoResult<()>)
    requires
        old(context)@.wf(),
    ensures
        r is Ok <==> pattern@.len() == 0 || glob_valid(pattern@),
        r is Ok ==> final(context)@ == (if pattern@.len() == 0 {
            selected_without_pattern(old(context)@, *options)
        } else {
            selected_with_pattern(old(context)@, pattern@, *options)
        }),
        r matches Err(e) ==> final(context)@ == old(context)@ && e@.kind
            == JoshutoErrorKind::IoInvalidData && e@.cause == invalid_glob_message(),
        final(context)@.wf(),
{
    if pattern.is_empty() {
        select_without_pattern(context, options)
    } else {
        select_with_pattern(context, pattern, options)
    }
}

} // verus!
