use crate::context::{lemma_with_curr_list_wf, ContextView, JoshutoContext};
use vstd::prelude::*;

verus! {

/// The session after its cursor was moved to `new_index`: the cursor of the
/// listing shown stands there, or on the last entry if that lies beyond it.
/// Without a listing, or without a cursor in it, nothing changes.
pub open spec fn cursor_moved(c: ContextView, new_index: int) -> ContextView {
    match c.curr_list() {
        Some(l) => c.with_curr_list(l.moved_to(new_index)),
        None => c,
    }
}

/// The session after its cursor was moved up by `u` entries, at most to the
/// first.
pub open spec fn moved_up(c: ContextView, u: int) -> ContextView {
    match c.curr_list() {
        Some(l) => match l.index {
            Some(i) => cursor_moved(
                c,
                if i > u {
                    i - u
                } else {
                    0
                },
            ),
            None => c,
        },
        None => c,
    }
}

/// The session after its cursor was moved down by `u` entries, at most to
/// the last.
pub open spec fn moved_down(c: ContextView, u: int) -> ContextView {
    match c.curr_list() {
        Some(l) => match l.index {
            Some(i) => cursor_moved(c, i + u),
            None => c,
        },
        None => c,
    }
}

/// Moving the cursor keeps the invariant of the session.
pub proof fn lemma_cursor_moved_wf(c: ContextView, new_index: int)
    requires
        c.wf(),
        new_index >= 0,
    ensures
        cursor_moved(c, new_index).wf(),
{
    if let Some(l) = c.curr_list() {
        crate::history::lemma_find_path(c.curr_tab().history, c.curr_tab().cwd, 0);
        lemma_with_curr_list_wf(c, l.moved_to(new_index));
    }
}

/// Moves the cursor of the listing shown to `new_index`.
pub fn cursor_move(new_index: usize, context: &mut JoshutoContext)
    requires
        old(context)@.wf(),
    ensures
        final(context)@ == cursor_moved(old(context)@, new_index as int),
        final(context)@.wf(),
{
    proof {
        lemma_cursor_moved_wf(context@, new_index as int);
        crate::history::lemma_find_path(context@.curr_tab().history, context@.curr_tab().cwd, 0);
    }
    match context.curr_list_mut() {
        Some(list) => {
            list.cursor_move(new_index);
        },
        None => {},
    }
}

fn curr_index(context: &JoshutoContext) -> (i: Option<usize>)
    requires
        context@.wf(),
    ensures
        i is Some <==> context@.curr_list() is Some && context@.curr_list()->0.index is Some,
        i matches Some(k) ==> context@.curr_list()->0.index == Some(k as int),
{
    match context.curr_list_ref() {
        Some(list) => list.index(),
        None => None,
    }
}

/// Moves the cursor of the listing shown up by `u` entries.
pub fn up(context: &mut JoshutoContext, u: usize)
    requires
        old(context)@.wf(),
    ensures
        final(context)@ == moved_up(old(context)@, u as int),
        final(context)@.wf(),
{
    match curr_index(context) {
        Some(idx) => {
            let target: usize = if idx > u {
                idx - u
            } else {
                0
            };
            cursor_move(target, context);
        },
        None => {},
    }
}

/// Moves the cursor of the listing shown down by `u` entries.
pub fn down(context: &mut JoshutoContext, u: usize)
    requires
        old(context)@.wf(),
    ensures
        final(context)@ == moved_down(old(context)@, u as int),
        final(context)@.wf(),
{
    match curr_index(context) {
        Some(idx) => {
            let len: usize = match context.curr_list_ref() {
                Some(list) => list.len(),
                None => 0,
            };
            let target: usize = idx.saturating_add(u);
            assert(context@.curr_list()->0.moved_to(target as int) == context@.curr_list()->0.moved_to(
                idx + u,
            ));
            cursor_move(target, context);
        },
        None => {},
    }
}

} // verus!
