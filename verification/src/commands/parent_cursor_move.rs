use crate::context::{lemma_with_parent_list_wf, ContextView, JoshutoContext};
use crate::tab::TabView;
use crate::util::text::chars_of;
use vstd::prelude::*;
use vstd::string::StringExecFns;

verus! {

/// The path of the entry `name` of the directory `dir`.
pub open spec fn child_path(dir: Seq<char>, name: Seq<char>) -> Seq<char> {
    if dir.len() > 0 && dir.last() == '/' {
        dir + name
    } else {
        dir + "/"@ + name
    }
}

/// The path of the entry `name` of the directory `dir`.
pub fn join_path(dir: &str, name: &str) -> (p: String)
    ensures
        p@ == child_path(dir@, name@),
{
    let chars = chars_of(dir);
    let n: usize = chars.len();
    proof {
        reveal_strlit("/");
    }
    if n > 0 && chars[n - 1] == '/' {
        String::from_str(dir).concat(name)
    } else {
        String::from_str(dir).concat("/").concat(name)
    }
}

/// The session after the cursor of the listing above was moved to
/// `new_index`, or to the last entry if that lies beyond it. The move takes
/// place only onto a directory, which the tab then shows. Without that
/// listing, or without a cursor in it, nothing changes.
pub open spec fn parent_cursor_moved(c: ContextView, new_index: int) -> ContextView {
    match c.parent_list() {
        Some(l) => {
            let k = if new_index >= l.entries.len() {
                l.entries.len() - 1
            } else {
                new_index
            };
            if l.index is Some && l.entries.len() > 0 && l.entries[k].is_dir {
                let moved = c.with_parent_list(l.moved_to(new_index));
                moved.with_curr_tab(
                    TabView { cwd: child_path(l.path, l.entries[k].name), ..moved.curr_tab() },
                )
            } else {
                c
            }
        },
        None => c,
    }
}

/// The session after the cursor of the listing above was moved up by `u`
/// entries, at most to the first.
pub open spec fn parent_moved_up(c: ContextView, u: int) -> ContextView {
    match c.parent_list() {
        Some(l) => match l.index {
            Some(i) => parent_cursor_moved(
                c,
                if i > u {
                    i - u
                } else {
                    0
                },
            ),
            None => c,
        },
        None => c,
    }
}

/// The session after the cursor of the listing above was moved down by `u`
/// entries, at most to the last.
pub open spec fn parent_moved_down(c: ContextView, u: int) -> ContextView {
    match c.parent_list() {
        Some(l) => match l.index {
            Some(i) => parent_cursor_moved(c, i + u),
            None => c,
        },
        None => c,
    }
}

/// Moves the cursor of the listing above to `new_index`, and the tab into
/// the directory that it then stands on.
pub fn parent_cursor_move(new_index: usize, context: &mut JoshutoContext)
    requires
        old(context)@.wf(),
    ensures
        final(context)@ == parent_cursor_moved(old(context)@, new_index as int),
        final(context)@.wf(),
{
    let ghost c = context@;
    let tab = context.curr_tab_mut();
    let mut new_cwd: Option<String> = None;
    proof {
        if let Some(p) = c.curr_tab().parent {
            crate::history::lemma_find_path(c.curr_tab().history, p, 0);
        }
    }
    match tab.parent_list_mut() {
        Some(list) => {
            if list.index().is_some() && list.len() > 0 {
                let last: usize = list.len() - 1;
                let k: usize = if new_index > last {
                    last
                } else {
                    new_index
                };
                if list.entry(k).is_dir() {
                    new_cwd = Some(join_path(list.path(), list.entry(k).file_name()));
                    list.cursor_move(new_index);
                }
            }
        },
        None => {},
    }
    proof {
        let t0 = c.curr_tab();
        match c.parent_list() {
            Some(l) => {
                if new_cwd is Some {
                    assert(tab@ =~= t0.with_list(t0.parent->0, l.moved_to(new_index as int)));
                } else {
                    assert(tab@ =~= t0);
                }
            },
            None => {
                assert(tab@ =~= t0);
            },
        }
    }
    match new_cwd {
        Some(cwd) => {
            tab.set_cwd(cwd);
        },
        None => {},
    }
    proof {
        if let Some(l) = c.parent_list() {
            if l.index is Some && l.entries.len() > 0 {
                lemma_with_parent_list_wf(c, l.moved_to(new_index as int));
            }
        }
        assert(context@ =~= parent_cursor_moved(c, new_index as int));
    }
}

fn parent_index(context: &JoshutoContext) -> (i: Option<usize>)
    requires
        context@.wf(),
    ensures
        i is Some <==> context@.parent_list() is Some && context@.parent_list()->0.index is Some,
        i matches Some(k) ==> context@.parent_list()->0.index == Some(k as int),
{
    match context.parent_list_ref() {
        Some(list) => list.index(),
        None => None,
    }
}

/// Moves the cursor of the listing above up by `u` entries.
pub fn parent_up(context: &mut JoshutoContext, u: usize)
    requires
        old(context)@.wf(),
    ensures
        final(context)@ == parent_moved_up(old(context)@, u as int),
        final(context)@.wf(),
{
    match parent_index(context) {
        Some(idx) => {
            let target: usize = if idx > u {
                idx - u
            } else {
                0
            };
            parent_cursor_move(target, context);
        },
        None => {},
    }
}

/// Moves the cursor of the listing above down by `u` entries.
pub fn parent_down(context: &mut JoshutoContext, u: usize)
    requires
        old(context)@.wf(),
    ensures
        final(context)@ == parent_moved_down(old(context)@, u as int),
        final(context)@.wf(),
{
    match parent_index(context) {
        Some(idx) => {
            let len: usize = match context.parent_list_ref() {
                Some(list) => list.len(),
                None => 0,
            };
            let target: usize = idx.saturating_add(u);
            assert(parent_cursor_moved(context@, target as int) == parent_cursor_moved(
                context@,
                idx + u,
            ));
            parent_cursor_move(target, context);
        },
        None => {},
    }
}

} // verus!
