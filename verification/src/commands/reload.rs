use crate::context::{ContextView, JoshutoContext};
use crate::error::JoshutoResult;
use crate::fs::dirlist::{unreadable_message, DirRead, DirReadView};
use crate::history::{cached, lemma_reload_path_wf, reload_path};
use crate::tab::TabView;
use crate::util::sort::SortOption;
use vstd::prelude::*;
use vstd::string::StringExecFns;

verus! {

/// The tab after a reload of `path`.
pub open spec fn tab_reloaded(t: TabView, path: Seq<char>, read: DirReadView, options: SortOption) -> TabView {
    TabView { history: reload_path(t.history, path, read, options), ..t }
}

/// Whether a reload of `path` fails in some tab: the directory cannot be
/// read and some tab has its listing loaded.
pub open spec fn reload_fails(tabs: Seq<TabView>, path: Seq<char>, read: DirReadView) -> bool {
    read is Unreadable && exists|i: int|
        0 <= i < tabs.len() && cached((#[trigger] tabs[i]).history, path) is Some
}

/// The session after `path` was reloaded in every tab, with the sort
/// options of the session. A directory that cannot be read stays listed,
/// marked invalid, and the user gets a message, once.
pub open spec fn reloaded(c: ContextView, path: Seq<char>, read: DirReadView) -> ContextView {
    let after = ContextView {
        tabs: Seq::new(
            c.tabs.len(),
            |i: int| tab_reloaded(c.tabs[i], path, read, c.config.sort_option),
        ),
        ..c
    };
    if reload_fails(c.tabs, path, read) {
        after.with_message(unreadable_message(path))
    } else {
        after
    }
}

/// A reload in every tab keeps the invariant of the session, and no tab
/// loses a listing by it.
pub proof fn lemma_reloaded_wf(c: ContextView, path: Seq<char>, read: DirReadView)
    requires
        c.wf(),
    ensures
        reloaded(c, path, read).wf(),
        reloaded(c, path, read).tabs.len() == c.tabs.len(),
        forall|i: int, p: Seq<char>|
            0 <= i < c.tabs.len() ==> (cached(
                (#[trigger] reloaded(c, path, read).tabs[i]).history,
                p,
            ) is Some <==> #[trigger] cached(c.tabs[i].history, p) is Some),
        reloaded(c, path, read).worker == c.worker,
{
    let r = reloaded(c, path, read);
    assert forall|i: int| 0 <= i < r.tabs.len() implies (#[trigger] r.tabs[i]).wf() by {
        assert(c.tabs[i].wf());
        lemma_reload_path_wf(c.tabs[i].history, path, read, c.config.sort_option);
    }
    assert forall|i: int, p: Seq<char>| 0 <= i < c.tabs.len() implies (cached(
        (#[trigger] r.tabs[i]).history,
        p,
    ) is Some <==> #[trigger] cached(c.tabs[i].history, p) is Some) by {
        assert(c.tabs[i].wf());
        lemma_reload_path_wf(c.tabs[i].history, path, read, c.config.sort_option);
        lemma_same_paths(c.tabs[i].history, r.tabs[i].history, p);
    }
}

/// Two caches that list the same directories at the same positions have
/// the same directories cached.
pub proof fn lemma_same_paths(
    h: Seq<crate::fs::dirlist::ListingView>,
    t: Seq<crate::fs::dirlist::ListingView>,
    p: Seq<char>,
)
    requires
        h.len() == t.len(),
        forall|i: int| 0 <= i < h.len() ==> (#[trigger] t[i]).path == h[i].path,
    ensures
        crate::history::find_path(h, p, 0) == crate::history::find_path(t, p, 0),
{
    crate::history::lemma_find_path(h, p, 0);
    crate::history::lemma_find_path(t, p, 0);
    let a = crate::history::find_path(h, p, 0);
    let b = crate::history::find_path(t, p, 0);
    if a < b {
        assert(t[a].path == h[a].path);
    } else if b < a {
        assert(t[b].path == h[b].path);
    }
}

/// Reads `path` anew in every tab that has its listing loaded.
pub fn reload_everywhere(context: &mut JoshutoContext, path: &str, read: &DirRead)
    requires
        old(context)@.wf(),
    ensures
        final(context)@ == reloaded(old(context)@, path@, read@),
        final(context)@.wf(),
{
    let ghost c = context@;
    let options = context.config_ref().sort_option;
    let n: usize = context.tab_count();
    let mut failed = false;
    let mut i: usize = 0;
    while i < n
        invariant
            i <= n,
            n == c.tabs.len(),
            c.wf(),
            options == c.config.sort_option,
            context@ == (ContextView {
                tabs: Seq::new(
                    c.tabs.len(),
                    |j: int|
                        if j < i {
                            tab_reloaded(c.tabs[j], path@, read@, options)
                        } else {
                            c.tabs[j]
                        },
                ),
                ..c
            }),
            failed <==> read@ is Unreadable && exists|j: int|
                0 <= j < i && cached((#[trigger] c.tabs[j]).history, path@) is Some,
        decreases n - i,
    {
        let tab = context.tab_mut(i);
        assert(tab@ == c.tabs[i as int]);
        assert(tab@.wf());
        let history = tab.history_mut();
        let r = history.reload(path, read, &options);
        if r.is_err() {
            failed = true;
        }
        i = i + 1;
        assert(context@ =~= (ContextView {
            tabs: Seq::new(
                c.tabs.len(),
                |j: int|
                    if j < i {
                        tab_reloaded(c.tabs[j], path@, read@, options)
                    } else {
                        c.tabs[j]
                    },
            ),
            ..c
        }));
    }
    proof {
        lemma_reloaded_wf(c, path@, read@);
        assert(failed == reload_fails(c.tabs, path@, read@));
        assert(context@ =~= (ContextView {
            tabs: Seq::new(
                c.tabs.len(),
                |j: int| tab_reloaded(c.tabs[j], path@, read@, options),
            ),
            ..c
        }));
    }
    if failed {
        context.push_msg(String::from_str("cannot read directory ").concat(path));
    }
}

/// The view of a result that carries nothing but a possible error.
pub open spec fn outcome_view(r: JoshutoResult<()>) -> Result<(), crate::error::ErrorView> {
    match r {
        Ok(_) => Ok(()),
        Err(e) => Err(e@),
    }
}

/// The error that a reload of the cached but unreadable directory `path`
/// gives.
pub open spec fn unreadable_error(path: Seq<char>) -> crate::error::ErrorView {
    crate::error::ErrorView {
        kind: crate::error::JoshutoErrorKind::IoNotFound,
        cause: unreadable_message(path),
    }
}

/// The tab after the directory it shows, and then the directory above it,
/// were read anew, and how that ended. The first directory that is loaded
/// but cannot be read ends the reload with its error.
pub open spec fn tab_refreshed(
    t: TabView,
    curr_read: DirReadView,
    parent_read: DirReadView,
    options: SortOption,
) -> (TabView, Result<(), crate::error::ErrorView>) {
    let first = tab_reloaded(t, t.cwd, curr_read, options);
    if cached(t.history, t.cwd) is Some && curr_read is Unreadable {
        (first, Err(unreadable_error(t.cwd)))
    } else {
        match t.parent {
            Some(p) => {
                let second = tab_reloaded(first, p, parent_read, options);
                if cached(first.history, p) is Some && parent_read is Unreadable {
                    (second, Err(unreadable_error(p)))
                } else {
                    (second, Ok(()))
                }
            },
            None => (first, Ok(())),
        }
    }
}

/// The session after the tab at position `index` was refreshed; a session
/// without such a tab stays as it is.
pub open spec fn tab_reload(
    c: ContextView,
    index: int,
    curr_read: DirReadView,
    parent_read: DirReadView,
) -> (ContextView, Result<(), crate::error::ErrorView>) {
    if 0 <= index < c.tabs.len() {
        let (t, r) = tab_refreshed(c.tabs[index], curr_read, parent_read, c.config.sort_option);
        (ContextView { tabs: c.tabs.update(index, t), ..c }, r)
    } else {
        (c, Ok(()))
    }
}

/// Reads anew the directory that the tab at position `index` shows, and
/// then the directory above it, as far as their listings are loaded.
pub fn reload(context: &mut JoshutoContext, index: usize, curr_read: &DirRead, parent_read: &DirRead) -> (r:
    JoshutoResult<()>)
    requires
        old(context)@.wf(),
    ensures
        (final(context)@, outcome_view(r)) == tab_reload(
            old(context)@,
            index as int,
            curr_read@,
            parent_read@,
        ),
        final(context)@.wf(),
{
    let ghost c = context@;
    let options = context.config_ref().sort_option;
    if index >= context.tab_count() {
        return Ok(());
    }
    let tab = context.tab_mut(index);
    let ghost t = tab@;
    assert(t.wf());
    let cwd = tab.pwd().to_owned();
    let parent: Option<String> = match tab.parent() {
        Some(p) => Some(p.to_owned()),
        None => None,
    };
    let history = tab.history_mut();
    proof {
        lemma_reload_path_wf(t.history, t.cwd, curr_read@, options);
    }
    match history.reload(cwd.as_str(), curr_read, &options) {
        Err(e) => {
            assert(context@ =~= tab_reload(c, index as int, curr_read@, parent_read@).0);
            return Err(e);
        },
        Ok(_) => {},
    }
    let r = match parent {
        Some(p) => history.reload(p.as_str(), parent_read, &options),
        None => Ok(()),
    };
    assert(context@ =~= tab_reload(c, index as int, curr_read@, parent_read@).0);
    r
}

} // verus!
