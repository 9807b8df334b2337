use crate::fs::dirlist::{DirectoryListing, ListingView};
use crate::history::{cached, find_path, history_wf, lemma_find_path, DirectoryHistory};
use vstd::prelude::*;

verus! {

/// The mathematical content of a [`JoshutoTab`].
#[verifier::ext_equal]
pub struct TabView {
    /// The directory that the tab shows.
    pub cwd: Seq<char>,
    /// The directory above it, if there is one.
    pub parent: Option<Seq<char>>,
    /// The listings that the tab has loaded.
    pub history: Seq<ListingView>,
}

impl TabView {
    /// The invariant of a tab: that of its cache.
    pub open spec fn wf(self) -> bool {
        history_wf(self.history)
    }

    /// The listing of the directory that the tab shows, if it is loaded.
    pub open spec fn curr_list(self) -> Option<ListingView> {
        cached(self.history, self.cwd)
    }

    /// The listing of the directory above, if there is one and it is loaded.
    pub open spec fn parent_list(self) -> Option<ListingView> {
        match self.parent {
            Some(p) => cached(self.history, p),
            None => None,
        }
    }

    /// The tab with the listing of `path` replaced by `l`; the tab itself
    /// where no listing of `path` is loaded.
    pub open spec fn with_list(self, path: Seq<char>, l: ListingView) -> TabView {
        let k = find_path(self.history, path, 0);
        if k < self.history.len() {
            TabView { history: self.history.update(k, l), ..self }
        } else {
            self
        }
    }
}

/// Replacing a loaded listing by a well-formed one of the same directory
/// keeps the invariant of the tab.
pub proof fn lemma_with_list_wf(t: TabView, path: Seq<char>, l: ListingView)
    requires
        t.wf(),
        l.wf(),
        cached(t.history, path) matches Some(prev) && prev.path == l.path,
    ensures
        t.with_list(path, l).wf(),
{
    lemma_find_path(t.history, path, 0);
    crate::history::lemma_update_wf(t.history, find_path(t.history, path, 0), l);
}

/// Replacing a loaded listing by itself changes nothing.
pub proof fn lemma_with_list_same(t: TabView, path: Seq<char>)
    requires
        cached(t.history, path) is Some,
    ensures
        t.with_list(path, cached(t.history, path)->0) == t,
{
    lemma_find_path(t.history, path, 0);
    assert(t.with_list(path, cached(t.history, path)->0) =~= t);
}

/// One tab of the session: a directory and the listings loaded on the way.
#[derive(Debug, PartialEq, Eq)]
pub struct JoshutoTab {
    cwd: String,
    parent: Option<String>,
    history: DirectoryHistory,
}

impl View for JoshutoTab {
    type V = TabView;

    closed spec fn view(&self) -> TabView {
        TabView {
            cwd: self.cwd@,
            parent: match self.parent {
                Some(p) => Some(p@),
                None => None,
            },
            history: self.history@,
        }
    }
}

impl JoshutoTab {
    /// A tab on `cwd` that has loaded nothing yet.
    pub fn new(cwd: String, parent: Option<String>) -> (t: JoshutoTab)
        ensures
            t@ == (TabView {
                cwd: cwd@,
                parent: match parent {
                    Some(p) => Some(p@),
                    None => None,
                },
                history: Seq::empty(),
            }),
            t@.wf(),
    {
        JoshutoTab { cwd, parent, history: DirectoryHistory::new() }
    }

    /// The directory that the tab shows.
    pub fn pwd(&self) -> (p: &str)
        ensures
            p@ == self@.cwd,
    {
        self.cwd.as_str()
    }

    /// The directory above the one that the tab shows.
    pub fn parent(&self) -> (p: Option<&str>)
        ensures
            p is Some <==> self@.parent is Some,
            p matches Some(x) ==> Some(x@) == self@.parent,
    {
        match &self.parent {
            Some(p) => Some(p.as_str()),
            None => None,
        }
    }

    /// Makes the tab show the directory `cwd`.
    pub fn set_cwd(&mut self, cwd: String)
        ensures
            final(self)@ == (TabView { cwd: cwd@, ..old(self)@ }),
    {
        self.cwd = cwd;
    }

    /// The listings that the tab has loaded.
    pub fn history_ref(&self) -> (h: &DirectoryHistory)
        ensures
            h@ == self@.history,
    {
        &self.history
    }

    /// The listings that the tab has loaded, to be changed in place.
    pub fn history_mut(&mut self) -> (h: &mut DirectoryHistory)
        ensures
            h@ == old(self)@.history,
            final(self)@ == (TabView { history: final(h)@, ..old(self)@ }),
    {
        &mut self.history
    }

    /// The listing of the directory that the tab shows.
    pub fn curr_list_ref(&self) -> (l: Option<&DirectoryListing>)
        ensures
            l is Some <==> self@.curr_list() is Some,
            l matches Some(x) ==> Some(x@) == self@.curr_list(),
    {
        self.history.get(self.cwd.as_str())
    }

    /// The listing of the directory that the tab shows, to be changed in
    /// place.
    pub fn curr_list_mut(&mut self) -> (l: Option<&mut DirectoryListing>)
        ensures
            l is Some <==> old(self)@.curr_list() is Some,
            l is None ==> final(self)@ == old(self)@,
            l matches Some(x) ==> Some(x@) == old(self)@.curr_list() && final(self)@ == old(
                self,
            )@.with_list(old(self)@.cwd, final(x)@),
    {
        let k = self.history.position(self.cwd.as_str());
        if k < self.history.len() {
            Some(self.history.list_mut(k))
        } else {
            None
        }
    }

    /// The listing of the directory above the one that the tab shows.
    pub fn parent_list_ref(&self) -> (l: Option<&DirectoryListing>)
        ensures
            l is Some <==> self@.parent_list() is Some,
            l matches Some(x) ==> Some(x@) == self@.parent_list(),
    {
        match &self.parent {
            Some(p) => self.history.get(p.as_str()),
            None => None,
        }
    }

    /// The listing of the directory above the one that the tab shows, to be
    /// changed in place.
    pub fn parent_list_mut(&mut self) -> (l: Option<&mut DirectoryListing>)
        ensures
            l is Some <==> old(self)@.parent_list() is Some,
            l is None ==> final(self)@ == old(self)@,
            l matches Some(x) ==> Some(x@) == old(self)@.parent_list() && final(self)@ == old(
                self,
            )@.with_list(old(self)@.parent->0, final(x)@),
    {
        match &self.parent {
            Some(p) => {
                let k = self.history.position(p.as_str());
                if k < self.history.len() {
                    Some(self.history.list_mut(k))
                } else {
                    None
                }
            },
            None => None,
        }
    }
}

} // verus!
