use crate::error::{JoshutoError, JoshutoErrorKind, JoshutoResult};
use crate::fs::dirlist::{
    lemma_reload_idempotent, lemma_reload_wf, load_spec, reload_spec, unreadable_message, DirRead,
    DirReadView, DirectoryListing, ListingView,
};
use crate::util::sort::SortOption;
use vstd::prelude::*;
use vstd::string::StringExecFns;

verus! {

/// The invariant of a cache: every listing satisfies its own invariant, and
/// no directory is listed twice.
pub open spec fn history_wf(h: Seq<ListingView>) -> bool {
    &&& forall|i: int| 0 <= i < h.len() ==> (#[trigger] h[i]).wf()
    &&& forall|i: int, j: int| 0 <= i < j < h.len() ==> (#[trigger] h[i]).path != (#[trigger] h[j]).path
}

/// The first position at or after `from` of the listing of `path`; the
/// length of `h` when there is none.
pub open spec fn find_path(h: Seq<ListingView>, path: Seq<char>, from: int) -> int
    decreases h.len() - from,
{
    if from < 0 || from >= h.len() || h[from].path == path {
        from
    } else {
        find_path(h, path, from + 1)
    }
}

/// The cached listing of `path`, if there is one.
pub open spec fn cached(h: Seq<ListingView>, path: Seq<char>) -> Option<ListingView> {
    let k = find_path(h, path, 0);
    if k < h.len() {
        Some(h[k])
    } else {
        None
    }
}

/// The cache after a reload of `path`: the listing of `path`, if cached, is
/// reloaded; every other listing stays as it is.
pub open spec fn reload_path(
    h: Seq<ListingView>,
    path: Seq<char>,
    read: DirReadView,
    options: SortOption,
) -> Seq<ListingView> {
    h.map_values(
        |l: ListingView|
            if l.path == path {
                reload_spec(l, read, options)
            } else {
                l
            },
    )
}

/// The cache after the listing of `path` was asked for: unchanged if the
/// listing is cached or the directory cannot be read, else with the freshly
/// loaded listing added.
pub open spec fn load_path(
    h: Seq<ListingView>,
    path: Seq<char>,
    read: DirReadView,
    options: SortOption,
) -> Seq<ListingView> {
    if cached(h, path) is Some {
        h
    } else {
        match read {
            DirReadView::Entries(raw) => h.push(load_spec(path, raw, options)),
            DirReadView::Unreadable => h,
        }
    }
}

/// The cache without the listing of `path`.
pub open spec fn evict_path(h: Seq<ListingView>, path: Seq<char>) -> Seq<ListingView> {
    let k = find_path(h, path, 0);
    if k < h.len() {
        h.remove(k)
    } else {
        h
    }
}

/// What [`find_path`] finds: no listing from `from` up to it is that of
/// `path`, and the listing at it, if there is one, is.
pub proof fn lemma_find_path(h: Seq<ListingView>, path: Seq<char>, from: int)
    requires
        0 <= from <= h.len(),
    ensures
        from <= find_path(h, path, from) <= h.len(),
        forall|j: int| from <= j < find_path(h, path, from) ==> (#[trigger] h[j]).path != path,
        find_path(h, path, from) < h.len() ==> h[find_path(h, path, from)].path == path,
    decreases h.len() - from,
{
    if from < h.len() && h[from].path != path {
        lemma_find_path(h, path, from + 1);
    }
}

/// Replacing a listing by a well-formed one of the same directory keeps the
/// invariant of the cache.
pub proof fn lemma_update_wf(h: Seq<ListingView>, k: int, l: ListingView)
    requires
        history_wf(h),
        0 <= k < h.len(),
        l.wf(),
        l.path == h[k].path,
    ensures
        history_wf(h.update(k, l)),
{
    let t = h.update(k, l);
    assert forall|i: int, j: int| 0 <= i < j < t.len() implies (#[trigger] t[i]).path != (
    #[trigger] t[j]).path by {
        assert(t[i].path == h[i].path && t[j].path == h[j].path);
    }
}

/// A reload keeps the invariant of the cache, removes no listing and lists
/// no other directory.
pub proof fn lemma_reload_path_wf(
    h: Seq<ListingView>,
    path: Seq<char>,
    read: DirReadView,
    options: SortOption,
)
    requires
        history_wf(h),
    ensures
        history_wf(reload_path(h, path, read, options)),
        reload_path(h, path, read, options).len() == h.len(),
        forall|i: int|
            0 <= i < h.len() ==> (#[trigger] reload_path(h, path, read, options)[i]).path
                == h[i].path,
{
    let t = reload_path(h, path, read, options);
    assert forall|i: int| 0 <= i < t.len() implies (#[trigger] t[i]).wf() && t[i].path
        == h[i].path by {
        assert(h[i].wf());
        lemma_reload_wf(h[i], read, options);
    }
    assert forall|i: int, j: int| 0 <= i < j < t.len() implies (#[trigger] t[i]).path != (
    #[trigger] t[j]).path by {
        assert(t[i].path == h[i].path && t[j].path == h[j].path);
    }
}

/// Reloading a directory is idempotent: a second reload from the same read
/// of the directory, with the same sort options, leaves every listing of the
/// cache as the first reload left it.
pub proof fn lemma_reload_path_idempotent(
    h: Seq<ListingView>,
    path: Seq<char>,
    read: DirReadView,
    options: SortOption,
)
    requires
        history_wf(h),
    ensures
        reload_path(reload_path(h, path, read, options), path, read, options) == reload_path(
            h,
            path,
            read,
            options,
        ),
{
    let once = reload_path(h, path, read, options);
    let twice = reload_path(once, path, read, options);
    assert forall|i: int| 0 <= i < h.len() implies once[i] == twice[i] by {
        assert(h[i].wf());
        lemma_reload_idempotent(h[i], read, options);
    }
    assert(once =~= twice);
}

/// The listings that a session has loaded, at most one for each directory.
#[derive(Debug, PartialEq, Eq)]
pub struct DirectoryHistory {
    lists: Vec<DirectoryListing>,
}

impl View for DirectoryHistory {
    type V = Seq<ListingView>;

    closed spec fn view(&self) -> Seq<ListingView> {
        self.lists@.map_values(|l: DirectoryListing| l@)
    }
}

impl DirectoryHistory {
    /// A cache that holds no listing.
    pub fn new() -> (h: DirectoryHistory)
        ensures
            h@ == Seq::<ListingView>::empty(),
            history_wf(h@),
    {
        let h = DirectoryHistory { lists: Vec::new() };
        assert(h@ =~= Seq::<ListingView>::empty());
        h
    }

    /// The number of listings held.
    pub fn len(&self) -> (n: usize)
        ensures
            n == self@.len(),
    {
        self.lists.len()
    }

    /// The position of the listing of `path`; the number of listings when
    /// the cache has none.
    pub fn position(&self, path: &str) -> (k: usize)
        ensures
            k == find_path(self@, path@, 0),
            k <= self@.len(),
    {
        let mut k: usize = 0;
        while k < self.lists.len() && !self.lists[k].has_path(path)
            invariant
                k <= self.lists.len(),
                find_path(self@, path@, 0) == find_path(self@, path@, k as int),
            decreases self.lists.len() - k,
        {
            k = k + 1;
        }
        k
    }

    /// Whether the listing of `path` is cached.
    pub fn contains(&self, path: &str) -> (r: bool)
        ensures
            r == (cached(self@, path@) is Some),
    {
        self.position(path) < self.lists.len()
    }

    /// The listing at position `k`.
    pub fn list(&self, k: usize) -> (l: &DirectoryListing)
        requires
            k < self@.len(),
        ensures
            l@ == self@[k as int],
    {
        &self.lists[k]
    }

    /// The listing at position `k`, to be changed in place.
    pub fn list_mut(&mut self, k: usize) -> (l: &mut DirectoryListing)
        requires
            k < old(self)@.len(),
        ensures
            l@ == old(self)@[k as int],
            final(self)@ == old(self)@.update(k as int, final(l)@),
    {
        &mut self.lists[k]
    }

    /// The cached listing of `path`, which may be stale.
    pub fn get(&self, path: &str) -> (r: Option<&DirectoryListing>)
        ensures
            r is Some <==> cached(self@, path@) is Some,
            r matches Some(l) ==> Some(l@) == cached(self@, path@),
    {
        let k = self.position(path);
        if k < self.lists.len() {
            Some(&self.lists[k])
        } else {
            None
        }
    }

    /// The listing of `path`: the cached one, which may be stale, or one
    /// loaded from `read` if none is cached. A directory that is not cached
    /// and cannot be read is an error, and leaves the cache unchanged.
    pub fn get_or_load(&mut self, path: &str, read: &DirRead, options: &SortOption) -> (r:
        JoshutoResult<&DirectoryListing>)
        requires
            history_wf(old(self)@),
        ensures
            final(self)@ == load_path(old(self)@, path@, read@, *options),
            history_wf(final(self)@),
            r is Err <==> cached(old(self)@, path@) is None && read is Unreadable,
            r matches Ok(l) ==> Some(l@) == cached(final(self)@, path@),
            r matches Err(e) ==> e@.kind == JoshutoErrorKind::IoNotFound && e@.cause
                == unreadable_message(path@),
    {
        let k = self.position(path);
        proof {
            lemma_find_path(self@, path@, 0);
        }
        if k < self.lists.len() {
            return Ok(&self.lists[k]);
        }
        match read {
            DirRead::Unreadable => {
                let cause = String::from_str("cannot read directory ").concat(path);
                Err(JoshutoError::new(JoshutoErrorKind::IoNotFound, cause))
            },
            DirRead::Entries(raw) => {
                let l = DirectoryListing::new(path.to_owned(), raw, options);
                self.lists.push(l);
                proof {
                    let h = old(self)@;
                    let t = self@;
                    assert(t =~= h.push(load_spec(path@, read@->Entries_0, *options)));
                    lemma_find_path(t, path@, 0);
                    assert(t[k as int].path == path@);
                }
                Ok(&self.lists[k])
            },
        }
    }

    /// Reads the listing of `path` anew from `read`, keeping selection and
    /// cursor by name. A directory that is not cached is left alone, which is
    /// no error. A cached directory that cannot be read stays cached, marked
    /// invalid, and is reported as an error.
    pub fn reload(&mut self, path: &str, read: &DirRead, options: &SortOption) -> (r: JoshutoResult<
        (),
    >)
        requires
            history_wf(old(self)@),
        ensures
            final(self)@ == reload_path(old(self)@, path@, read@, *options),
            history_wf(final(self)@),
            r is Err <==> cached(old(self)@, path@) is Some && read is Unreadable,
            r matches Err(e) ==> e@.kind == JoshutoErrorKind::IoNotFound && e@.cause
                == unreadable_message(path@),
    {
        let k = self.position(path);
        proof {
            lemma_find_path(self@, path@, 0);
            lemma_reload_path_wf(self@, path@, read@, *options);
        }
        if k < self.lists.len() {
            let r = self.lists[k].reload_contents(read, options);
            proof {
                let h = old(self)@;
                assert forall|i: int| 0 <= i < h.len() && i != k implies (#[trigger] h[i]).path
                    != path@ by {
                    if i < k {
                    } else {
                        assert(h[k as int].path != h[i].path);
                    }
                }
                assert(self@ =~= reload_path(h, path@, read@, *options));
            }
            r
        } else {
            proof {
                assert(self@ =~= reload_path(self@, path@, read@, *options));
            }
            Ok(())
        }
    }

    /// Drops the listing of `path` from the cache, if it is there.
    pub fn evict(&mut self, path: &str)
        requires
            history_wf(old(self)@),
        ensures
            final(self)@ == evict_path(old(self)@, path@),
            history_wf(final(self)@),
    {
        let k = self.position(path);
        if k < self.lists.len() {
            self.lists.remove(k);
            proof {
                let h = old(self)@;
                let t = self@;
                assert(t =~= h.remove(k as int));
                assert forall|i: int| 0 <= i < t.len() implies (#[trigger] t[i]).wf() by {
                    if i < k {
                        assert(t[i] == h[i]);
                    } else {
                        assert(t[i] == h[i + 1]);
                    }
                }
                assert forall|i: int, j: int| 0 <= i < j < t.len() implies (#[trigger] t[i]).path
                    != (#[trigger] t[j]).path by {
                    let a = if i < k { i } else { i + 1 };
                    let b = if j < k { j } else { j + 1 };
                    assert(t[i] == h[a] && t[j] == h[b]);
                }
            }
        }
    }
}

} // verus!
