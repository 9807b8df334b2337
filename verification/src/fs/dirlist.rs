use crate::error::{JoshutoError, JoshutoErrorKind, JoshutoResult};
use crate::fs::entry::{Entry, EntryView};
use crate::util::sort::{
    comes_before, entry_before, lemma_entry_before_total, lemma_entry_before_transitive,
    SortOption,
};
use vstd::prelude::*;
use vstd::string::StringExecFns;

verus! {

/// The contents of a list of entries.
pub open spec fn entry_views(v: Seq<Entry>) -> Seq<EntryView> {
    v.map_values(|e: Entry| e@)
}

/// Whether some entry of `s` is called `name`.
pub open spec fn has_name(s: Seq<EntryView>, name: Seq<char>) -> bool {
    exists|i: int| 0 <= i < s.len() && (#[trigger] s[i]).name == name
}

/// No two entries of `s` share a name.
pub open spec fn unique_names(s: Seq<EntryView>) -> bool {
    forall|i: int, j: int| 0 <= i < j < s.len() ==> (#[trigger] s[i]).name != (#[trigger] s[j]).name
}

/// Every entry of `s` stands before all that follow it.
pub open spec fn sorted(s: Seq<EntryView>, options: SortOption) -> bool {
    forall|i: int, j: int|
        0 <= i < j < s.len() ==> entry_before(#[trigger] s[i], #[trigger] s[j], options)
}

/// The first position at or after `from` whose entry must follow `e`; the
/// length of `s` when there is none.
pub open spec fn first_after(s: Seq<EntryView>, e: EntryView, options: SortOption, from: int) -> int
    decreases s.len() - from,
{
    if from < 0 || from >= s.len() || entry_before(e, s[from], options) {
        from
    } else {
        first_after(s, e, options, from + 1)
    }
}

/// `s` with `e` put in its place; `s` itself when it already holds an entry
/// of that name.
pub open spec fn insert_entry(s: Seq<EntryView>, e: EntryView, options: SortOption) -> Seq<
    EntryView,
> {
    if has_name(s, e.name) {
        s
    } else {
        s.insert(first_after(s, e, options, 0), e)
    }
}

/// The listing made of what a directory read reported: the entries of `raw`
/// put in order one after the other, the first of each name only.
pub open spec fn arrange(raw: Seq<EntryView>, options: SortOption) -> Seq<EntryView>
    decreases raw.len(),
{
    if raw.len() == 0 {
        Seq::empty()
    } else {
        insert_entry(arrange(raw.drop_last(), options), raw.last(), options)
    }
}

/// Whether `prev` holds a selected entry called `name`.
pub open spec fn selected_in(prev: Seq<EntryView>, name: Seq<char>) -> bool {
    exists|i: int| 0 <= i < prev.len() && (#[trigger] prev[i]).name == name && prev[i].selected
}

/// The entries of `fresh`, each selected exactly if `prev` had it selected.
pub open spec fn carry_selection(fresh: Seq<EntryView>, prev: Seq<EntryView>) -> Seq<EntryView> {
    fresh.map_values(|e: EntryView| e.with_selected(selected_in(prev, e.name)))
}

/// The first position at or after `from` of an entry called `name`; the
/// length of `s` when there is none.
pub open spec fn find_name(s: Seq<EntryView>, name: Seq<char>, from: int) -> int
    decreases s.len() - from,
{
    if from < 0 || from >= s.len() || s[from].name == name {
        from
    } else {
        find_name(s, name, from + 1)
    }
}

/// The names of the selected entries of `s`, in order.
pub open spec fn selected_names(s: Seq<EntryView>) -> Seq<Seq<char>>
    decreases s.len(),
{
    if s.len() == 0 {
        Seq::empty()
    } else if s.last().selected {
        selected_names(s.drop_last()).push(s.last().name)
    } else {
        selected_names(s.drop_last())
    }
}

/// What [`first_after`] finds: no entry from `from` up to it must follow
/// `e`, and the entry at it, if there is one, must.
pub proof fn lemma_first_after(s: Seq<EntryView>, e: EntryView, options: SortOption, from: int)
    requires
        0 <= from <= s.len(),
    ensures
        from <= first_after(s, e, options, from) <= s.len(),
        forall|j: int|
            from <= j < first_after(s, e, options, from) ==> !entry_before(
                e,
                #[trigger] s[j],
                options,
            ),
        first_after(s, e, options, from) < s.len() ==> entry_before(
            e,
            s[first_after(s, e, options, from)],
            options,
        ),
    decreases s.len() - from,
{
    if from < s.len() && !entry_before(e, s[from], options) {
        lemma_first_after(s, e, options, from + 1);
    }
}

/// What [`find_name`] finds: no entry from `from` up to it is called
/// `name`, and the entry at it, if there is one, is.
pub proof fn lemma_find_name(s: Seq<EntryView>, name: Seq<char>, from: int)
    requires
        0 <= from <= s.len(),
    ensures
        from <= find_name(s, name, from) <= s.len(),
        forall|j: int| from <= j < find_name(s, name, from) ==> (#[trigger] s[j]).name != name,
        find_name(s, name, from) < s.len() ==> s[find_name(s, name, from)].name == name,
    decreases s.len() - from,
{
    if from < s.len() && s[from].name != name {
        lemma_find_name(s, name, from + 1);
    }
}

/// Putting an entry in its place keeps a listing in order and its names
/// distinct, and adds the entry's name to the names it holds, nothing else.
pub proof fn lemma_insert_entry(s: Seq<EntryView>, e: EntryView, options: SortOption)
    requires
        unique_names(s),
        sorted(s, options),
    ensures
        unique_names(insert_entry(s, e, options)),
        sorted(insert_entry(s, e, options), options),
        forall|n: Seq<char>| #[trigger]
            has_name(insert_entry(s, e, options), n) <==> (has_name(s, n) || n == e.name),
        forall|i: int|
            0 <= i < insert_entry(s, e, options).len() ==> s.contains(
                #[trigger] insert_entry(s, e, options)[i],
            ) || insert_entry(s, e, options)[i] == e,
{
    let t = insert_entry(s, e, options);
    if has_name(s, e.name) {
        assert forall|i: int| 0 <= i < t.len() implies s.contains(#[trigger] t[i]) by {
            assert(s[i] == t[i]);
        }
    } else {
        lemma_first_after(s, e, options, 0);
        let p = first_after(s, e, options, 0);
        assert forall|k: int| 0 <= k < s.len() implies (#[trigger] s[k]).name != e.name by {}
        assert forall|i: int, j: int| 0 <= i < j < t.len() implies (#[trigger] t[i]).name != (
        #[trigger] t[j]).name by {
            if i < p && j > p {
                assert(t[i] == s[i] && t[j] == s[j - 1]);
            } else if i < p && j < p {
                assert(t[i] == s[i] && t[j] == s[j]);
            } else if i > p {
                assert(t[i] == s[i - 1] && t[j] == s[j - 1]);
            } else if i == p {
                assert(t[j] == s[j - 1]);
            } else {
                assert(t[i] == s[i]);
            }
        }
        assert forall|i: int, j: int| 0 <= i < j < t.len() implies entry_before(
            #[trigger] t[i],
            #[trigger] t[j],
            options,
        ) by {
            if j == p {
                assert(t[i] == s[i]);
                lemma_entry_before_total(e, s[i], options);
            } else if i == p {
                assert(t[j] == s[j - 1]);
                if j - 1 > p {
                    lemma_entry_before_transitive(e, s[p], s[j - 1], options);
                }
            } else if i < p && j > p {
                assert(t[i] == s[i] && t[j] == s[j - 1]);
            } else if i < p && j < p {
                assert(t[i] == s[i] && t[j] == s[j]);
            } else {
                assert(t[i] == s[i - 1] && t[j] == s[j - 1]);
            }
        }
        assert forall|n: Seq<char>| #[trigger] has_name(t, n) <==> (has_name(s, n) || n
            == e.name) by {
            if has_name(t, n) {
                let i = choose|i: int| 0 <= i < t.len() && (#[trigger] t[i]).name == n;
                if i < p {
                    assert(s[i].name == n);
                } else if i > p {
                    assert(s[i - 1].name == n);
                }
            }
            if has_name(s, n) {
                let k = choose|k: int| 0 <= k < s.len() && (#[trigger] s[k]).name == n;
                if k < p {
                    assert(t[k].name == n);
                } else {
                    assert(t[k + 1].name == n);
                }
            }
            if n == e.name {
                assert(t[p].name == n);
            }
        }
        assert forall|i: int| 0 <= i < t.len() implies s.contains(#[trigger] t[i]) || t[i]
            == e by {
            if i < p {
                assert(s[i] == t[i]);
            } else if i > p {
                assert(s[i - 1] == t[i]);
            }
        }
    }
}

/// A listing made by [`arrange`] is in order, names no entry twice, holds
/// exactly the names that were read, and each of its entries is one of them.
pub proof fn lemma_arrange(raw: Seq<EntryView>, options: SortOption)
    ensures
        unique_names(arrange(raw, options)),
        sorted(arrange(raw, options), options),
        forall|n: Seq<char>| #[trigger] has_name(arrange(raw, options), n) <==> has_name(raw, n),
        forall|i: int|
            0 <= i < arrange(raw, options).len() ==> raw.contains(
                #[trigger] arrange(raw, options)[i],
            ),
    decreases raw.len(),
{
    let t = arrange(raw, options);
    if raw.len() > 0 {
        let rest = raw.drop_last();
        let s = arrange(rest, options);
        lemma_arrange(rest, options);
        lemma_insert_entry(s, raw.last(), options);
        assert forall|n: Seq<char>| #[trigger] has_name(t, n) <==> has_name(raw, n) by {
            if has_name(rest, n) {
                let k = choose|k: int| 0 <= k < rest.len() && (#[trigger] rest[k]).name == n;
                assert(raw[k].name == n);
            }
            if has_name(raw, n) {
                let k = choose|k: int| 0 <= k < raw.len() && (#[trigger] raw[k]).name == n;
                if k < rest.len() {
                    assert(rest[k].name == n);
                }
            }
            assert(raw[raw.len() - 1] == raw.last());
        }
        assert forall|i: int| 0 <= i < t.len() implies raw.contains(#[trigger] t[i]) by {
            if s.contains(t[i]) {
                let k = choose|k: int| 0 <= k < s.len() && s[k] == t[i];
                assert(rest.contains(s[k]));
                let m = choose|m: int| 0 <= m < rest.len() && rest[m] == s[k];
                assert(raw[m] == t[i]);
            } else {
                assert(raw[raw.len() - 1] == t[i]);
            }
        }
    }
}

/// Where a name is first found does not change when entries are added
/// behind it.
pub proof fn lemma_find_name_in_prefix(s: Seq<EntryView>, name: Seq<char>, from: int, n: int)
    requires
        0 <= from <= n <= s.len(),
        find_name(s.take(n), name, from) < n,
    ensures
        find_name(s, name, from) == find_name(s.take(n), name, from),
    decreases n - from,
{
    if from < n && s[from].name != name {
        assert(s.take(n)[from] == s[from]);
        lemma_find_name_in_prefix(s, name, from + 1, n);
    } else if from < n {
        assert(s.take(n)[from] == s[from]);
    }
}

/// Of the entries of one name that a directory read reports, a listing
/// holds the one that was reported first.
pub proof fn lemma_arrange_keeps_first(raw: Seq<EntryView>, options: SortOption)
    ensures
        forall|i: int|
            0 <= i < arrange(raw, options).len() ==> {
                let k = find_name(raw, (#[trigger] arrange(raw, options)[i]).name, 0);
                0 <= k < raw.len() && raw[k] == arrange(raw, options)[i]
            },
    decreases raw.len(),
{
    let t = arrange(raw, options);
    if raw.len() > 0 {
        let rest = raw.drop_last();
        let s = arrange(rest, options);
        let e = raw.last();
        lemma_arrange_keeps_first(rest, options);
        lemma_arrange(rest, options);
        lemma_insert_entry(s, e, options);
        assert(rest =~= raw.take(raw.len() - 1));
        assert forall|i: int| 0 <= i < t.len() implies {
            let k = find_name(raw, (#[trigger] t[i]).name, 0);
            0 <= k < raw.len() && raw[k] == t[i]
        } by {
            let name = t[i].name;
            if s.contains(t[i]) {
                let j = choose|j: int| 0 <= j < s.len() && s[j] == t[i];
                let k = find_name(rest, s[j].name, 0);
                assert(0 <= k < rest.len() && rest[k] == s[j]);
                lemma_find_name_in_prefix(raw, name, 0, raw.len() - 1);
            } else {
                assert(t[i] == e);
                assert(!has_name(s, e.name));
                assert(!has_name(rest, e.name));
                lemma_find_name(raw, name, 0);
                let k = find_name(raw, name, 0);
                if k < raw.len() - 1 {
                    assert(rest[k].name == name);
                }
                assert(raw[raw.len() - 1].name == name);
            }
        }
    }
}

/// There is only one way to put entries in order: two listings in the
/// order of the same sort options, neither naming an entry twice, that hold
/// the same entries are the same listing.
pub proof fn lemma_sorted_listing_is_unique(
    s: Seq<EntryView>,
    t: Seq<EntryView>,
    options: SortOption,
)
    requires
        sorted(s, options),
        sorted(t, options),
        unique_names(s),
        unique_names(t),
        forall|x: EntryView| s.contains(x) <==> t.contains(x),
    ensures
        s == t,
    decreases s.len(),
{
    if s.len() == 0 {
        if t.len() > 0 {
            assert(t.contains(t[0]));
        }
        assert(s =~= t);
    } else {
        assert(s.contains(s[0]));
        let j = choose|j: int| 0 <= j < t.len() && t[j] == s[0];
        assert(t.contains(t[0]));
        let k = choose|k: int| 0 <= k < s.len() && s[k] == t[0];
        if j > 0 && k > 0 {
            assert(entry_before(t[0], t[j], options));
            assert(entry_before(s[0], s[k], options));
            assert(t[0].name != t[j].name);
            lemma_entry_before_total(s[0], t[0], options);
        }
        if k == 0 && j > 0 {
            assert(t[0].name != t[j].name);
        }
        if j == 0 && k > 0 {
            assert(s[0].name != s[k].name);
        }
        assert(s[0] == t[0]);
        let s1 = s.drop_first();
        let t1 = t.drop_first();
        assert forall|x: EntryView| s1.contains(x) <==> t1.contains(x) by {
            if s1.contains(x) {
                let a = choose|a: int| 0 <= a < s1.len() && s1[a] == x;
                assert(s[a + 1] == x);
                assert(s[a + 1].name != s[0].name);
                assert(s.contains(x));
                let b = choose|b: int| 0 <= b < t.len() && t[b] == x;
                assert(t1[b - 1] == x);
            }
            if t1.contains(x) {
                let a = choose|a: int| 0 <= a < t1.len() && t1[a] == x;
                assert(t[a + 1] == x);
                assert(t[a + 1].name != t[0].name);
                assert(t.contains(x));
                let b = choose|b: int| 0 <= b < s.len() && s[b] == x;
                assert(s1[b - 1] == x);
            }
        }
        assert forall|a: int, b: int| 0 <= a < b < s1.len() implies entry_before(
            #[trigger] s1[a],
            #[trigger] s1[b],
            options,
        ) && s1[a].name != s1[b].name by {
            assert(s1[a] == s[a + 1] && s1[b] == s[b + 1]);
        }
        assert forall|a: int, b: int| 0 <= a < b < t1.len() implies entry_before(
            #[trigger] t1[a],
            #[trigger] t1[b],
            options,
        ) && t1[a].name != t1[b].name by {
            assert(t1[a] == t[a + 1] && t1[b] == t[b + 1]);
        }
        lemma_sorted_listing_is_unique(s1, t1, options);
        assert(s =~= seq![s[0]] + s1);
        assert(t =~= seq![t[0]] + t1);
    }
}

/// Of entries of which no two share a name, a listing holds every one.
pub proof fn lemma_arrange_holds_all(raw: Seq<EntryView>, options: SortOption)
    requires
        unique_names(raw),
    ensures
        forall|x: EntryView| arrange(raw, options).contains(x) <==> raw.contains(x),
{
    let t = arrange(raw, options);
    lemma_arrange(raw, options);
    assert forall|x: EntryView| t.contains(x) <==> raw.contains(x) by {
        if t.contains(x) {
            let i = choose|i: int| 0 <= i < t.len() && t[i] == x;
            assert(raw.contains(t[i]));
        }
        if raw.contains(x) {
            let m = choose|m: int| 0 <= m < raw.len() && raw[m] == x;
            assert(raw[m].name == x.name);
            assert(has_name(raw, x.name));
            assert(has_name(t, x.name));
            let k = choose|k: int| 0 <= k < t.len() && (#[trigger] t[k]).name == x.name;
            assert(raw.contains(t[k]));
            let n = choose|n: int| 0 <= n < raw.len() && raw[n] == t[k];
            if n != m {
                assert(raw[n].name != raw[m].name);
            }
            assert(t[k] == x);
        }
    }
}

/// A listing does not depend on the order in which a directory read
/// reports the entries: two reads that report the same entries, neither an
/// entry twice, give the same listing.
pub proof fn lemma_arrange_order_free(
    first: Seq<EntryView>,
    second: Seq<EntryView>,
    options: SortOption,
)
    requires
        unique_names(first),
        unique_names(second),
        forall|x: EntryView| first.contains(x) <==> second.contains(x),
    ensures
        arrange(first, options) == arrange(second, options),
{
    lemma_arrange(first, options);
    lemma_arrange(second, options);
    lemma_arrange_holds_all(first, options);
    lemma_arrange_holds_all(second, options);
    lemma_sorted_listing_is_unique(arrange(first, options), arrange(second, options), options);
}

/// What a read of a directory gave.
#[derive(Debug, PartialEq, Eq)]
pub enum DirRead {
    /// The entries found, in the order in which they were reported.
    Entries(Vec<Entry>),
    /// The directory is gone or cannot be read.
    Unreadable,
}

/// The mathematical content of a [`DirRead`].
pub enum DirReadView {
    Entries(Seq<EntryView>),
    Unreadable,
}

impl View for DirRead {
    type V = DirReadView;

    open spec fn view(&self) -> DirReadView {
        match self {
            DirRead::Entries(raw) => DirReadView::Entries(entry_views(raw@)),
            DirRead::Unreadable => DirReadView::Unreadable,
        }
    }
}

/// The mathematical content of a [`DirectoryListing`].
#[verifier::ext_equal]
pub struct ListingView {
    pub path: Seq<char>,
    pub entries: Seq<EntryView>,
    /// The position of the cursor, if the listing has one.
    pub index: Option<int>,
    pub sort: SortOption,
    /// False once the directory could not be read again.
    pub valid: bool,
}

impl ListingView {
    /// The invariant of a listing: no name occurs twice, the entries stand in
    /// the order of the sort options, and the cursor, if any, is on an entry.
    pub open spec fn wf(self) -> bool {
        &&& unique_names(self.entries)
        &&& sorted(self.entries, self.sort)
        &&& self.index matches Some(i) ==> 0 <= i < self.entries.len()
    }

    /// The listing with its cursor moved to `new_index`, or to the last
    /// entry if that lies beyond it. A listing without a cursor stays as it is.
    pub open spec fn moved_to(self, new_index: int) -> ListingView {
        if self.index is Some && self.entries.len() > 0 {
            ListingView {
                index: Some(
                    if new_index >= self.entries.len() {
                        self.entries.len() - 1
                    } else {
                        new_index
                    },
                ),
                ..self
            }
        } else {
            self
        }
    }

    /// The listing with the selection flag of entry `i` set to `selected`.
    pub open spec fn with_selected(self, i: int, selected: bool) -> ListingView {
        ListingView { entries: self.entries.update(i, self.entries[i].with_selected(selected)), ..self }
    }
}

/// Where the cursor stands after a reload that gave `entries`: on the entry
/// whose name it was on before, if that is still there; else at the same
/// position, or on the last entry if the listing has become shorter. A
/// listing that had no cursor gets one on its first entry, and an empty
/// listing has none.
pub open spec fn reloaded_index(prev: ListingView, entries: Seq<EntryView>) -> Option<int> {
    if entries.len() == 0 {
        None
    } else {
        match prev.index {
            None => Some(0),
            Some(i) => {
                let j = find_name(entries, prev.entries[i].name, 0);
                if j < entries.len() {
                    Some(j)
                } else if i < entries.len() {
                    Some(i)
                } else {
                    Some(entries.len() - 1)
                }
            },
        }
    }
}

/// The listing of `path` as first loaded: the entries put in order, the
/// cursor on the first of them.
pub open spec fn load_spec(path: Seq<char>, raw: Seq<EntryView>, options: SortOption) -> ListingView {
    let entries = arrange(raw, options);
    ListingView {
        path,
        entries,
        index: if entries.len() == 0 {
            None
        } else {
            Some(0)
        },
        sort: options,
        valid: true,
    }
}

/// The listing after a reload. A directory that cannot be read leaves the
/// listing as it was, marked invalid. Otherwise the entries are replaced by
/// what was read, put in order; selection and cursor follow the names.
pub open spec fn reload_spec(prev: ListingView, read: DirReadView, options: SortOption) -> ListingView {
    match read {
        DirReadView::Unreadable => ListingView { valid: false, ..prev },
        DirReadView::Entries(raw) => {
            let entries = arrange(carry_selection(raw, prev.entries), options);
            ListingView {
                path: prev.path,
                entries,
                index: reloaded_index(prev, entries),
                sort: options,
                valid: true,
            }
        },
    }
}

/// The message of the error that an unreadable directory gives.
pub open spec fn unreadable_message(path: Seq<char>) -> Seq<char> {
    "cannot read directory "@ + path
}

/// A freshly loaded listing satisfies the invariant.
pub proof fn lemma_load_wf(path: Seq<char>, raw: Seq<EntryView>, options: SortOption)
    ensures
        load_spec(path, raw, options).wf(),
{
    lemma_arrange(raw, options);
}

/// A reload keeps the invariant.
pub proof fn lemma_reload_wf(prev: ListingView, read: DirReadView, options: SortOption)
    requires
        prev.wf(),
    ensures
        reload_spec(prev, read, options).wf(),
{
    if let DirReadView::Entries(raw) = read {
        let entries = arrange(carry_selection(raw, prev.entries), options);
        lemma_arrange(carry_selection(raw, prev.entries), options);
        if entries.len() > 0 && prev.index is Some {
            lemma_find_name(entries, prev.entries[prev.index->0].name, 0);
        }
    }
}

/// Selecting or deselecting an entry keeps the invariant.
pub proof fn lemma_with_selected_wf(l: ListingView, i: int, selected: bool)
    requires
        l.wf(),
        0 <= i < l.entries.len(),
    ensures
        l.with_selected(i, selected).wf(),
{
    let t = l.with_selected(i, selected).entries;
    assert forall|a: int, b: int| 0 <= a < b < t.len() implies (#[trigger] t[a]).name != (
    #[trigger] t[b]).name by {
        assert(t[a].name == l.entries[a].name && t[b].name == l.entries[b].name);
    }
    assert forall|a: int, b: int| 0 <= a < b < t.len() implies entry_before(
        #[trigger] t[a],
        #[trigger] t[b],
        l.sort,
    ) by {
        assert(entry_before(l.entries[a], l.entries[b], l.sort));
    }
}

/// Reloading is idempotent: a second reload from the same read of the
/// directory, with the same sort options, changes nothing.
pub proof fn lemma_reload_idempotent(prev: ListingView, read: DirReadView, options: SortOption)
    requires
        prev.wf(),
    ensures
        reload_spec(reload_spec(prev, read, options), read, options) == reload_spec(
            prev,
            read,
            options,
        ),
{
    if let DirReadView::Entries(raw) = read {
        let once = reload_spec(prev, read, options);
        let marked = carry_selection(raw, prev.entries);
        let again = carry_selection(raw, once.entries);
        lemma_arrange(marked, options);
        assert forall|i: int| 0 <= i < raw.len() implies marked[i] == again[i] by {
            let n = raw[i].name;
            assert(marked[i].name == n);
            if selected_in(once.entries, n) {
                let k = choose|k: int|
                    0 <= k < once.entries.len() && (#[trigger] once.entries[k]).name == n
                        && once.entries[k].selected;
                assert(marked.contains(once.entries[k]));
            }
            if selected_in(prev.entries, n) {
                assert(has_name(marked, n));
                assert(has_name(once.entries, n));
                let k = choose|k: int|
                    0 <= k < once.entries.len() && (#[trigger] once.entries[k]).name == n;
                assert(marked.contains(once.entries[k]));
            }
        }
        assert(marked =~= again);
        if once.entries.len() > 0 {
            lemma_reload_wf(prev, read, options);
            let j = once.index->0;
            lemma_find_name(once.entries, once.entries[j].name, 0);
        }
    }
}

/// A reload does not depend on the order in which the directory read
/// reports the entries. So a second reload of a directory that has not
/// changed is idempotent even if the entries are reported in another order.
pub proof fn lemma_reload_order_free(
    prev: ListingView,
    first: Seq<EntryView>,
    second: Seq<EntryView>,
    options: SortOption,
)
    requires
        prev.wf(),
        unique_names(first),
        unique_names(second),
        forall|x: EntryView| first.contains(x) <==> second.contains(x),
    ensures
        reload_spec(prev, DirReadView::Entries(first), options) == reload_spec(
            prev,
            DirReadView::Entries(second),
            options,
        ),
        reload_spec(
            reload_spec(prev, DirReadView::Entries(first), options),
            DirReadView::Entries(second),
            options,
        ) == reload_spec(prev, DirReadView::Entries(first), options),
{
    let a = carry_selection(first, prev.entries);
    let b = carry_selection(second, prev.entries);
    assert forall|i: int, j: int| 0 <= i < j < a.len() implies (#[trigger] a[i]).name != (
    #[trigger] a[j]).name by {
        assert(first[i].name != first[j].name);
    }
    assert forall|i: int, j: int| 0 <= i < j < b.len() implies (#[trigger] b[i]).name != (
    #[trigger] b[j]).name by {
        assert(second[i].name != second[j].name);
    }
    assert forall|x: EntryView| a.contains(x) <==> b.contains(x) by {
        if a.contains(x) {
            let i = choose|i: int| 0 <= i < a.len() && a[i] == x;
            assert(first.contains(first[i]));
            let j = choose|j: int| 0 <= j < second.len() && second[j] == first[i];
            assert(b[j] == x);
        }
        if b.contains(x) {
            let i = choose|i: int| 0 <= i < b.len() && b[i] == x;
            assert(second.contains(second[i]));
            let j = choose|j: int| 0 <= j < first.len() && first[j] == second[i];
            assert(a[j] == x);
        }
    }
    lemma_arrange_order_free(a, b, options);
    let once = reload_spec(prev, DirReadView::Entries(first), options);
    lemma_reload_wf(prev, DirReadView::Entries(first), options);
    lemma_reload_idempotent(prev, DirReadView::Entries(first), options);
    let c = carry_selection(first, once.entries);
    let d = carry_selection(second, once.entries);
    assert forall|i: int, j: int| 0 <= i < j < c.len() implies (#[trigger] c[i]).name != (
    #[trigger] c[j]).name by {
        assert(first[i].name != first[j].name);
    }
    assert forall|i: int, j: int| 0 <= i < j < d.len() implies (#[trigger] d[i]).name != (
    #[trigger] d[j]).name by {
        assert(second[i].name != second[j].name);
    }
    assert forall|x: EntryView| c.contains(x) <==> d.contains(x) by {
        if c.contains(x) {
            let i = choose|i: int| 0 <= i < c.len() && c[i] == x;
            assert(first.contains(first[i]));
            let j = choose|j: int| 0 <= j < second.len() && second[j] == first[i];
            assert(d[j] == x);
        }
        if d.contains(x) {
            let i = choose|i: int| 0 <= i < d.len() && d[i] == x;
            assert(second.contains(second[i]));
            let j = choose|j: int| 0 <= j < first.len() && first[j] == second[i];
            assert(c[j] == x);
        }
    }
    lemma_arrange_order_free(c, d, options);
}

/// The listing of one directory: its entries in order, the cursor, and the
/// sort options by which it was put in order.
#[derive(Debug, PartialEq, Eq)]
pub struct DirectoryListing {
    path: String,
    contents: Vec<Entry>,
    index: Option<usize>,
    sort: SortOption,
    valid: bool,
}

impl View for DirectoryListing {
    type V = ListingView;

    closed spec fn view(&self) -> ListingView {
        ListingView {
            path: self.path@,
            entries: entry_views(self.contents@),
            index: match self.index {
                Some(i) => Some(i as int),
                None => None,
            },
            sort: self.sort,
            valid: self.valid,
        }
    }
}

fn contains_name(list: &Vec<Entry>, e: &Entry) -> (r: bool)
    ensures
        r == has_name(entry_views(list@), e@.name),
{
    let mut k: usize = 0;
    while k < list.len()
        invariant
            k <= list.len(),
            forall|j: int| 0 <= j < k ==> (#[trigger] entry_views(list@)[j]).name != e@.name,
        decreases list.len() - k,
    {
        if list[k].same_name(e) {
            assert(entry_views(list@)[k as int].name == e@.name);
            return true;
        }
        k = k + 1;
    }
    false
}

fn is_selected_in(list: &Vec<Entry>, e: &Entry) -> (r: bool)
    ensures
        r == selected_in(entry_views(list@), e@.name),
{
    let mut k: usize = 0;
    while k < list.len()
        invariant
            k <= list.len(),
            forall|j: int|
                0 <= j < k ==> !((#[trigger] entry_views(list@)[j]).name == e@.name && entry_views(
                    list@,
                )[j].selected),
        decreases list.len() - k,
    {
        if list[k].same_name(e) && list[k].is_selected() {
            assert(entry_views(list@)[k as int].name == e@.name);
            return true;
        }
        k = k + 1;
    }
    false
}

fn position_of(list: &Vec<Entry>, e: &Entry) -> (k: usize)
    ensures
        k == find_name(entry_views(list@), e@.name, 0),
{
    let mut k: usize = 0;
    while k < list.len() && !list[k].same_name(e)
        invariant
            k <= list.len(),
            find_name(entry_views(list@), e@.name, 0) == find_name(
                entry_views(list@),
                e@.name,
                k as int,
            ),
        decreases list.len() - k,
    {
        k = k + 1;
    }
    k
}

fn insert_into(list: &mut Vec<Entry>, e: Entry, options: &SortOption)
    ensures
        entry_views(final(list)@) == insert_entry(entry_views(old(list)@), e@, *options),
{
    if !contains_name(list, &e) {
        let ghost s = entry_views(list@);
        let mut p: usize = 0;
        while p < list.len() && !comes_before(&e, &list[p], options)
            invariant
                p <= list.len(),
                s == entry_views(list@),
                first_after(s, e@, *options, 0) == first_after(s, e@, *options, p as int),
            decreases list.len() - p,
        {
            p = p + 1;
        }
        let ghost ev = e@;
        list.insert(p, e);
        assert(entry_views(list@) =~= s.insert(p as int, ev));
    }
}

/// The entries of `raw` put in order; with `carry`, each selected exactly if
/// `prev` has it selected.
fn build_entries(raw: &Vec<Entry>, prev: &Vec<Entry>, carry: bool, options: &SortOption) -> (out:
    Vec<Entry>)
    ensures
        entry_views(out@) == arrange(
            if carry {
                carry_selection(entry_views(raw@), entry_views(prev@))
            } else {
                entry_views(raw@)
            },
            *options,
        ),
{
    let ghost src = if carry {
        carry_selection(entry_views(raw@), entry_views(prev@))
    } else {
        entry_views(raw@)
    };
    let mut out: Vec<Entry> = Vec::new();
    let mut i: usize = 0;
    while i < raw.len()
        invariant
            i <= raw.len(),
            src.len() == raw.len(),
            src == if carry {
                carry_selection(entry_views(raw@), entry_views(prev@))
            } else {
                entry_views(raw@)
            },
            entry_views(out@) == arrange(src.take(i as int), *options),
        decreases raw.len() - i,
    {
        let mut e = raw[i].duplicate();
        if carry {
            let selected = is_selected_in(prev, &e);
            e.set_selected(selected);
        }
        assert(e@ == src[i as int]);
        insert_into(&mut out, e, options);
        assert(src.take(i + 1).drop_last() =~= src.take(i as int));
        i = i + 1;
    }
    assert(src.take(i as int) =~= src);
    out
}

impl DirectoryListing {
    /// The listing of `path` from a first read of the directory.
    pub fn new(path: String, raw: &Vec<Entry>, options: &SortOption) -> (l: DirectoryListing)
        ensures
            l@ == load_spec(path@, entry_views(raw@), *options),
            l@.wf(),
    {
        let contents = build_entries(raw, raw, false, options);
        let index: Option<usize> = if contents.len() == 0 {
            None
        } else {
            Some(0)
        };
        proof {
            lemma_load_wf(path@, entry_views(raw@), *options);
        }
        DirectoryListing { path, contents, index, sort: *options, valid: true }
    }

    /// The directory that is listed.
    pub fn path(&self) -> (p: &str)
        ensures
            p@ == self@.path,
    {
        self.path.as_str()
    }

    /// Whether this is the listing of `path`.
    pub fn has_path(&self, path: &str) -> (r: bool)
        ensures
            r == (self@.path == path@),
    {
        crate::util::text::text_eq(self.path.as_str(), path)
    }

    /// The number of entries.
    pub fn len(&self) -> (n: usize)
        ensures
            n == self@.entries.len(),
    {
        self.contents.len()
    }

    /// The position of the cursor.
    pub fn index(&self) -> (i: Option<usize>)
        ensures
            i is Some <==> self@.index is Some,
            i matches Some(k) ==> self@.index == Some(k as int),
    {
        self.index
    }

    /// The entry at position `i`.
    pub fn entry(&self, i: usize) -> (e: &Entry)
        requires
            i < self@.entries.len(),
        ensures
            e@ == self@.entries[i as int],
    {
        &self.contents[i]
    }

    /// The entry under the cursor.
    pub fn curr_entry(&self) -> (e: Option<&Entry>)
        requires
            self@.wf(),
        ensures
            e is Some <==> self@.index is Some,
            e matches Some(x) ==> x@ == self@.entries[self@.index->0],
    {
        match self.index {
            Some(i) => Some(&self.contents[i]),
            None => None,
        }
    }

    /// The sort options by which the entries are in order.
    pub fn sort_option(&self) -> (o: SortOption)
        ensures
            o == self@.sort,
    {
        self.sort
    }

    /// False once a reload found the directory unreadable.
    pub fn is_valid(&self) -> (v: bool)
        ensures
            v == self@.valid,
    {
        self.valid
    }

    /// The names of the selected entries, in the order of the listing.
    pub fn selected_file_names(&self) -> (names: Vec<String>)
        ensures
            crate::util::text::texts(names@) == selected_names(self@.entries),
    {
        let ghost s = self@.entries;
        let mut names: Vec<String> = Vec::new();
        let mut i: usize = 0;
        while i < self.contents.len()
            invariant
                i <= self.contents.len(),
                s == entry_views(self.contents@),
                crate::util::text::texts(names@) == selected_names(s.take(i as int)),
            decreases self.contents.len() - i,
        {
            assert(s.take(i + 1).drop_last() =~= s.take(i as int));
            if self.contents[i].is_selected() {
                let ghost before = names@;
                let name = self.contents[i].file_name().to_owned();
                names.push(name);
                assert(crate::util::text::texts(names@) =~= crate::util::text::texts(before).push(
                    s[i as int].name,
                ));
            }
            i = i + 1;
        }
        assert(s.take(i as int) =~= s);
        names
    }

    /// Moves the cursor to `new_index`, or to the last entry if that lies
    /// beyond it. A listing without a cursor stays as it is.
    pub fn cursor_move(&mut self, new_index: usize)
        requires
            old(self)@.wf(),
        ensures
            final(self)@ == old(self)@.moved_to(new_index as int),
            final(self)@.wf(),
    {
        if self.index.is_some() && self.contents.len() > 0 {
            let last: usize = self.contents.len() - 1;
            self.index = Some(if new_index > last { last } else { new_index });
        }
    }

    /// Sets the selection flag of the entry at position `i`.
    pub fn set_selected(&mut self, i: usize, selected: bool)
        requires
            old(self)@.wf(),
            i < old(self)@.entries.len(),
        ensures
            final(self)@ == old(self)@.with_selected(i as int, selected),
            final(self)@.wf(),
    {
        self.contents[i].set_selected(selected);
        proof {
            assert(self@.entries =~= old(self)@.with_selected(i as int, selected).entries);
            lemma_with_selected_wf(old(self)@, i as int, selected);
        }
    }

    /// Replaces the entries by what a fresh read of the directory gave,
    /// keeping selection and cursor by name. An unreadable directory marks
    /// the listing invalid and is reported as an error.
    pub fn reload_contents(&mut self, read: &DirRead, options: &SortOption) -> (r: JoshutoResult<
        (),
    >)
        requires
            old(self)@.wf(),
        ensures
            final(self)@ == reload_spec(old(self)@, read@, *options),
            final(self)@.wf(),
            r is Ok <==> read is Entries,
            r matches Err(e) ==> e@.kind == JoshutoErrorKind::IoNotFound && e@.cause
                == unreadable_message(old(self)@.path),
    {
        proof {
            lemma_reload_wf(self@, read@, *options);
        }
        match read {
            DirRead::Unreadable => {
                self.valid = false;
                let cause = String::from_str("cannot read directory ").concat(self.path.as_str());
                Err(JoshutoError::new(JoshutoErrorKind::IoNotFound, cause))
            },
            DirRead::Entries(raw) => {
                let contents = build_entries(raw, &self.contents, true, options);
                let index: Option<usize> = if contents.len() == 0 {
                    None
                } else {
                    match self.index {
                        None => Some(0),
                        Some(i) => {
                            let j = position_of(&contents, &self.contents[i]);
                            if j < contents.len() {
                                Some(j)
                            } else if i < contents.len() {
                                Some(i)
                            } else {
                                Some(contents.len() - 1)
                            }
                        },
                    }
                };
                self.contents = contents;
                self.index = index;
                self.sort = *options;
                self.valid = true;
                Ok(())
            },
        }
    }
}

} // verus!
