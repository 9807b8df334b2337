use crate::fs::entry::{Entry, EntryView};
use crate::util::text::chars_of;
use vstd::prelude::*;

verus! {

/// The key by which a listing is ordered. Ties are broken by name.
#[derive(Clone, Copy, Debug, PartialEq, Eq, Structural)]
pub enum SortType {
    /// By name, character by character.
    Lexical,
    /// By time of last modification, oldest first.
    Mtime,
    /// By size, smallest first.
    Size,
}

/// How a listing is ordered.
#[derive(Clone, Copy, Debug, PartialEq, Eq, Structural)]
pub struct SortOption {
    /// Directories come before everything else.
    pub directories_first: bool,
    /// The order by key is reversed; directories still come first.
    pub reverse: bool,
    pub sort_method: SortType,
}

/// The first position at or after `from` where `a` and `b` stop agreeing:
/// either they hold different characters there or one of them has ended.
pub open spec fn mismatch(a: Seq<char>, b: Seq<char>, from: int) -> int
    decreases a.len() - from,
{
    if from < 0 || from >= a.len() || from >= b.len() || a[from] != b[from] {
        from
    } else {
        mismatch(a, b, from + 1)
    }
}

/// Whether `a` comes strictly before `b` in dictionary order by code point.
pub open spec fn text_lt(a: Seq<char>, b: Seq<char>) -> bool {
    let k = mismatch(a, b, 0);
    k < b.len() && (k == a.len() || (a[k] as int) < (b[k] as int))
}

/// What [`mismatch`] finds: the texts agree from `from` up to it, and not at it.
pub proof fn lemma_mismatch(a: Seq<char>, b: Seq<char>, from: int)
    requires
        0 <= from <= a.len(),
        from <= b.len(),
    ensures
        from <= mismatch(a, b, from) <= a.len(),
        mismatch(a, b, from) <= b.len(),
        forall|j: int| from <= j < mismatch(a, b, from) ==> a[j] == b[j],
        mismatch(a, b, from) == a.len() || mismatch(a, b, from) == b.len() || a[mismatch(
            a,
            b,
            from,
        )] != b[mismatch(a, b, from)],
    decreases a.len() - from,
{
    if from >= a.len() || from >= b.len() || a[from] != b[from] {
    } else {
        lemma_mismatch(a, b, from + 1);
    }
}

/// Any position with the properties of [`lemma_mismatch`] is the mismatch.
pub proof fn lemma_mismatch_is(a: Seq<char>, b: Seq<char>, from: int, k: int)
    requires
        0 <= from <= k <= a.len(),
        k <= b.len(),
        forall|j: int| from <= j < k ==> a[j] == b[j],
        k == a.len() || k == b.len() || a[k] != b[k],
    ensures
        mismatch(a, b, from) == k,
    decreases k - from,
{
    if from < k {
        lemma_mismatch_is(a, b, from + 1, k);
    }
}

/// Two texts are equal, or exactly one comes before the other.
pub proof fn lemma_text_lt_total(a: Seq<char>, b: Seq<char>)
    ensures
        a != b ==> (text_lt(a, b) <==> !text_lt(b, a)),
        a == b ==> !text_lt(a, b),
{
    lemma_mismatch(a, b, 0);
    let k = mismatch(a, b, 0);
    lemma_mismatch_is(b, a, 0, k);
    if k == a.len() && k == b.len() {
        assert(a =~= b);
    }
}

/// Dictionary order is transitive.
pub proof fn lemma_text_lt_transitive(a: Seq<char>, b: Seq<char>, c: Seq<char>)
    requires
        text_lt(a, b),
        text_lt(b, c),
    ensures
        text_lt(a, c),
{
    lemma_mismatch(a, b, 0);
    lemma_mismatch(b, c, 0);
    let k1 = mismatch(a, b, 0);
    let k2 = mismatch(b, c, 0);
    let k = if k1 <= k2 { k1 } else { k2 };
    lemma_mismatch_is(a, c, 0, k);
}

/// Whether `a` comes strictly before `b` in dictionary order.
pub fn text_before(a: &str, b: &str) -> (r: bool)
    ensures
        r == text_lt(a@, b@),
{
    let x = chars_of(a);
    let y = chars_of(b);
    let mut i: usize = 0;
    while i < x.len() && i < y.len() && x[i] == y[i]
        invariant
            i <= x.len(),
            i <= y.len(),
            mismatch(x@, y@, 0) == mismatch(x@, y@, i as int),
        decreases x.len() - i,
    {
        i = i + 1;
    }
    if i >= y.len() {
        false
    } else if i == x.len() {
        true
    } else {
        x[i] < y[i]
    }
}

/// Whether `a` comes before `b` by the key of `method`, ties broken by name.
pub open spec fn key_before(a: EntryView, b: EntryView, method: SortType) -> bool {
    match method {
        SortType::Lexical => text_lt(a.name, b.name),
        SortType::Mtime => a.modified < b.modified || (a.modified == b.modified && text_lt(
            a.name,
            b.name,
        )),
        SortType::Size => a.size < b.size || (a.size == b.size && text_lt(a.name, b.name)),
    }
}

/// Whether `a` stands before `b` in a listing ordered by `options`.
pub open spec fn entry_before(a: EntryView, b: EntryView, options: SortOption) -> bool {
    if options.directories_first && a.is_dir != b.is_dir {
        a.is_dir
    } else if options.reverse {
        key_before(b, a, options.sort_method)
    } else {
        key_before(a, b, options.sort_method)
    }
}

/// Of two entries with different names, exactly one stands before the other.
pub proof fn lemma_entry_before_total(a: EntryView, b: EntryView, options: SortOption)
    requires
        a.name != b.name,
    ensures
        entry_before(a, b, options) <==> !entry_before(b, a, options),
{
    lemma_text_lt_total(a.name, b.name);
}

/// The order of a listing is transitive.
pub proof fn lemma_entry_before_transitive(
    a: EntryView,
    b: EntryView,
    c: EntryView,
    options: SortOption,
)
    requires
        entry_before(a, b, options),
        entry_before(b, c, options),
    ensures
        entry_before(a, c, options),
{
    if text_lt(a.name, b.name) && text_lt(b.name, c.name) {
        lemma_text_lt_transitive(a.name, b.name, c.name);
    }
    if text_lt(c.name, b.name) && text_lt(b.name, a.name) {
        lemma_text_lt_transitive(c.name, b.name, a.name);
    }
}

fn key_comes_before(a: &Entry, b: &Entry, method: SortType) -> (r: bool)
    ensures
        r == key_before(a@, b@, method),
{
    match method {
        SortType::Lexical => text_before(a.file_name(), b.file_name()),
        SortType::Mtime => a.modified() < b.modified() || (a.modified() == b.modified()
            && text_before(a.file_name(), b.file_name())),
        SortType::Size => a.size() < b.size() || (a.size() == b.size() && text_before(
            a.file_name(),
            b.file_name(),
        )),
    }
}

/// Whether `a` stands before `b` in a listing ordered by `options`.
pub fn comes_before(a: &Entry, b: &Entry, options: &SortOption) -> (r: bool)
    ensures
        r == entry_before(a@, b@, *options),
{
    if options.directories_first && a.is_dir() != b.is_dir() {
        a.is_dir()
    } else if options.reverse {
        key_comes_before(b, a, options.sort_method)
    } else {
        key_comes_before(a, b, options.sort_method)
    }
}

} // verus!
