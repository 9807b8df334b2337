use globset::{Glob, GlobSet, GlobSetBuilder};
use vstd::prelude::*;

verus! {

/// The type `GlobSet` of the `globset` crate: a set of compiled globs.
/// Nothing of its inside is visible here.
#[verifier::external_type_specification]
#[verifier::external_body]
pub struct ExGlobSet(GlobSet);

/// Whether `pattern` is a glob of which a matcher can be built.
pub uninterp spec fn glob_valid(pattern: Seq<char>) -> bool;

/// Whether the glob `pattern` matches the file name `name`.
pub uninterp spec fn glob_matches(pattern: Seq<char>, name: Seq<char>) -> bool;

/// The globs that a set of globs was built from.
pub uninterp spec fn glob_set_patterns(set: GlobSet) -> Seq<Seq<char>>;

/// `Glob::new` of the `globset` crate, followed by `GlobSetBuilder::add` and
/// `GlobSetBuilder::build` for a set of that one glob. Trusted: a set comes
/// back exactly for the patterns that the crate accepts, and it was built
/// from `pattern` alone.
#[verifier::external_body]
pub(crate) fn compile_glob(pattern: &str) -> (set: Option<GlobSet>)
    ensures
        set is Some <==> glob_valid(pattern@),
        set matches Some(s) ==> glob_set_patterns(s) == seq![pattern@],
{
    match Glob::new(pattern) {
        Ok(glob) => GlobSetBuilder::new().add(glob).build().ok(),
        Err(_) => None,
    }
}

/// `GlobSet::is_match` of the `globset` crate. Trusted: it says whether any
/// glob of the set matches `name`.
#[verifier::external_body]
pub(crate) fn glob_set_is_match(set: &GlobSet, name: &str) -> (r: bool)
    ensures
        r == (exists|i: int| 0 <= i < glob_set_patterns(*set).len() && glob_matches(#[trigger] glob_set_patterns(*set)[i], name@)),
{
    set.is_match(name)
}

/// Whether the one glob that `set` was built from matches `name`.
pub(crate) fn glob_is_match(set: &GlobSet, name: &str, Ghost(pattern): Ghost<Seq<char>>) -> (r:
    bool)
    requires
        glob_set_patterns(*set) == seq![pattern],
    ensures
        r == glob_matches(pattern, name@),
{
    let r = glob_set_is_match(set, name);
    proof {
        let ps = glob_set_patterns(*set);
        assert(ps[0] == pattern);
    }
    r
}

} // verus!
