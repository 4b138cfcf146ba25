//! Choosing the NDK installation from what the environment and the disk show.
//!
//! The caller reads the environment variables and lists the candidate
//! directories; the choice between them is made here.
use vstd::prelude::*;

use crate::text::{join_path, join_spec, owned};
use crate::version::{highest_version_index, is_highest, semver_of};

verus! {

/// The variables that name an NDK directly, most trusted first.
pub open spec fn ndk_var_names() -> Seq<Seq<char>> {
    seq!["ANDROID_NDK_HOME"@, "ANDROID_NDK_ROOT"@, "ANDROID_NDK_PATH"@, "NDK_HOME"@]
}

/// The variables that name an Android SDK, most trusted first.
pub open spec fn sdk_var_names() -> Seq<Seq<char>> {
    seq!["ANDROID_HOME"@, "ANDROID_SDK_ROOT"@, "ANDROID_SDK_HOME"@]
}

/// The variables that name an NDK directly, most trusted first.
pub fn ndk_vars() -> (r: Vec<&'static str>)
    ensures
        r@.map_values(|s: &'static str| s@) == ndk_var_names(),
{
    let r = vec!["ANDROID_NDK_HOME", "ANDROID_NDK_ROOT", "ANDROID_NDK_PATH", "NDK_HOME"];
    proof {
        assert(r@.map_values(|s: &'static str| s@) =~= ndk_var_names());
    }
    r
}

/// The variables that name an Android SDK, most trusted first.
pub fn sdk_vars() -> (r: Vec<&'static str>)
    ensures
        r@.map_values(|s: &'static str| s@) == sdk_var_names(),
{
    let r = vec!["ANDROID_HOME", "ANDROID_SDK_ROOT", "ANDROID_SDK_HOME"];
    proof {
        assert(r@.map_values(|s: &'static str| s@) =~= sdk_var_names());
    }
    r
}

/// The views of a list of optional strings.
pub open spec fn opt_views(vals: Seq<Option<String>>) -> Seq<Option<Seq<char>>> {
    vals.map_values(
        |v: Option<String>|
            match v {
                Some(s) => Some(s@),
                None => None,
            },
    )
}

/// The indices below `upto` whose value is set and differs from `v`.
pub open spec fn disagreeing(vals: Seq<Option<Seq<char>>>, v: Seq<char>, upto: int) -> Seq<usize>
    decreases upto,
{
    if upto <= 0 {
        Seq::empty()
    } else {
        let before = disagreeing(vals, v, upto - 1);
        match vals[upto - 1] {
            Some(w) => if w != v {
                before.push((upto - 1) as usize)
            } else {
                before
            },
            None => before,
        }
    }
}

/// Of the values of a list of variables, the index of the first one that is
/// set, and the indices of the later ones that are set to something else
/// (each worth a warning).
pub fn find_first_consistent_var_set(vals: &Vec<Option<String>>) -> (r: (
    Option<usize>,
    Vec<usize>,
))
    ensures
        match r.0 {
            None => forall|j: int| 0 <= j < vals@.len() ==> #[trigger] vals@[j] is None,
            Some(f) => {
                &&& f < vals@.len()
                &&& vals@[f as int] is Some
                &&& forall|j: int| 0 <= j < f ==> #[trigger] vals@[j] is None
                &&& r.1@ == disagreeing(
                    opt_views(vals@),
                    vals@[f as int]->0@,
                    vals@.len() as int,
                )
            },
        },
        r.0 is None ==> r.1@.len() == 0,
{
    let ghost views = opt_views(vals@);
    let n = vals.len();
    let mut first: Option<usize> = None;
    let mut warn: Vec<usize> = Vec::new();
    let mut i: usize = 0;
    while i < n
        invariant
            n == vals@.len(),
            views == opt_views(vals@),
            i <= n,
            match first {
                None => (forall|j: int| 0 <= j < i ==> #[trigger] vals@[j] is None) && warn@.len()
                    == 0,
                Some(f) => {
                    &&& f < i
                    &&& vals@[f as int] is Some
                    &&& forall|j: int| 0 <= j < f ==> #[trigger] vals@[j] is None
                    &&& warn@ == disagreeing(views, vals@[f as int]->0@, i as int)
                },
            },
        decreases n - i,
    {
        match &vals[i] {
            Some(v) => {
                match first {
                    None => {
                        first = Some(i);
                        proof {
                            assert forall|j: int| 0 <= j < i implies views[j] is None by {
                                assert(vals@[j] is None);
                            }
                            lemma_disagreeing_empty(views, v@, i as int);
                        }
                    },
                    Some(f) => {
                        let fv = vals[f].as_ref().unwrap();
                        if !crate::text::str_eq(fv.as_str(), v.as_str()) {
                            warn.push(i);
                        }
                    },
                }
            },
            None => {},
        }
        i = i + 1;
    }
    (first, warn)
}

/// Before the first set value and at it, nothing disagrees with it.
proof fn lemma_disagreeing_empty(vals: Seq<Option<Seq<char>>>, v: Seq<char>, k: int)
    requires
        0 <= k < vals.len(),
        forall|j: int| 0 <= j < k ==> #[trigger] vals[j] is None,
        vals[k] is None || vals[k] == Some(v),
    ensures
        disagreeing(vals, v, k + 1) == Seq::<usize>::empty(),
    decreases k,
{
    if k > 0 {
        lemma_disagreeing_empty(vals, v, k - 1);
    } else {
        assert(disagreeing(vals, v, 0) == Seq::<usize>::empty());
    }
}

/// What is known when looking for an NDK: the first NDK variable that is set
/// (its name and value) with the names of the entries of that directory;
/// the first SDK variable that is set with the entries of its `ndk`
/// directory; and the platform's standard NDK directory with its entries.
/// A directory that does not exist has no entries.
pub struct NdkSearch {
    pub ndk_var: Option<(String, String)>,
    pub ndk_entries: Vec<String>,
    pub sdk_var: Option<(String, String)>,
    pub sdk_ndk_entries: Vec<String>,
    pub default_dir: String,
    pub default_entries: Vec<String>,
}

/// The views of a list of strings.
pub open spec fn views(v: Seq<String>) -> Seq<Seq<char>> {
    v.map_values(|p: String| p@)
}

/// `p` is the highest-versioned entry of `entries`, below `dir`.
pub open spec fn highest_below(dir: Seq<char>, entries: Seq<Seq<char>>, p: Seq<char>) -> bool {
    exists|i: int| is_highest(entries, i) && p == join_spec(dir, entries[i])
}

/// No entry's name reads as a version.
pub open spec fn no_versions(entries: Seq<Seq<char>>) -> bool {
    forall|j: int| 0 <= j < entries.len() ==> #[trigger] semver_of(entries[j]) is None
}

/// The `ndk` directory of an SDK.
pub open spec fn sdk_ndk_dir_spec(sdk: Seq<char>) -> Seq<char> {
    join_spec(sdk, "ndk"@)
}

/// The `ndk` directory of an SDK.
pub fn sdk_ndk_dir(sdk: &str) -> (r: String)
    ensures
        r@ == sdk_ndk_dir_spec(sdk@),
{
    join_path(sdk, "ndk")
}

/// The highest-versioned entry below `dir`, if any entry is a version.
fn highest_in(dir: &str, entries: &Vec<String>) -> (r: Option<String>)
    ensures
        match r {
            Some(p) => highest_below(dir@, views(entries@), p@),
            None => no_versions(views(entries@)),
        },
{
    match highest_version_index(entries) {
        Some(i) => {
            let p = join_path(dir, entries[i].as_str());
            proof {
                assert(views(entries@)[i as int] == entries@[i as int]@);
            }
            Some(p)
        },
        None => {
            proof {
                assert forall|j: int| 0 <= j < views(entries@).len() implies #[trigger] semver_of(
                    views(entries@)[j],
                ) is None by {
                    assert(views(entries@)[j] == entries@[j]@);
                }
            }
            None
        },
    }
}

/// The NDK to use and how it was found: a directly named NDK wins (its
/// highest-versioned subdirectory if it has one, else itself); then the
/// highest NDK inside a named SDK; then the highest NDK in the standard
/// location.
pub fn locate_ndk(search: &NdkSearch) -> (r: Option<(String, String)>)
    ensures
        match search.ndk_var {
            Some(var) => r matches Some(found) && found.1@ == var.0@ && (highest_below(
                var.1@,
                views(search.ndk_entries@),
                found.0@,
            ) || (no_versions(views(search.ndk_entries@)) && found.0@ == var.1@)),
            None => {
                let sdk_hit = search.sdk_var matches Some(var) && !no_versions(
                    views(search.sdk_ndk_entries@),
                );
                let sdk = search.sdk_var->0;
                if sdk_hit {
                    r matches Some(found) && found.1@ == sdk.0@ && highest_below(
                        sdk_ndk_dir_spec(sdk.1@),
                        views(search.sdk_ndk_entries@),
                        found.0@,
                    )
                } else if no_versions(views(search.default_entries@)) {
                    r is None
                } else {
                    r matches Some(found) && found.1@ == "standard location"@ && highest_below(
                        search.default_dir@,
                        views(search.default_entries@),
                        found.0@,
                    )
                }
            },
        },
{
    if let Some((name, value)) = &search.ndk_var {
        let path = match highest_in(value.as_str(), &search.ndk_entries) {
            Some(p) => p,
            None => owned(value.as_str()),
        };
        return Some((path, owned(name.as_str())));
    }
    if let Some((name, value)) = &search.sdk_var {
        let dir = sdk_ndk_dir(value.as_str());
        if let Some(p) = highest_in(dir.as_str(), &search.sdk_ndk_entries) {
            return Some((p, owned(name.as_str())));
        }
    }
    match highest_in(search.default_dir.as_str(), &search.default_entries) {
        Some(p) => Some((p, owned("standard location"))),
        None => None,
    }
}

} // verus!
