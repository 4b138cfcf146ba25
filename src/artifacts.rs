//! What is done with the files cargo produced: which libraries are copied
//! where, when a copy is still fresh, and how test binaries are named on the
//! device.
//!
//! Paths are handled as text; both `/` and `\` count as separators.
use vstd::prelude::*;

use crate::invocation::{arg_views, contains_str};
use crate::target::{abi_name, Target};
use crate::text::{has_prefix, is_sep, join_path, join_spec, owned, starts_with, str_eq};

verus! {

/// A file-producing compilation unit reported by cargo: its crate types and
/// the files it produced.
pub struct Artifact {
    pub crate_types: Vec<String>,
    pub filenames: Vec<String>,
}

/// Whether the artifact is a C-compatible dynamic library.
pub open spec fn is_cdylib_spec(a: &Artifact) -> bool {
    arg_views(a.crate_types@).contains("cdylib"@)
}

/// Whether the artifact is a C-compatible dynamic library, the kind that can
/// be loaded on Android.
pub fn artifact_is_cdylib(a: &Artifact) -> (r: bool)
    ensures
        r == is_cdylib_spec(a),
{
    contains_str(&a.crate_types, "cdylib")
}

/// Whether any of the artifacts is a dynamic library.
pub fn any_cdylib(artifacts: &Vec<Artifact>) -> (r: bool)
    ensures
        r == exists|i: int| 0 <= i < artifacts@.len() && #[trigger] is_cdylib_spec(&artifacts@[i]),
{
    let n = artifacts.len();
    let mut i: usize = 0;
    while i < n
        invariant
            n == artifacts@.len(),
            i <= n,
            forall|j: int| 0 <= j < i ==> !#[trigger] is_cdylib_spec(&artifacts@[j]),
        decreases n - i,
    {
        if artifact_is_cdylib(&artifacts[i]) {
            return true;
        }
        i = i + 1;
    }
    false
}

/// The index of the last separator in `s`, if any.
pub open spec fn last_sep(s: Seq<char>) -> Option<int>
    decreases s.len(),
{
    if s.len() == 0 {
        None
    } else if is_sep(s.last()) {
        Some(s.len() - 1)
    } else {
        last_sep(s.drop_last())
    }
}

/// The last component of a path.
pub open spec fn file_name_spec(s: Seq<char>) -> Seq<char> {
    match last_sep(s) {
        Some(k) => s.subrange(k + 1, s.len() as int),
        None => s,
    }
}

/// The directory that holds a path: what stands before its last separator
/// (the root itself when that separator is the first character), or nothing.
pub open spec fn parent_spec(s: Seq<char>) -> Seq<char> {
    match last_sep(s) {
        Some(k) => if k == 0 {
            s.subrange(0, 1)
        } else {
            s.subrange(0, k)
        },
        None => Seq::empty(),
    }
}

fn last_sep_index(s: &str) -> (r: Option<usize>)
    ensures
        match r {
            Some(k) => last_sep(s@) == Some(k as int) && k < s@.len(),
            None => last_sep(s@) is None,
        },
{
    let n = s.unicode_len();
    let mut k: usize = n;
    proof {
        assert(s@.subrange(0, n as int) =~= s@);
    }
    while k > 0
        invariant
            n == s@.len(),
            k <= n,
            last_sep(s@) == last_sep(s@.subrange(0, k as int)),
        decreases k,
    {
        let c = s.get_char(k - 1);
        proof {
            assert(s@.subrange(0, k as int).last() == c);
            assert(s@.subrange(0, k as int).drop_last() =~= s@.subrange(0, k - 1));
        }
        if c == '/' || c == '\\' {
            return Some(k - 1);
        }
        k = k - 1;
    }
    proof {
        assert(s@.subrange(0, 0).len() == 0);
    }
    None
}

/// The last component of a path.
pub fn file_name(path: &str) -> (r: String)
    ensures
        r@ == file_name_spec(path@),
{
    let n = path.unicode_len();
    match last_sep_index(path) {
        Some(k) => owned(path.substring_char(k + 1, n)),
        None => owned(path),
    }
}

/// The directory that holds a path.
pub fn parent(path: &str) -> (r: String)
    ensures
        r@ == parent_spec(path@),
{
    match last_sep_index(path) {
        Some(k) => if k == 0 {
            owned(path.substring_char(0, 1))
        } else {
            owned(path.substring_char(0, k))
        },
        None => String::new(),
    }
}

/// The extension of a file name: what follows its last dot, unless that dot
/// is its first character or it has no dot.
pub open spec fn extension_spec(name: Seq<char>) -> Option<Seq<char>>
    decreases name.len(),
{
    if name.len() <= 1 {
        None
    } else if name.last() == '.' {
        Some(Seq::empty())
    } else {
        match extension_spec(name.drop_last()) {
            Some(e) => Some(e.push(name.last())),
            None => None,
        }
    }
}

/// Whether a path names a shared object (`.so`).
pub open spec fn is_shared_object(path: Seq<char>) -> bool {
    extension_spec(file_name_spec(path)) == Some("so"@)
}

fn extension(name: &str) -> (r: Option<String>)
    ensures
        match r {
            Some(e) => extension_spec(name@) == Some(e@),
            None => extension_spec(name@) is None,
        },
{
    let n = name.unicode_len();
    let mut k: usize = n;
    proof {
        assert(name@.subrange(0, n as int) =~= name@);
        match extension_spec(name@) {
            Some(e) => {
                assert(e + name@.subrange(n as int, n as int) =~= e);
            },
            None => {},
        }
    }
    while k > 1
        invariant
            n == name@.len(),
            k <= n,
            forall|j: int| k <= j < n ==> name@[j] != '.',
            extension_spec(name@) == match extension_spec(name@.subrange(0, k as int)) {
                Some(e) => Some(e + name@.subrange(k as int, n as int)),
                None => None,
            },
        decreases k,
    {
        let c = name.get_char(k - 1);
        let ghost pre = name@.subrange(0, k as int);
        proof {
            assert(pre.last() == c);
            assert(pre.drop_last() =~= name@.subrange(0, k - 1));
        }
        if c == '.' {
            proof {
                assert(Seq::<char>::empty() + name@.subrange(k as int, n as int) =~= name@.subrange(
                    k as int,
                    n as int,
                ));
            }
            return Some(owned(name.substring_char(k, n)));
        }
        proof {
            assert(name@.subrange(k - 1, n as int) =~= seq![c] + name@.subrange(k as int, n as int));
            match extension_spec(pre.drop_last()) {
                Some(e) => {
                    assert(e.push(c) + name@.subrange(k as int, n as int) =~= e + name@.subrange(
                        k - 1,
                        n as int,
                    ));
                },
                None => {},
            }
        }
        k = k - 1;
    }
    proof {
        assert(extension_spec(name@.subrange(0, k as int)) is None);
    }
    None
}

/// Whether a path names a shared object (`.so`).
pub fn shared_object(path: &str) -> (r: bool)
    ensures
        r == is_shared_object(path@),
{
    let name = file_name(path);
    match extension(name.as_str()) {
        Some(e) => str_eq(e.as_str(), "so"),
        None => false,
    }
}

/// The first shared object among the artifact's files.
pub fn shared_library_file(a: &Artifact) -> (r: Option<usize>)
    ensures
        match r {
            Some(i) => i < a.filenames@.len() && is_shared_object(a.filenames@[i as int]@) && forall|
                j: int,
            |
                0 <= j < i ==> !#[trigger] is_shared_object(a.filenames@[j]@),
            None => forall|j: int|
                0 <= j < a.filenames@.len() ==> !#[trigger] is_shared_object(a.filenames@[j]@),
        },
{
    let n = a.filenames.len();
    let mut i: usize = 0;
    while i < n
        invariant
            n == a.filenames@.len(),
            i <= n,
            forall|j: int| 0 <= j < i ==> !#[trigger] is_shared_object(a.filenames@[j]@),
        decreases n - i,
    {
        if shared_object(a.filenames[i].as_str()) {
            return Some(i);
        }
        i = i + 1;
    }
    None
}

/// The directory for one target's libraries in the output tree.
pub fn arch_output_dir(output_dir: &str, target: Target) -> (r: String)
    ensures
        r@ == join_spec(output_dir@, abi_name(target)),
{
    join_path(output_dir, target.name())
}

/// Where a library is copied to in its target's output directory.
pub fn destination(arch_dir: &str, file: &str) -> (r: String)
    ensures
        r@ == join_spec(arch_dir@, file_name_spec(file@)),
{
    let name = file_name(file);
    join_path(arch_dir, name.as_str())
}

/// Whether the copy at the destination is at least as new as the source,
/// given whether it exists and the two modification times (nanoseconds since
/// the epoch), each absent when the system cannot tell.
pub fn is_fresh(dest_exists: bool, src_modified: Option<u128>, dest_modified: Option<u128>) -> (r:
    bool)
    ensures
        r == (dest_exists && src_modified is Some && dest_modified is Some && src_modified->0
            <= dest_modified->0),
{
    if !dest_exists {
        return false;
    }
    match (src_modified, dest_modified) {
        (Some(s), Some(d)) => s <= d,
        _ => false,
    }
}

/// `path` relative to `base` when it lies below it, else `path` itself.
pub open spec fn relative_spec(path: Seq<char>, base: Seq<char>) -> Seq<char> {
    if base.len() > 0 && has_prefix(path, base) {
        if path.len() == base.len() {
            Seq::empty()
        } else if is_sep(base.last()) {
            path.subrange(base.len() as int, path.len() as int)
        } else if is_sep(path[base.len() as int]) {
            path.subrange(base.len() as int + 1, path.len() as int)
        } else {
            path
        }
    } else {
        path
    }
}

/// `path` relative to `base` when it lies below it, else `path` itself.
pub fn relative_to(path: &str, base: &str) -> (r: String)
    ensures
        r@ == relative_spec(path@, base@),
{
    let n = path.unicode_len();
    let m = base.unicode_len();
    if m == 0 || !starts_with(path, base) {
        return owned(path);
    }
    if n == m {
        return String::new();
    }
    let last = base.get_char(m - 1);
    if last == '/' || last == '\\' {
        return owned(path.substring_char(m, n));
    }
    let next = path.get_char(m);
    if next == '/' || next == '\\' {
        owned(path.substring_char(m + 1, n))
    } else {
        owned(path)
    }
}

/// A test binary found in cargo's output: its path, the source it was built
/// from and its own path, both relative to its package.
pub struct TestUnit {
    pub executable: String,
    pub name: String,
    pub rel_path: String,
}

impl TestUnit {
    /// Describes a test binary from the paths cargo reports for it.
    pub fn new(executable: &str, manifest_path: &str, src_path: &str) -> (r: TestUnit)
        ensures
            r.executable@ == executable@,
            r.rel_path@ == relative_spec(executable@, parent_spec(manifest_path@)),
            r.name@ == relative_spec(src_path@, parent_spec(manifest_path@)),
    {
        let dir = parent(manifest_path);
        TestUnit {
            executable: owned(executable),
            rel_path: relative_to(executable, dir.as_str()),
            name: relative_to(src_path, dir.as_str()),
        }
    }

    /// Where the binary is pushed to on the device.
    pub fn device_path(&self) -> (r: String)
        ensures
            r@ == "/data/local/tmp/"@ + file_name_spec(self.executable@),
    {
        let name = file_name(self.executable.as_str());
        crate::text::concat2("/data/local/tmp/", name.as_str())
    }
}

/// The arguments for `adb`: `-s <serial>` first when a device is named.
pub fn adb_args(serial: Option<&str>, args: &Vec<String>) -> (r: Vec<String>)
    ensures
        arg_views(r@) == match serial {
            Some(s) => seq!["-s"@, s@] + arg_views(args@),
            None => arg_views(args@),
        },
{
    let mut out: Vec<String> = Vec::new();
    let ghost empty = arg_views(out@);
    if let Some(s) = serial {
        out.push(owned("-s"));
        out.push(owned(s));
    }
    let ghost start = arg_views(out@);
    let n = args.len();
    let mut i: usize = 0;
    while i < n
        invariant
            n == args@.len(),
            i <= n,
            arg_views(out@) == start + arg_views(args@).subrange(0, i as int),
        decreases n - i,
    {
        let c = args[i].clone();
        let ghost before = out@;
        out.push(c);
        proof {
            assert(arg_views(out@) =~= arg_views(before).push(c@));
            assert(arg_views(args@).subrange(0, i + 1) =~= arg_views(args@).subrange(
                0,
                i as int,
            ).push(c@));
        }
        i = i + 1;
    }
    proof {
        assert(arg_views(args@).subrange(0, n as int) =~= arg_views(args@));
        match serial {
            Some(s) => {
                assert(start =~= seq!["-s"@, s@]);
            },
            None => {
                assert(start =~= Seq::<Seq<char>>::empty());
            },
        }
        assert(arg_views(out@) =~= match serial {
            Some(s) => seq!["-s"@, s@] + arg_views(args@),
            None => arg_views(args@),
        });
    }
    out
}

/// The exit code of a run of test binaries on a device, given whether each
/// one passed: 1 when any failed, else 0.
pub fn device_run_exit_code(passed: &Vec<bool>) -> (r: i32)
    ensures
        r == if (exists|i: int| 0 <= i < passed@.len() && !#[trigger] passed@[i]) {
            1i32
        } else {
            0i32
        },
{
    let n = passed.len();
    let mut i: usize = 0;
    while i < n
        invariant
            n == passed@.len(),
            i <= n,
            forall|j: int| 0 <= j < i ==> #[trigger] passed@[j],
        decreases n - i,
    {
        if !passed[i] {
            return 1;
        }
        i = i + 1;
    }
    0
}

} // verus!
