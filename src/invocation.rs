//! The command lines handed to cargo.
use vstd::prelude::*;

use crate::target::{rust_triple, Target};
use crate::text::{join_path, join_spec, owned, str_eq};

verus! {

/// The views of a list of strings.
pub open spec fn arg_views(v: Seq<String>) -> Seq<Seq<char>> {
    v.map_values(|p: String| p@)
}

/// The index of the first `--` in `args`, or its length when there is none.
pub open spec fn separator_index(args: Seq<Seq<char>>) -> int
    decreases args.len(),
{
    if args.len() == 0 {
        0
    } else if args[0] == "--"@ {
        0
    } else {
        1 + separator_index(args.drop_first())
    }
}

pub proof fn lemma_separator_index_bounds(args: Seq<Seq<char>>)
    ensures
        0 <= separator_index(args) <= args.len(),
        separator_index(args) < args.len() ==> args[separator_index(args)] == "--"@,
        forall|j: int| 0 <= j < separator_index(args) ==> #[trigger] args[j] != "--"@,
    decreases args.len(),
{
    if args.len() > 0 && args[0] != "--"@ {
        lemma_separator_index_bounds(args.drop_first());
        assert forall|j: int| 0 <= j < separator_index(args) implies #[trigger] args[j] != "--"@ by {
            if j > 0 {
                assert(args[j] == args.drop_first()[j - 1]);
            }
        }
    }
}

/// What is put before the separator: the message format that lets the
/// caller collect artifacts, the target, and the manifest when one is given.
pub open spec fn injected_args(triple: Seq<char>, manifest: Option<Seq<char>>) -> Seq<Seq<char>> {
    seq!["--message-format"@, "json-render-diagnostics"@, "--target"@, triple] + match manifest {
        Some(m) => seq!["--manifest-path"@, m],
        None => Seq::empty(),
    }
}

/// The user's arguments with the injected ones placed before the first `--`.
pub open spec fn invocation_spec(
    args: Seq<Seq<char>>,
    triple: Seq<char>,
    manifest: Option<Seq<char>>,
) -> Seq<Seq<char>> {
    let p = separator_index(args);
    args.subrange(0, p) + injected_args(triple, manifest) + args.subrange(p, args.len() as int)
}

/// The index of the first `--`, or the number of arguments.
pub fn find_separator(args: &Vec<String>) -> (r: usize)
    ensures
        r == separator_index(arg_views(args@)),
{
    let ghost all = arg_views(args@);
    let n = args.len();
    let mut i: usize = 0;
    proof {
        assert(all.subrange(0, n as int) =~= all);
    }
    while i < n
        invariant
            n == args@.len(),
            all == arg_views(args@),
            i <= n,
            separator_index(all) == i + separator_index(all.subrange(i as int, n as int)),
        decreases n - i,
    {
        proof {
            assert(all[i as int] == args@[i as int]@);
        }
        if str_eq(args[i].as_str(), "--") {
            return i;
        }
        proof {
            assert(all.subrange(i as int, n as int).drop_first() =~= all.subrange(i + 1, n as int));
        }
        i = i + 1;
    }
    proof {
        assert(all.subrange(n as int, n as int).len() == 0);
    }
    i
}

fn push_copies(out: &mut Vec<String>, args: &Vec<String>, from: usize, to: usize)
    requires
        from <= to <= args@.len(),
    ensures
        arg_views(final(out)@) == arg_views(old(out)@) + arg_views(args@).subrange(
            from as int,
            to as int,
        ),
{
    let ghost start = arg_views(out@);
    let mut i: usize = from;
    while i < to
        invariant
            from <= i <= to,
            to <= args@.len(),
            arg_views(out@) == start + arg_views(args@).subrange(from as int, i as int),
        decreases to - i,
    {
        let c = args[i].clone();
        proof {
            assert(c@ == args@[i as int]@);
        }
        let ghost before = out@;
        out.push(c);
        proof {
            assert(out@ == before.push(c));
            assert(arg_views(out@) =~= arg_views(before).push(c@));
            assert(arg_views(args@).subrange(from as int, i + 1) =~= arg_views(args@).subrange(
                from as int,
                i as int,
            ).push(c@));
            assert(arg_views(out@) =~= start + arg_views(args@).subrange(from as int, i + 1));
        }
        i = i + 1;
    }
}

fn push_str(out: &mut Vec<String>, s: &str)
    ensures
        arg_views(final(out)@) == arg_views(old(out)@).push(s@),
{
    let ghost start = arg_views(out@);
    out.push(owned(s));
    proof {
        assert(arg_views(out@) =~= start.push(s@));
    }
}

/// The arguments for cargo: the user's, with `--message-format
/// json-render-diagnostics --target <triple>` and, when `manifest_path` is
/// given, `--manifest-path <path>` inserted before the first `--`, so that
/// what follows it reaches the program it is meant for unchanged.
pub fn cargo_invocation_args(args: &Vec<String>, target: Target, manifest_path: Option<&str>) -> (r:
    Vec<String>)
    ensures
        arg_views(r@) == invocation_spec(
            arg_views(args@),
            rust_triple(target),
            match manifest_path {
                Some(m) => Some(m@),
                None => None,
            },
        ),
{
    let p = find_separator(args);
    proof {
        lemma_separator_index_bounds(arg_views(args@));
    }
    let mut out: Vec<String> = Vec::new();
    push_copies(&mut out, args, 0, p);
    push_str(&mut out, "--message-format");
    push_str(&mut out, "json-render-diagnostics");
    push_str(&mut out, "--target");
    push_str(&mut out, target.triple());
    if let Some(m) = manifest_path {
        push_str(&mut out, "--manifest-path");
        push_str(&mut out, m);
    }
    push_copies(&mut out, args, p, args.len());
    proof {
        let mv = match manifest_path {
            Some(m) => Some(m@),
            None => None,
        };
        assert(arg_views(out@) =~= invocation_spec(arg_views(args@), rust_triple(target), mv));
    }
    out
}

/// Whether cargo must be told the manifest: when the working directory is
/// not the one that holds it.
pub fn needs_manifest_path(working_dir: &str, manifest_dir: &str) -> (r: bool)
    ensures
        r == (working_dir@ != manifest_dir@),
{
    !str_eq(working_dir, manifest_dir)
}

/// The injected target pair stands before the first `--`, and everything
/// from that `--` on (a second `--` included) follows in its original order.
/// Unless the manifest path is itself `--`, no `--` comes earlier, so the
/// user's separator stays the first one.
pub proof fn lemma_passthrough_kept(
    args: Seq<Seq<char>>,
    target: Target,
    manifest: Option<Seq<char>>,
)
    ensures
        ({
            let out = invocation_spec(args, rust_triple(target), manifest);
            let p = separator_index(args);
            let k = injected_args(rust_triple(target), manifest).len();
            &&& out.subrange(0, p) == args.subrange(0, p)
            &&& out[p + 2] == "--target"@
            &&& out[p + 3] == rust_triple(target)
            &&& p + 3 < p + k
            &&& out.subrange(p + k, out.len() as int) == args.subrange(p, args.len() as int)
            &&& manifest != Some("--"@) ==> forall|i: int| 0 <= i < p + k ==> #[trigger] out[i] != "--"@
        }),
{
    lemma_separator_index_bounds(args);
    let out = invocation_spec(args, rust_triple(target), manifest);
    let p = separator_index(args);
    let inj = injected_args(rust_triple(target), manifest);
    let k = inj.len();
    assert(out.subrange(0, p) =~= args.subrange(0, p));
    assert(out[p + 2] == inj[2]);
    assert(out[p + 3] == inj[3]);
    assert(out.subrange(p + k, out.len() as int) =~= args.subrange(p, args.len() as int));
    reveal_strlit("--");
    reveal_strlit("--message-format");
    reveal_strlit("json-render-diagnostics");
    reveal_strlit("--target");
    reveal_strlit("--manifest-path");
    reveal_strlit("armv7-linux-androideabi");
    reveal_strlit("aarch64-linux-android");
    reveal_strlit("i686-linux-android");
    reveal_strlit("x86_64-linux-android");
    if manifest != Some("--"@) {
        assert forall|i: int| 0 <= i < p + k implies #[trigger] out[i] != "--"@ by {
            if i < p {
                assert(out[i] == args[i]);
            } else {
                assert(out[i] == inj[i - p]);
                assert(inj[i - p].len() != 2 || inj[i - p] == manifest->0);
            }
        }
    }
}

/// The characters of `s` before the first `c` (all of them when there is none).
pub open spec fn take_until(s: Seq<char>, c: char) -> Seq<char>
    decreases s.len(),
{
    if s.len() == 0 {
        s
    } else if s[0] == c {
        Seq::empty()
    } else {
        seq![s[0]] + take_until(s.drop_first(), c)
    }
}

/// The part of `s` before the first `c`, and whether `s` holds a `c`.
fn before_char(s: &str, c: char) -> (r: (String, bool))
    ensures
        r.0@ == take_until(s@, c),
        r.1 == s@.contains(c),
{
    let n = s.unicode_len();
    let mut out = String::new();
    let mut i: usize = 0;
    proof {
        assert(s@.subrange(0, n as int) =~= s@);
    }
    while i < n
        invariant
            n == s@.len(),
            i <= n,
            take_until(s@, c) == out@ + take_until(s@.subrange(i as int, n as int), c),
            forall|j: int| 0 <= j < i ==> s@[j] != c,
        decreases n - i,
    {
        let d = s.get_char(i);
        if d == c {
            proof {
                assert(s@.subrange(i as int, n as int)[0] == c);
                assert(out@ + Seq::<char>::empty() =~= out@);
            }
            return (out, true);
        }
        let ghost before = out@;
        crate::text::push_char(&mut out, d);
        proof {
            let rest = s@.subrange(i as int, n as int);
            assert(rest.drop_first() =~= s@.subrange(i + 1, n as int));
            assert(rest[0] == d);
            assert(before + (seq![d] + take_until(rest.drop_first(), c)) =~= out@ + take_until(
                s@.subrange(i + 1, n as int),
                c,
            ));
        }
        i = i + 1;
    }
    proof {
        assert(s@.subrange(n as int, n as int).len() == 0);
        assert(out@ + Seq::<char>::empty() =~= out@);
        if s@.contains(c) {
            let j = choose|j: int| 0 <= j < s@.len() && s@[j] == c;
            assert(s@[j] != c);
        }
    }
    (out, false)
}

/// Whether `list` holds `s`.
pub fn contains_str(list: &Vec<String>, s: &str) -> (r: bool)
    ensures
        r == arg_views(list@).contains(s@),
{
    let n = list.len();
    let mut i: usize = 0;
    while i < n
        invariant
            n == list@.len(),
            i <= n,
            forall|j: int| 0 <= j < i ==> list@[j]@ != s@,
        decreases n - i,
    {
        if str_eq(list[i].as_str(), s) {
            proof {
                assert(arg_views(list@)[i as int] == s@);
            }
            return true;
        }
        i = i + 1;
    }
    proof {
        if arg_views(list@).contains(s@) {
            let j = choose|j: int| 0 <= j < arg_views(list@).len() && arg_views(list@)[j] == s@;
            assert(list@[j]@ == s@);
        }
    }
    false
}

/// How the arguments from index `i` on divide between this tool's own
/// flags (`global`, those that take a value with it) and cargo's.
pub open spec fn mixed_split(
    args: Seq<Seq<char>>,
    global: Seq<Seq<char>>,
    valued: Seq<Seq<char>>,
    i: int,
) -> (Seq<Seq<char>>, Seq<Seq<char>>)
    decreases args.len() - i,
{
    if i < 0 || i >= args.len() {
        (Seq::empty(), Seq::empty())
    } else {
        let a = args[i];
        if global.contains(a) {
            if valued.contains(a) && i + 1 < args.len() {
                let rest = mixed_split(args, global, valued, i + 2);
                (seq![a, args[i + 1]] + rest.0, rest.1)
            } else {
                let rest = mixed_split(args, global, valued, i + 1);
                (seq![a] + rest.0, rest.1)
            }
        } else {
            let rest = mixed_split(args, global, valued, i + 1);
            if has_prefix_dashes(a) && a.contains('=') && global.contains(take_until(a, '=')) {
                (seq![a] + rest.0, rest.1)
            } else {
                (rest.0, seq![a] + rest.1)
            }
        }
    }
}

/// Whether `a` starts with `--`.
pub open spec fn has_prefix_dashes(a: Seq<char>) -> bool {
    crate::text::has_prefix(a, "--"@)
}

/// Divides `args` (whose first entry is the subcommand's name and is skipped)
/// between this tool's own flags and cargo's arguments. A flag in `global`
/// is this tool's, with the next argument when it is in `valued`;
/// `--flag=value` is this tool's when `--flag` is in `global`; everything
/// else is cargo's. This tool's arguments come back after `program`.
pub fn split_mixed_args(
    args: &Vec<String>,
    program: &str,
    global: &Vec<String>,
    valued: &Vec<String>,
) -> (r: (Vec<String>, Vec<String>))
    ensures
        ({
            let s = mixed_split(arg_views(args@), arg_views(global@), arg_views(valued@), 1);
            &&& arg_views(r.0@) == seq![program@] + s.0
            &&& arg_views(r.1@) == s.1
        }),
{
    let ghost av = arg_views(args@);
    let ghost gv = arg_views(global@);
    let ghost vv = arg_views(valued@);
    let ghost total = mixed_split(av, gv, vv, 1);
    let mut own: Vec<String> = Vec::new();
    push_str(&mut own, program);
    let mut cargo: Vec<String> = Vec::new();
    let n = args.len();
    let mut i: usize = 1;
    proof {
        assert(arg_views(cargo@) =~= Seq::<Seq<char>>::empty());
        if n < 1 {
            assert(total == (Seq::<Seq<char>>::empty(), Seq::<Seq<char>>::empty()));
        }
        assert(arg_views(own@) + total.0 =~= seq![program@] + total.0);
        assert(arg_views(cargo@) + total.1 =~= total.1);
    }
    while i < n
        invariant
            n == args@.len(),
            av == arg_views(args@),
            gv == arg_views(global@),
            vv == arg_views(valued@),
            total == mixed_split(av, gv, vv, 1),
            1 <= i,
            arg_views(own@) + mixed_split(av, gv, vv, i as int).0 == seq![program@] + total.0,
            arg_views(cargo@) + mixed_split(av, gv, vv, i as int).1 == total.1,
        decreases n - i,
    {
        let a = args[i].as_str();
        proof {
            assert(av[i as int] == a@);
        }
        let ghost own0 = arg_views(own@);
        let ghost cargo0 = arg_views(cargo@);
        let ghost here = mixed_split(av, gv, vv, i as int);
        if contains_str(global, a) {
            push_str(&mut own, a);
            if contains_str(valued, a) && i + 1 < n {
                i = i + 1;
                push_str(&mut own, args[i].as_str());
                proof {
                    assert(av[i as int] == args@[i as int]@);
                    let rest = mixed_split(av, gv, vv, i + 1);
                    assert(arg_views(own@) + rest.0 =~= own0 + here.0);
                    assert(arg_views(cargo@) + rest.1 =~= cargo0 + here.1);
                }
            } else {
                proof {
                    let rest = mixed_split(av, gv, vv, i + 1);
                    assert(arg_views(own@) + rest.0 =~= own0 + here.0);
                    assert(arg_views(cargo@) + rest.1 =~= cargo0 + here.1);
                }
            }
        } else {
            let dashes = crate::text::starts_with(a, "--");
            let (name, has_eq) = before_char(a, '=');
            if dashes && has_eq && contains_str(global, name.as_str()) {
                push_str(&mut own, a);
            } else {
                push_str(&mut cargo, a);
            }
            proof {
                let rest = mixed_split(av, gv, vv, i + 1);
                assert(arg_views(own@) + rest.0 =~= own0 + here.0);
                assert(arg_views(cargo@) + rest.1 =~= cargo0 + here.1);
            }
        }
        i = i + 1;
    }
    proof {
        let rest = mixed_split(av, gv, vv, i as int);
        assert(rest == (Seq::<Seq<char>>::empty(), Seq::<Seq<char>>::empty()));
        assert(arg_views(own@) =~= arg_views(own@) + rest.0);
        assert(arg_views(cargo@) =~= arg_views(cargo@) + rest.1);
    }
    (own, cargo)
}

/// The index of the last `--` in `args`, if any.
pub open spec fn last_separator(args: Seq<Seq<char>>) -> Option<int>
    decreases args.len(),
{
    if args.len() == 0 {
        None
    } else if args.last() == "--"@ {
        Some(args.len() - 1)
    } else {
        last_separator(args.drop_last())
    }
}

/// Moves what follows the last `--` of the cargo arguments to the front of
/// the test binary's arguments, and drops that `--`.
pub fn split_test_args(cargo_args: &Vec<String>, test_args: &Vec<String>) -> (r: (
    Vec<String>,
    Vec<String>,
))
    ensures
        match last_separator(arg_views(cargo_args@)) {
            Some(k) => arg_views(r.0@) == arg_views(cargo_args@).subrange(0, k) && arg_views(r.1@)
                == arg_views(test_args@) + arg_views(cargo_args@).subrange(
                k + 1,
                cargo_args@.len() as int,
            ),
            None => arg_views(r.0@) == arg_views(cargo_args@) && arg_views(r.1@) == arg_views(
                test_args@,
            ),
        },
{
    let ghost av = arg_views(cargo_args@);
    let n = cargo_args.len();
    let mut k: usize = n;
    let mut found = false;
    proof {
        assert(av.subrange(0, n as int) =~= av);
    }
    while k > 0 && !found
        invariant
            n == cargo_args@.len(),
            av == arg_views(cargo_args@),
            k <= n,
            !found ==> last_separator(av) == last_separator(av.subrange(0, k as int)),
            found ==> k < n && last_separator(av) == Some(k as int),
        decreases k + if found {
            0int
        } else {
            1int
        },
    {
        proof {
            assert(av.subrange(0, k as int).last() == cargo_args@[k - 1]@);
            assert(av.subrange(0, k as int).drop_last() =~= av.subrange(0, k - 1));
        }
        if str_eq(cargo_args[k - 1].as_str(), "--") {
            found = true;
            k = k - 1;
        } else {
            k = k - 1;
        }
    }
    if !found {
        proof {
            assert(av.subrange(0, 0).len() == 0);
        }
        let mut c: Vec<String> = Vec::new();
        push_copies(&mut c, cargo_args, 0, n);
        let mut t: Vec<String> = Vec::new();
        push_copies(&mut t, test_args, 0, test_args.len());
        proof {
            assert(arg_views(c@) =~= av);
            assert(arg_views(t@) =~= arg_views(test_args@));
        }
        return (c, t);
    }
    let mut c: Vec<String> = Vec::new();
    push_copies(&mut c, cargo_args, 0, k);
    let mut t: Vec<String> = Vec::new();
    push_copies(&mut t, test_args, 0, test_args.len());
    push_copies(&mut t, cargo_args, k + 1, n);
    proof {
        assert(arg_views(c@) =~= av.subrange(0, k as int));
        assert(arg_views(t@) =~= arg_views(test_args@) + av.subrange(k + 1, n as int));
    }
    (c, t)
}

/// A package named with `-p`/`--package` that the workspace does not have.
#[derive(Debug)]
pub enum ManifestError {
    UnknownPackage(String),
}

/// The index of the first `-p` or `--package` in `args`, if any.
pub open spec fn package_flag(args: Seq<Seq<char>>) -> Option<int>
    decreases args.len(),
{
    if args.len() == 0 {
        None
    } else if args[0] == "-p"@ || args[0] == "--package"@ {
        Some(0)
    } else {
        match package_flag(args.drop_first()) {
            Some(k) => Some(k + 1),
            None => None,
        }
    }
}

/// The manifest of the first package named `name` in `packages` (name and
/// manifest path pairs).
pub open spec fn package_manifest(packages: Seq<(Seq<char>, Seq<char>)>, name: Seq<char>) -> Option<
    Seq<char>,
>
    decreases packages.len(),
{
    if packages.len() == 0 {
        None
    } else if packages[0].0 == name {
        Some(packages[0].1)
    } else {
        package_manifest(packages.drop_first(), name)
    }
}

/// The manifest to build: the one given on the command line; else the one
/// of the package named after `-p`/`--package`; else `Cargo.toml` in the
/// working directory.
pub open spec fn manifest_spec(
    given: Option<Seq<char>>,
    args: Seq<Seq<char>>,
    packages: Seq<(Seq<char>, Seq<char>)>,
    working_dir: Seq<char>,
) -> Result<Seq<char>, Seq<char>> {
    match given {
        Some(m) => Ok(m),
        None => match package_flag(args) {
            Some(k) if k + 1 < args.len() => match package_manifest(packages, args[k + 1]) {
                Some(m) => Ok(m),
                None => Err(args[k + 1]),
            },
            _ => Ok(join_spec(working_dir, "Cargo.toml"@)),
        },
    }
}

fn find_package_flag(args: &Vec<String>) -> (r: Option<usize>)
    ensures
        match r {
            Some(i) => i < args@.len() && package_flag(arg_views(args@)) == Some(i as int),
            None => package_flag(arg_views(args@)) is None,
        },
{
    let ghost all = arg_views(args@);
    let n = args.len();
    let mut i: usize = 0;
    proof {
        assert(all.subrange(0, n as int) =~= all);
    }
    while i < n
        invariant
            n == args@.len(),
            all == arg_views(args@),
            i <= n,
            match package_flag(all) {
                Some(k) => match package_flag(all.subrange(i as int, n as int)) {
                    Some(m) => k == i + m,
                    None => false,
                },
                None => package_flag(all.subrange(i as int, n as int)) is None,
            },
        decreases n - i,
    {
        let a = args[i].as_str();
        proof {
            assert(all[i as int] == a@);
            assert(all.subrange(i as int, n as int)[0] == a@);
        }
        if str_eq(a, "-p") || str_eq(a, "--package") {
            return Some(i);
        }
        proof {
            assert(all.subrange(i as int, n as int).drop_first() =~= all.subrange(i + 1, n as int));
        }
        i = i + 1;
    }
    proof {
        assert(all.subrange(n as int, n as int).len() == 0);
    }
    None
}

fn find_package(packages: &Vec<(String, String)>, name: &str) -> (r: Option<String>)
    ensures
        match r {
            Some(m) => package_manifest(crate::environment::pair_views(packages@), name@) == Some(
                m@,
            ),
            None => package_manifest(crate::environment::pair_views(packages@), name@) is None,
        },
{
    let ghost all = crate::environment::pair_views(packages@);
    let n = packages.len();
    let mut j: usize = 0;
    proof {
        assert(all.subrange(0, n as int) =~= all);
    }
    while j < n
        invariant
            n == packages@.len(),
            all == crate::environment::pair_views(packages@),
            j <= n,
            package_manifest(all, name@) == package_manifest(
                all.subrange(j as int, n as int),
                name@,
            ),
        decreases n - j,
    {
        let (k, m) = &packages[j];
        proof {
            assert(all[j as int] == (k@, m@));
        }
        if str_eq(k.as_str(), name) {
            return Some(owned(m.as_str()));
        }
        proof {
            assert(all.subrange(j as int, n as int).drop_first() =~= all.subrange(j + 1, n as int));
        }
        j = j + 1;
    }
    None
}

/// Picks the manifest to build; fails when `-p` names a package that the
/// workspace (`packages`: name and manifest path pairs) does not have.
pub fn select_manifest(
    given: Option<&str>,
    args: &Vec<String>,
    packages: &Vec<(String, String)>,
    working_dir: &str,
) -> (r: Result<String, ManifestError>)
    ensures
        match manifest_spec(
            match given {
                Some(m) => Some(m@),
                None => None,
            },
            arg_views(args@),
            crate::environment::pair_views(packages@),
            working_dir@,
        ) {
            Ok(m) => r matches Ok(x) && x@ == m,
            Err(n) => r matches Err(ManifestError::UnknownPackage(x)) && x@ == n,
        },
{
    if let Some(m) = given {
        return Ok(owned(m));
    }
    if let Some(k) = find_package_flag(args) {
        if args.len() - k > 1 {
            let name = args[k + 1].as_str();
            proof {
                assert(arg_views(args@)[k + 1] == name@);
            }
            return match find_package(packages, name) {
                Some(m) => Ok(m),
                None => Err(ManifestError::UnknownPackage(owned(name))),
            };
        }
    }
    Ok(join_path(working_dir, "Cargo.toml"))
}

} // verus!
