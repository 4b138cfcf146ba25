//! The environment handed to cargo for one target.
//!
//! Everything is computed from explicit inputs, the inherited environment
//! included: nothing here reads or changes the process environment, so the
//! same inputs always give the same variables.
use vstd::prelude::*;

use crate::text::{
    concat2, concat3, join_path, join_spec, owned, push_char, replace_char, str_eq, swap_char,
    to_upper_ascii, upper_char, upper_seq,
};
use crate::toolchain::{
    clang_target, clang_target_spec, compiler_path_spec, sysroot_include_spec, sysroot_path_spec,
    tool_path_spec, ResolvedPaths,
};
use crate::version::{NdkVersion, MIN_SUPPORTED_MAJOR};

verus! {

/// The variables of the environment that cargo will inherit, in order.
pub struct HostEnv {
    pub vars: Vec<(String, String)>,
}

/// The views of a list of name/value pairs.
pub open spec fn pair_views(v: Seq<(String, String)>) -> Seq<(Seq<char>, Seq<char>)> {
    v.map_values(|e: (String, String)| (e.0@, e.1@))
}

/// The value of the first variable named `k`.
pub open spec fn env_lookup(vars: Seq<(Seq<char>, Seq<char>)>, k: Seq<char>) -> Option<Seq<char>>
    decreases vars.len(),
{
    if vars.len() == 0 {
        None
    } else if vars[0].0 == k {
        Some(vars[0].1)
    } else {
        env_lookup(vars.drop_first(), k)
    }
}

impl View for HostEnv {
    type V = Seq<(Seq<char>, Seq<char>)>;

    open spec fn view(&self) -> Seq<(Seq<char>, Seq<char>)> {
        pair_views(self.vars@)
    }
}

impl HostEnv {
    /// The value of a variable, if it is set.
    pub fn get(&self, key: &str) -> (r: Option<String>)
        ensures
            match r {
                Some(v) => env_lookup(self@, key@) == Some(v@),
                None => env_lookup(self@, key@) is None,
            },
    {
        let ghost all = self@;
        let n = self.vars.len();
        let mut j: usize = 0;
        proof {
            assert(all.subrange(0, n as int) =~= all);
        }
        while j < n
            invariant
                n == self.vars@.len(),
                all == self@,
                j <= n,
                env_lookup(all, key@) == env_lookup(all.subrange(j as int, n as int), key@),
            decreases n - j,
        {
            let (k, v) = &self.vars[j];
            proof {
                assert(all[j as int] == (k@, v@));
            }
            if str_eq(k.as_str(), key) {
                return Some(owned(v.as_str()));
            }
            proof {
                assert(all.subrange(j as int, n as int).drop_first() =~= all.subrange(
                    j + 1,
                    n as int,
                ));
            }
            j = j + 1;
        }
        None
    }
}

/// `triple` with `-` spelled `_`.
pub open spec fn underscored(t: Seq<char>) -> Seq<char> {
    swap_char(t, '-', '_')
}

/// The keys tried for a C toolchain variable, most specific first:
/// `<base>_<triple>`, `<base>_<triple with _>`, `TARGET_<base>`, `<base>`.
pub open spec fn cc_keys(base: Seq<char>, t: Seq<char>) -> Seq<Seq<char>> {
    seq![base + "_"@ + t, base + "_"@ + underscored(t), "TARGET_"@ + base, base]
}

/// The first of the keys that is set, with its value; the most specific key
/// and no value when none is.
pub open spec fn cc_env_spec(
    env: Seq<(Seq<char>, Seq<char>)>,
    base: Seq<char>,
    t: Seq<char>,
) -> (Seq<char>, Option<Seq<char>>) {
    let keys = cc_keys(base, t);
    if env_lookup(env, keys[0]) is Some {
        (keys[0], env_lookup(env, keys[0]))
    } else if env_lookup(env, keys[1]) is Some {
        (keys[1], env_lookup(env, keys[1]))
    } else if env_lookup(env, keys[2]) is Some {
        (keys[2], env_lookup(env, keys[2]))
    } else if env_lookup(env, keys[3]) is Some {
        (keys[3], env_lookup(env, keys[3]))
    } else {
        (keys[0], None)
    }
}

/// Looks a C toolchain variable up the way the `cc` crate does, most
/// specific key first; returns the key found with its value, or the most
/// specific key and `None`.
pub fn cc_env(var_base: &str, triple: &str, env: &HostEnv) -> (r: (String, Option<String>))
    ensures
        r.0@ == cc_env_spec(env@, var_base@, triple@).0,
        match r.1 {
            Some(v) => cc_env_spec(env@, var_base@, triple@).1 == Some(v@),
            None => cc_env_spec(env@, var_base@, triple@).1 is None,
        },
{
    let triple_u = replace_char(triple, '-', '_');
    let k0 = concat3(var_base, "_", triple);
    let k1 = concat3(var_base, "_", triple_u.as_str());
    let k2 = concat2("TARGET_", var_base);
    let k3 = owned(var_base);
    proof {
        assert(k0@ == cc_keys(var_base@, triple@)[0]);
        assert(k1@ == cc_keys(var_base@, triple@)[1]);
        assert(k2@ == cc_keys(var_base@, triple@)[2]);
        assert(k3@ == cc_keys(var_base@, triple@)[3]);
    }
    if let Some(v) = env.get(k0.as_str()) {
        return (k0, Some(v));
    }
    if let Some(v) = env.get(k1.as_str()) {
        return (k1, Some(v));
    }
    if let Some(v) = env.get(k2.as_str()) {
        return (k2, Some(v));
    }
    if let Some(v) = env.get(k3.as_str()) {
        return (k3, Some(v));
    }
    (k0, None)
}

/// Cargo's per-target configuration variable:
/// `CARGO_TARGET_<TRIPLE>_<KEY>`, upper case, `-` spelled `_`.
pub open spec fn cargo_cfg_key(t: Seq<char>, key: Seq<char>) -> Seq<char> {
    upper_seq("CARGO_TARGET_"@ + underscored(t) + "_"@ + key)
}

/// Cargo's per-target configuration variable for `key`.
pub fn cargo_env_target_cfg(triple: &str, key: &str) -> (r: String)
    ensures
        r@ == cargo_cfg_key(triple@, key@),
{
    let triple_u = replace_char(triple, '-', '_');
    let lower = concat3("CARGO_TARGET_", triple_u.as_str(), "_").concat(key);
    to_upper_ascii(lower.as_str())
}

/// The separator of the encoded flag variable (ASCII unit separator).
pub open spec fn unit_sep() -> char {
    '\x1f'
}

/// The name of the encoded flag variable.
pub const ENCODED_RUSTFLAGS: &'static str = "CARGO_ENCODED_RUSTFLAGS";

/// The name of the space-separated flag variable.
pub const PLAIN_RUSTFLAGS: &'static str = "RUSTFLAGS";

/// Extra compiler flags that cargo reads from the environment, in one of its
/// two mutually exclusive spellings.
#[derive(Debug)]
pub enum RustFlags {
    Empty,
    /// Flags separated by the ASCII unit separator.
    Encoded(String),
    /// Flags separated by spaces.
    Plain(String),
}

/// Why no environment could be composed.
#[derive(Debug)]
pub enum EnvError {
    /// The NDK is older than the layout this library knows; holds its major.
    UnsupportedVersion(u64),
    /// Both flag variables are set, and neither can be preferred safely.
    ConflictingRustFlags,
}

/// `old` with `flag` added after `sep`, or `flag` alone when `old` is empty.
pub open spec fn with_flag(old: Seq<char>, sep: char, flag: Seq<char>) -> Seq<char> {
    if old.len() == 0 {
        flag
    } else {
        old.push(sep) + flag
    }
}

/// The flag variable to set so that `flag` is added to what the environment
/// already holds; `None` when both spellings are set.
pub open spec fn flags_entry(env: Seq<(Seq<char>, Seq<char>)>, flag: Seq<char>) -> Option<
    (Seq<char>, Seq<char>),
> {
    let enc = env_lookup(env, ENCODED_RUSTFLAGS@);
    let plain = env_lookup(env, PLAIN_RUSTFLAGS@);
    if enc is Some && plain is Some {
        None
    } else if enc is Some {
        Some((ENCODED_RUSTFLAGS@, with_flag(enc->0, unit_sep(), flag)))
    } else if plain is Some {
        Some((PLAIN_RUSTFLAGS@, with_flag(plain->0, ' ', flag)))
    } else {
        Some((PLAIN_RUSTFLAGS@, flag))
    }
}

impl RustFlags {
    /// Reads the flag variables; both being set is a conflict.
    pub fn from_env(env: &HostEnv) -> (r: Result<RustFlags, EnvError>)
        ensures
            ({
                let enc = env_lookup(env@, ENCODED_RUSTFLAGS@);
                let plain = env_lookup(env@, PLAIN_RUSTFLAGS@);
                match r {
                    Err(e) => enc is Some && plain is Some && e is ConflictingRustFlags,
                    Ok(RustFlags::Encoded(v)) => enc == Some(v@) && plain is None,
                    Ok(RustFlags::Plain(v)) => plain == Some(v@) && enc is None,
                    Ok(RustFlags::Empty) => enc is None && plain is None,
                }
            }),
    {
        let enc = env.get(ENCODED_RUSTFLAGS);
        let plain = env.get(PLAIN_RUSTFLAGS);
        match (enc, plain) {
            (Some(_), Some(_)) => Err(EnvError::ConflictingRustFlags),
            (Some(e), None) => Ok(RustFlags::Encoded(e)),
            (None, Some(p)) => Ok(RustFlags::Plain(p)),
            (None, None) => Ok(RustFlags::Empty),
        }
    }

    /// The variable and value that add `flag` to these flags, in the same
    /// spelling (plain when there were none).
    pub fn add_flag(&self, flag: &str) -> (r: (String, String))
        ensures
            match self {
                RustFlags::Encoded(v) => r.0@ == ENCODED_RUSTFLAGS@ && r.1@ == with_flag(
                    v@,
                    unit_sep(),
                    flag@,
                ),
                RustFlags::Plain(v) => r.0@ == PLAIN_RUSTFLAGS@ && r.1@ == with_flag(
                    v@,
                    ' ',
                    flag@,
                ),
                RustFlags::Empty => r.0@ == PLAIN_RUSTFLAGS@ && r.1@ == flag@,
            },
    {
        match self {
            RustFlags::Encoded(v) => (owned(ENCODED_RUSTFLAGS), append_flag(v.as_str(), '\x1f', flag)),
            RustFlags::Plain(v) => (owned(PLAIN_RUSTFLAGS), append_flag(v.as_str(), ' ', flag)),
            RustFlags::Empty => (owned(PLAIN_RUSTFLAGS), owned(flag)),
        }
    }
}

fn append_flag(old: &str, sep: char, flag: &str) -> (r: String)
    ensures
        r@ == with_flag(old@, sep, flag@),
{
    if old.unicode_len() == 0 {
        owned(flag)
    } else {
        let mut s = owned(old);
        push_char(&mut s, sep);
        s.concat(flag)
    }
}

/// The linker script that stands in for `libgcc`, and where it goes.
#[derive(Debug)]
pub struct ShimFile {
    pub dir: String,
    pub path: String,
    pub contents: String,
}

/// The directory of the `libgcc` stand-in below cargo's target directory.
pub open spec fn shim_dir_spec(target_dir: Seq<char>) -> Seq<char> {
    join_spec(target_dir, "cargo-ndk/libgcc-workaround"@)
}

/// The linker flag that puts the stand-in on the library search path.
pub open spec fn shim_flag_spec(target_dir: Seq<char>) -> Seq<char> {
    "-L"@ + shim_dir_spec(target_dir)
}

impl ShimFile {
    /// Whether this is the stand-in for `target_dir`.
    pub open spec fn is_for(&self, target_dir: Seq<char>) -> bool {
        &&& self.dir@ == shim_dir_spec(target_dir)
        &&& self.path@ == shim_dir_spec(target_dir) + "/libgcc.a"@
        &&& self.contents@ == "INPUT(-lunwind)"@
    }

    /// The stand-in for a target directory: a file `libgcc.a` that redirects
    /// the linker to `libunwind`, which newer NDKs ship instead.
    pub fn for_target_dir(target_dir: &str) -> (r: ShimFile)
        ensures
            r.is_for(target_dir@),
    {
        let dir = join_path(target_dir, "cargo-ndk/libgcc-workaround");
        let path = concat2(dir.as_str(), "/libgcc.a");
        ShimFile { dir, path, contents: owned("INPUT(-lunwind)") }
    }
}

/// The variable that passes extra arguments to bindgen's clang for a triple.
pub open spec fn bindgen_key(t: Seq<char>) -> Seq<char> {
    "BINDGEN_EXTRA_CLANG_ARGS_"@ + underscored(t)
}

/// Whether the host toolchain directory is a Windows one.
pub open spec fn windows_host(arch: Seq<char>) -> bool {
    crate::text::has_prefix(arch, "windows"@)
}

/// Its value: the sysroot and the per-target headers; on Windows hosts with
/// forward slashes, since bindgen's argument parser mistakes backslashes for
/// escapes.
pub open spec fn bindgen_value(sysroot: Seq<char>, t: Seq<char>, arch: Seq<char>) -> Seq<char> {
    let raw = "--sysroot="@ + sysroot + " -I"@ + sysroot_include_spec(sysroot, t);
    if windows_host(arch) {
        swap_char(raw, '\\', '/')
    } else {
        raw
    }
}

/// A flag variable's value: the `--target=` flag, then what was inherited.
pub open spec fn target_flags(ct: Seq<char>, inherited: Option<Seq<char>>) -> Seq<char> {
    match inherited {
        Some(v) => ct + " "@ + v,
        None => ct,
    }
}

/// What `build_env` is asked for.
pub struct EnvRequest {
    pub triple: String,
    pub ndk_home: String,
    pub host_arch: String,
    pub api_level: u8,
    /// Add the `libgcc` stand-in and put it on the linker's search path.
    pub link_compat_shim: bool,
    /// Set bindgen's extra clang arguments.
    pub generate_bindings: bool,
    /// Cargo's target directory.
    pub target_dir: String,
}

/// The variables for the compilers, archivers and cargo's linker.
pub open spec fn tool_entries(
    env: Seq<(Seq<char>, Seq<char>)>,
    t: Seq<char>,
    root: Seq<char>,
    arch: Seq<char>,
    api: nat,
) -> Seq<(Seq<char>, Seq<char>)> {
    let ct = clang_target_spec(t, api);
    let cc = compiler_path_spec(root, arch, t, api, false);
    let cxx = compiler_path_spec(root, arch, t, api, true);
    let ar = tool_path_spec(root, arch, "llvm-ar"@);
    let ranlib = tool_path_spec(root, arch, "llvm-ranlib"@);
    seq![
        (cc_env_spec(env, "CC"@, t).0, cc),
        (cc_env_spec(env, "CFLAGS"@, t).0, target_flags(ct, cc_env_spec(env, "CFLAGS"@, t).1)),
        (cc_env_spec(env, "CXX"@, t).0, cxx),
        (cc_env_spec(env, "CXXFLAGS"@, t).0, target_flags(ct, cc_env_spec(env, "CXXFLAGS"@, t).1)),
        (cc_env_spec(env, "AR"@, t).0, ar),
        (cc_env_spec(env, "RANLIB"@, t).0, ranlib),
        (cargo_cfg_key(t, "ar"@), ar),
        (cargo_cfg_key(t, "linker"@), cc),
    ]
}

/// The variables `build_env` sets, in order, or `None` when both flag
/// variables are set. Versions are checked separately.
pub open spec fn composed_entries(
    env: Seq<(Seq<char>, Seq<char>)>,
    t: Seq<char>,
    root: Seq<char>,
    arch: Seq<char>,
    api: nat,
    shim: bool,
    bindings: bool,
    target_dir: Seq<char>,
) -> Option<Seq<(Seq<char>, Seq<char>)>> {
    let tools = tool_entries(env, t, root, arch, api);
    let flags = flags_entry(env, shim_flag_spec(target_dir));
    let bind = seq![(bindgen_key(t), bindgen_value(sysroot_path_spec(root, arch), t, arch))];
    if flags is None {
        None
    } else {
        let with_shim = if shim {
            tools.push(flags->0)
        } else {
            tools
        };
        Some(
            if bindings {
                with_shim + bind
            } else {
                with_shim
            },
        )
    }
}

/// The composed environment: the variables to set on cargo, and the
/// `libgcc` stand-in to create first when one is asked for.
pub struct BuildEnv {
    pub vars: Vec<(String, String)>,
    pub shim: Option<ShimFile>,
}

impl EnvRequest {
    /// The variables for this request, as `composed_entries` gives them.
    pub open spec fn entries(&self, env: Seq<(Seq<char>, Seq<char>)>) -> Option<
        Seq<(Seq<char>, Seq<char>)>,
    > {
        composed_entries(
            env,
            self.triple@,
            self.ndk_home@,
            self.host_arch@,
            self.api_level as nat,
            self.link_compat_shim,
            self.generate_bindings,
            self.target_dir@,
        )
    }
}

/// Whether `r` is what `build_env` owes for `req`, `version` and `env`.
pub open spec fn build_env_result(
    req: &EnvRequest,
    version: &NdkVersion,
    env: Seq<(Seq<char>, Seq<char>)>,
    r: &Result<BuildEnv, EnvError>,
) -> bool {
    if version.major < MIN_SUPPORTED_MAJOR {
        r matches Err(EnvError::UnsupportedVersion(m)) && m == version.major
    } else {
        match req.entries(env) {
            None => r matches Err(EnvError::ConflictingRustFlags),
            Some(entries) => r matches Ok(b) && pair_views(b.vars@) == entries && (
            if req.link_compat_shim {
                b.shim matches Some(s) && s.is_for(req.target_dir@)
            } else {
                b.shim is None
            }),
        }
    }
}

fn push_pair(v: &mut Vec<(String, String)>, k: String, x: String)
    ensures
        pair_views(final(v)@) == pair_views(old(v)@).push((k@, x@)),
{
    let ghost before = pair_views(v@);
    v.push((k, x));
    proof {
        assert(pair_views(v@) =~= before.push((k@, x@)));
    }
}

/// Composes the environment for building one target: the compilers,
/// archivers and linker of the NDK, the `--target=` flag in the C and C++
/// flag variables (before any inherited flags), optionally the `libgcc`
/// stand-in on the linker search path (added to whichever flag variable is
/// already in use), and optionally bindgen's sysroot arguments. Fails on
/// NDKs older than the supported layout, before resolving any path, and
/// when both flag variables are set, since either could hold the user's flags. No two
/// variables share a name.
pub fn build_env(req: &EnvRequest, version: &NdkVersion, env: &HostEnv) -> (r: Result<
    BuildEnv,
    EnvError,
>)
    ensures
        build_env_result(req, version, env@, &r),
        r matches Ok(b) ==> keys_distinct(pair_views(b.vars@)),
{
    proof {
        lemma_build_env_keys_distinct(req, env@);
    }
    if version.major < MIN_SUPPORTED_MAJOR {
        return Err(EnvError::UnsupportedVersion(version.major));
    }
    let triple = req.triple.as_str();
    let paths = ResolvedPaths::resolve(
        req.ndk_home.as_str(),
        req.host_arch.as_str(),
        triple,
        req.api_level,
    );
    let ct = clang_target(triple, req.api_level);
    let (cc_key, _) = cc_env("CC", triple, env);
    let (cflags_key, cflags_inherited) = cc_env("CFLAGS", triple, env);
    let (cxx_key, _) = cc_env("CXX", triple, env);
    let (cxxflags_key, cxxflags_inherited) = cc_env("CXXFLAGS", triple, env);
    let (ar_key, _) = cc_env("AR", triple, env);
    let (ranlib_key, _) = cc_env("RANLIB", triple, env);
    let cflags = match cflags_inherited {
        Some(v) => concat3(ct.as_str(), " ", v.as_str()),
        None => owned(ct.as_str()),
    };
    let cxxflags = match cxxflags_inherited {
        Some(v) => concat3(ct.as_str(), " ", v.as_str()),
        None => owned(ct.as_str()),
    };
    let mut vars: Vec<(String, String)> = Vec::new();
    push_pair(&mut vars, cc_key, owned(paths.cc.as_str()));
    push_pair(&mut vars, cflags_key, cflags);
    push_pair(&mut vars, cxx_key, owned(paths.cxx.as_str()));
    push_pair(&mut vars, cxxflags_key, cxxflags);
    push_pair(&mut vars, ar_key, owned(paths.ar.as_str()));
    push_pair(&mut vars, ranlib_key, owned(paths.ranlib.as_str()));
    push_pair(&mut vars, cargo_env_target_cfg(triple, "ar"), owned(paths.ar.as_str()));
    push_pair(&mut vars, cargo_env_target_cfg(triple, "linker"), owned(paths.cc.as_str()));
    let ghost tools = pair_views(vars@);
    proof {
        let e = tool_entries(
            env@,
            req.triple@,
            req.ndk_home@,
            req.host_arch@,
            req.api_level as nat,
        );
        assert(tools =~= e);
    }
    let flags = match RustFlags::from_env(env) {
        Ok(f) => f,
        Err(e) => return Err(e),
    };
    let shim = if req.link_compat_shim {
        let file = ShimFile::for_target_dir(req.target_dir.as_str());
        let flag = concat2("-L", file.dir.as_str());
        let (k, v) = flags.add_flag(flag.as_str());
        push_pair(&mut vars, k, v);
        Some(file)
    } else {
        None
    };
    let ghost with_shim = pair_views(vars@);
    if req.generate_bindings {
        let key = concat2("BINDGEN_EXTRA_CLANG_ARGS_", replace_char(triple, '-', '_').as_str());
        let raw = concat3("--sysroot=", paths.sysroot.as_str(), " -I").concat(
            paths.sysroot_include.as_str(),
        );
        let value = if crate::text::starts_with(req.host_arch.as_str(), "windows") {
            replace_char(raw.as_str(), '\\', '/')
        } else {
            raw
        };
        push_pair(&mut vars, key, value);
        proof {
            assert(pair_views(vars@) =~= with_shim + seq![
                (bindgen_key(req.triple@), bindgen_value(
                    sysroot_path_spec(req.ndk_home@, req.host_arch@),
                    req.triple@,
                    req.host_arch@,
                )),
            ]);
        }
    }
    Ok(BuildEnv { vars, shim })
}

/// Composing twice from the same request, version and environment gives the
/// same outcome: the same variables in the same order, and the same
/// `libgcc` stand-in, so creating it a second time changes nothing.
pub proof fn lemma_build_env_deterministic(
    req: &EnvRequest,
    version: &NdkVersion,
    env: Seq<(Seq<char>, Seq<char>)>,
    first: &Result<BuildEnv, EnvError>,
    second: &Result<BuildEnv, EnvError>,
)
    requires
        build_env_result(req, version, env, first),
        build_env_result(req, version, env, second),
    ensures
        match (first, second) {
            (Ok(a), Ok(b)) => pair_views(a.vars@) == pair_views(b.vars@) && match (a.shim, b.shim) {
                (Some(x), Some(y)) => x.dir@ == y.dir@ && x.path@ == y.path@ && x.contents@
                    == y.contents@,
                (None, None) => true,
                _ => false,
            },
            (Err(EnvError::UnsupportedVersion(m)), Err(EnvError::UnsupportedVersion(n))) => m == n,
            (Err(EnvError::ConflictingRustFlags), Err(EnvError::ConflictingRustFlags)) => true,
            _ => false,
        },
{
}

/// No two entries share a name.
pub open spec fn keys_distinct(e: Seq<(Seq<char>, Seq<char>)>) -> bool {
    forall|i: int, j: int|
        0 <= i < e.len() && 0 <= j < e.len() && i != j ==> #[trigger] e[i].0 != #[trigger] e[j].0
}

/// Which of the composed variables a name can be, read from a few of its
/// characters: C, C flags, C++, C++ flags, archiver, ranlib, cargo's
/// archiver, cargo's linker, rust flags, bindgen.
spec fn key_class(k: Seq<char>) -> int {
    if k.len() < 2 {
        -1
    } else if k[0] == 'B' {
        9
    } else if k[0] == 'R' {
        if k[1] == 'U' {
            8
        } else {
            5
        }
    } else if k[0] == 'A' {
        4
    } else if k[0] == 'T' {
        if k.len() < 9 {
            -1
        } else if k[7] == 'A' {
            4
        } else if k[7] == 'R' {
            5
        } else if k[8] == 'C' {
            0
        } else if k[8] == 'F' {
            1
        } else if k.len() == 10 {
            2
        } else {
            3
        }
    } else if k[1] == 'A' {
        if k.len() < 7 {
            -1
        } else if k[6] == 'E' {
            8
        } else if k[k.len() - 3] == '_' {
            6
        } else {
            7
        }
    } else if k[1] == 'C' {
        0
    } else if k[1] == 'F' {
        1
    } else if k.len() == 3 || k[3] == '_' {
        2
    } else {
        3
    }
}

proof fn lemma_cc_class(env: Seq<(Seq<char>, Seq<char>)>, base: Seq<char>, t: Seq<char>, c: int)
    requires
        key_class(base + "_"@ + t) == c,
        key_class(base + "_"@ + underscored(t)) == c,
        key_class("TARGET_"@ + base) == c,
        key_class(base) == c,
    ensures
        key_class(cc_env_spec(env, base, t).0) == c,
{
}

proof fn lemma_tool_classes(env: Seq<(Seq<char>, Seq<char>)>, t: Seq<char>)
    ensures
        key_class(cc_env_spec(env, "CC"@, t).0) == 0,
        key_class(cc_env_spec(env, "CFLAGS"@, t).0) == 1,
        key_class(cc_env_spec(env, "CXX"@, t).0) == 2,
        key_class(cc_env_spec(env, "CXXFLAGS"@, t).0) == 3,
        key_class(cc_env_spec(env, "AR"@, t).0) == 4,
        key_class(cc_env_spec(env, "RANLIB"@, t).0) == 5,
        key_class(cargo_cfg_key(t, "ar"@)) == 6,
        key_class(cargo_cfg_key(t, "linker"@)) == 7,
{
    reveal_strlit("_");
    reveal_strlit("TARGET_");
    reveal_strlit("CC");
    reveal_strlit("CFLAGS");
    reveal_strlit("CXX");
    reveal_strlit("CXXFLAGS");
    reveal_strlit("AR");
    reveal_strlit("RANLIB");
    reveal_strlit("CARGO_TARGET_");
    reveal_strlit("ar");
    reveal_strlit("linker");
    let tu = underscored(t);
    lemma_cc_class(env, "CC"@, t, 0);
    lemma_cc_class(env, "CFLAGS"@, t, 1);
    lemma_cc_class(env, "CXX"@, t, 2);
    lemma_cc_class(env, "CXXFLAGS"@, t, 3);
    lemma_cc_class(env, "AR"@, t, 4);
    lemma_cc_class(env, "RANLIB"@, t, 5);
    let sa = "CARGO_TARGET_"@ + tu + "_"@ + "ar"@;
    let sl = "CARGO_TARGET_"@ + tu + "_"@ + "linker"@;
    let ka = cargo_cfg_key(t, "ar"@);
    let kl = cargo_cfg_key(t, "linker"@);
    assert(ka.len() == sa.len());
    assert(ka[0] == upper_char(sa[0]));
    assert(ka[1] == upper_char(sa[1]));
    assert(ka[6] == upper_char(sa[6]));
    assert(ka[ka.len() - 3] == upper_char(sa[sa.len() - 3]));
    assert(sa[sa.len() - 3] == '_');
    assert(kl.len() == sl.len());
    assert(kl[0] == upper_char(sl[0]));
    assert(kl[1] == upper_char(sl[1]));
    assert(kl[6] == upper_char(sl[6]));
    assert(kl[kl.len() - 3] == upper_char(sl[sl.len() - 3]));
    assert(sl[sl.len() - 3] == 'k');
}

/// The class of the `i`-th composed variable.
spec fn entry_class(i: int, shim: bool) -> int {
    if i < 8 {
        i
    } else if i == 8 && shim {
        8
    } else {
        9
    }
}

proof fn lemma_entry_classes(req: &EnvRequest, env: Seq<(Seq<char>, Seq<char>)>)
    ensures
        req.entries(env) matches Some(e) ==> forall|i: int|
            0 <= i < e.len() ==> key_class(#[trigger] e[i].0) == entry_class(
                i,
                req.link_compat_shim,
            ),
{
    let t = req.triple@;
    lemma_tool_classes(env, t);
    reveal_strlit("RUSTFLAGS");
    reveal_strlit("CARGO_ENCODED_RUSTFLAGS");
    reveal_strlit("BINDGEN_EXTRA_CLANG_ARGS_");
    if let Some(e) = req.entries(env) {
        let flags = flags_entry(env, shim_flag_spec(req.target_dir@));
        if req.link_compat_shim {
            let (fk, _) = flags->0;
            assert(key_class(fk) == 8);
        }
        assert(key_class(bindgen_key(t)) == 9);
    }
}

/// The variables that `build_env` composes have distinct names, so none of
/// them overwrites another.
pub proof fn lemma_build_env_keys_distinct(req: &EnvRequest, env: Seq<(Seq<char>, Seq<char>)>)
    ensures
        req.entries(env) matches Some(e) ==> keys_distinct(e),
{
    lemma_entry_classes(req, env);
    if let Some(e) = req.entries(env) {
        assert forall|i: int, j: int|
            0 <= i < e.len() && 0 <= j < e.len() && i != j implies #[trigger] e[i].0
            != #[trigger] e[j].0 by {
            assert(key_class(e[i].0) == entry_class(i, req.link_compat_shim));
            assert(key_class(e[j].0) == entry_class(j, req.link_compat_shim));
        }
    }
}

/// With the stand-in asked for on a supported NDK, its `-L` flag joins the
/// flags already set: after one space in the plain variable when plain flags
/// `v` are set, and after a unit separator in the encoded variable when
/// encoded flags `v` are set. The other spelling is not set at all.
pub proof fn lemma_shim_flag_merge(
    req: &EnvRequest,
    version: &NdkVersion,
    env: Seq<(Seq<char>, Seq<char>)>,
    v: Seq<char>,
    r: &Result<BuildEnv, EnvError>,
)
    requires
        req.link_compat_shim,
        v.len() > 0,
        version.major >= MIN_SUPPORTED_MAJOR,
        build_env_result(req, version, env, r),
    ensures
        env_lookup(env, PLAIN_RUSTFLAGS@) == Some(v) && env_lookup(env, ENCODED_RUSTFLAGS@) is None
            ==> (r matches Ok(b) && pair_views(b.vars@)[8] == (
            PLAIN_RUSTFLAGS@,
            v + " "@ + shim_flag_spec(req.target_dir@),
        ) && forall|i: int|
            0 <= i < b.vars@.len() ==> #[trigger] pair_views(b.vars@)[i].0 != ENCODED_RUSTFLAGS@),
        env_lookup(env, ENCODED_RUSTFLAGS@) == Some(v) && env_lookup(env, PLAIN_RUSTFLAGS@) is None
            ==> (r matches Ok(b) && pair_views(b.vars@)[8] == (
            ENCODED_RUSTFLAGS@,
            v.push(unit_sep()) + shim_flag_spec(req.target_dir@),
        ) && forall|i: int|
            0 <= i < b.vars@.len() ==> #[trigger] pair_views(b.vars@)[i].0 != PLAIN_RUSTFLAGS@),
{
    reveal_strlit(" ");
    reveal_strlit("RUSTFLAGS");
    reveal_strlit("CARGO_ENCODED_RUSTFLAGS");
    lemma_entry_classes(req, env);
    let flag = shim_flag_spec(req.target_dir@);
    assert(key_class(PLAIN_RUSTFLAGS@) == 8);
    assert(key_class(ENCODED_RUSTFLAGS@) == 8);
    assert(PLAIN_RUSTFLAGS@[0] != ENCODED_RUSTFLAGS@[0]);
    if let Ok(b) = r {
        let e = pair_views(b.vars@);
        if env_lookup(env, PLAIN_RUSTFLAGS@) == Some(v) && env_lookup(env, ENCODED_RUSTFLAGS@)
            is None {
            assert(v.push(' ') + flag =~= v + " "@ + flag);
        }
        assert forall|i: int| 0 <= i < e.len() && i != 8 implies key_class(#[trigger] e[i].0)
            != 8 by {
            assert(key_class(e[i].0) == entry_class(i, true));
        }
    }
}

/// On a supported NDK, unless both flag variables are set, composing
/// succeeds: the C compiler variable holds the per-API-level driver, which is
/// also cargo's linker; both archiver variables hold `llvm-ar`; and no
/// `libgcc` stand-in is planned unless it is asked for. With no C compiler
/// override inherited, the C compiler variable is `CC_<triple>`.
pub proof fn lemma_compiler_and_linker(
    req: &EnvRequest,
    version: &NdkVersion,
    env: Seq<(Seq<char>, Seq<char>)>,
    r: &Result<BuildEnv, EnvError>,
)
    requires
        version.major >= MIN_SUPPORTED_MAJOR,
        !(env_lookup(env, ENCODED_RUSTFLAGS@) is Some && env_lookup(env, PLAIN_RUSTFLAGS@) is Some),
        build_env_result(req, version, env, r),
    ensures
        r matches Ok(b) && ({
            let e = pair_views(b.vars@);
            let t = req.triple@;
            let cc = compiler_path_spec(
                req.ndk_home@,
                req.host_arch@,
                t,
                req.api_level as nat,
                false,
            );
            let ar = tool_path_spec(req.ndk_home@, req.host_arch@, "llvm-ar"@);
            &&& e[0] == (cc_env_spec(env, "CC"@, t).0, cc)
            &&& e[4].1 == ar
            &&& e[6] == (cargo_cfg_key(t, "ar"@), ar)
            &&& e[7] == (cargo_cfg_key(t, "linker"@), cc)
            &&& !req.link_compat_shim ==> b.shim is None
        }),
        ({
            let keys = cc_keys("CC"@, req.triple@);
            env_lookup(env, keys[0]) is None && env_lookup(env, keys[1]) is None && env_lookup(
                env,
                keys[2],
            ) is None && env_lookup(env, keys[3]) is None
        }) ==> cc_env_spec(env, "CC"@, req.triple@).0 == "CC"@ + "_"@ + req.triple@,
{
}

/// The variables that describe the build session to build scripts (CMake
/// among them): the NDK's CMake toolchain file, the output directory when
/// there is one, the API level, and the target's ABI.
pub open spec fn session_entries(
    ndk_home: Seq<char>,
    api: nat,
    target: crate::target::Target,
    output_dir: Option<Seq<char>>,
) -> Seq<(Seq<char>, Seq<char>)> {
    seq![("CARGO_NDK_CMAKE_TOOLCHAIN_PATH"@, join_spec(ndk_home, "build/cmake/android.toolchain.cmake"@))]
        + match output_dir {
        Some(d) => seq![("CARGO_NDK_OUTPUT_PATH"@, d)],
        None => Seq::empty(),
    } + seq![
        ("CARGO_NDK_ANDROID_PLATFORM"@, crate::text::dec_digits(api)),
        ("ANDROID_PLATFORM"@, crate::text::dec_digits(api)),
        ("ANDROID_ABI"@, crate::target::abi_name(target)),
    ]
}

/// The session variables for building one target.
pub fn session_env(
    ndk_home: &str,
    api_level: u8,
    target: crate::target::Target,
    output_dir: Option<&str>,
) -> (r: Vec<(String, String)>)
    ensures
        pair_views(r@) == session_entries(
            ndk_home@,
            api_level as nat,
            target,
            match output_dir {
                Some(d) => Some(d@),
                None => None,
            },
        ),
{
    let mut vars: Vec<(String, String)> = Vec::new();
    push_pair(
        &mut vars,
        owned("CARGO_NDK_CMAKE_TOOLCHAIN_PATH"),
        crate::toolchain::cmake_toolchain_path(ndk_home),
    );
    if let Some(d) = output_dir {
        push_pair(&mut vars, owned("CARGO_NDK_OUTPUT_PATH"), owned(d));
    }
    push_pair(
        &mut vars,
        owned("CARGO_NDK_ANDROID_PLATFORM"),
        crate::text::decimal(api_level as u64),
    );
    push_pair(&mut vars, owned("ANDROID_PLATFORM"), crate::text::decimal(api_level as u64));
    push_pair(&mut vars, owned("ANDROID_ABI"), target.to_string());
    proof {
        let d = match output_dir {
            Some(d) => Some(d@),
            None => None,
        };
        assert(pair_views(vars@) =~= session_entries(ndk_home@, api_level as nat, target, d));
    }
    vars
}

} // verus!
