//! Where the NDK keeps its compilers and tools.
//!
//! Resolution is textual: nothing here looks at the disk. A wrong path shows
//! up later, when spawning the tool fails with that path in the message.
//!
//! Compilers are addressed by the NDK's per-API-level driver names
//! (`aarch64-linux-android21-clang`). The same `--target=<triple><api>` that
//! those names imply is also handed over in the C and C++ flag variables
//! (see `clang_target`), so that build scripts which call clang themselves
//! compile for the same target and API level.
use vstd::prelude::*;

use crate::text::{concat2, concat3, dec_digits, decimal, join_path, join_spec, str_eq};

verus! {

/// The triple that the clang driver expects for a Rust triple: the 32-bit
/// ARM target is spelled with its float ABI, every other one is unchanged.
pub open spec fn driver_triple(t: Seq<char>) -> Seq<char> {
    if t == "arm-linux-androideabi"@ || t == "armv7-linux-androideabi"@ {
        "armv7a-linux-androideabi"@
    } else {
        t
    }
}

/// The triple that names the sysroot's per-target directories: the 32-bit
/// ARM target uses the plain `arm` spelling, every other one is unchanged.
pub open spec fn tool_triple_spec(t: Seq<char>) -> Seq<char> {
    if t == "armv7-linux-androideabi"@ {
        "arm-linux-androideabi"@
    } else {
        t
    }
}

/// `--target=<driver triple><api level>`.
pub open spec fn clang_target_spec(t: Seq<char>, api: nat) -> Seq<char> {
    "--target="@ + driver_triple(t) + dec_digits(api)
}

/// The prebuilt host directory below the NDK root.
pub open spec fn prebuilt_rel(arch: Seq<char>) -> Seq<char> {
    "toolchains/llvm/prebuilt/"@ + arch
}

/// A tool of the host toolchain, relative to the NDK root.
pub open spec fn tool_rel(arch: Seq<char>, tool: Seq<char>) -> Seq<char> {
    prebuilt_rel(arch) + "/bin/"@ + tool
}

/// The sysroot, relative to the NDK root.
pub open spec fn sysroot_rel(arch: Seq<char>) -> Seq<char> {
    prebuilt_rel(arch) + "/sysroot"@
}

/// The file name of the C (`cxx == false`) or C++ compiler driver.
pub open spec fn compiler_name(t: Seq<char>, api: nat, cxx: bool) -> Seq<char> {
    driver_triple(t) + dec_digits(api) + if cxx {
        "-clang++"@
    } else {
        "-clang"@
    }
}

/// The compiler driver's full path.
pub open spec fn compiler_path_spec(
    root: Seq<char>,
    arch: Seq<char>,
    t: Seq<char>,
    api: nat,
    cxx: bool,
) -> Seq<char> {
    join_spec(root, tool_rel(arch, compiler_name(t, api, cxx)))
}

/// A named tool's full path.
pub open spec fn tool_path_spec(root: Seq<char>, arch: Seq<char>, tool: Seq<char>) -> Seq<char> {
    join_spec(root, tool_rel(arch, tool))
}

/// The sysroot's full path.
pub open spec fn sysroot_path_spec(root: Seq<char>, arch: Seq<char>) -> Seq<char> {
    join_spec(root, sysroot_rel(arch))
}

/// The per-target header directory inside a sysroot.
pub open spec fn sysroot_include_spec(sysroot: Seq<char>, t: Seq<char>) -> Seq<char> {
    sysroot + "/usr/include/"@ + tool_triple_spec(t)
}

/// The triple that the clang driver expects.
pub fn compiler_driver_triple<'a>(triple: &'a str) -> (r: &'a str)
    ensures
        r@ == driver_triple(triple@),
{
    if str_eq(triple, "arm-linux-androideabi") || str_eq(triple, "armv7-linux-androideabi") {
        "armv7a-linux-androideabi"
    } else {
        triple
    }
}

/// The triple that names the sysroot's per-target directories.
pub fn tool_triple<'a>(triple: &'a str) -> (r: &'a str)
    ensures
        r@ == tool_triple_spec(triple@),
{
    if str_eq(triple, "armv7-linux-androideabi") {
        "arm-linux-androideabi"
    } else {
        triple
    }
}

/// The `--target=` flag for clang at an API level.
pub fn clang_target(triple: &str, api_level: u8) -> (r: String)
    ensures
        r@ == clang_target_spec(triple@, api_level as nat),
{
    let api = decimal(api_level as u64);
    concat3("--target=", compiler_driver_triple(triple), api.as_str())
}

/// A tool of the host toolchain, relative to the NDK root.
pub fn ndk_tool(arch: &str, tool: &str) -> (r: String)
    ensures
        r@ == tool_rel(arch@, tool@),
{
    let base = concat2("toolchains/llvm/prebuilt/", arch);
    concat3(base.as_str(), "/bin/", tool)
}

/// The sysroot, relative to the NDK root.
pub fn sysroot_suffix(arch: &str) -> (r: String)
    ensures
        r@ == sysroot_rel(arch@),
{
    concat3("toolchains/llvm/prebuilt/", arch, "/sysroot")
}

/// The C (`is_cxx == false`) or C++ compiler driver for a triple and API level.
pub fn compiler_path(root: &str, host_arch: &str, triple: &str, api_level: u8, is_cxx: bool) -> (r:
    String)
    ensures
        r@ == compiler_path_spec(root@, host_arch@, triple@, api_level as nat, is_cxx),
{
    let api = decimal(api_level as u64);
    let suffix = if is_cxx {
        "-clang++"
    } else {
        "-clang"
    };
    let name = concat3(compiler_driver_triple(triple), api.as_str(), suffix);
    let rel = ndk_tool(host_arch, name.as_str());
    join_path(root, rel.as_str())
}

/// The archiver (`llvm-ar`).
pub fn archiver_path(root: &str, host_arch: &str) -> (r: String)
    ensures
        r@ == tool_path_spec(root@, host_arch@, "llvm-ar"@),
{
    let rel = ndk_tool(host_arch, "llvm-ar");
    join_path(root, rel.as_str())
}

/// The archive indexer (`llvm-ranlib`).
pub fn ranlib_path(root: &str, host_arch: &str) -> (r: String)
    ensures
        r@ == tool_path_spec(root@, host_arch@, "llvm-ranlib"@),
{
    let rel = ndk_tool(host_arch, "llvm-ranlib");
    join_path(root, rel.as_str())
}

/// The symbol stripper (`llvm-strip`).
pub fn stripper_path(root: &str, host_arch: &str) -> (r: String)
    ensures
        r@ == tool_path_spec(root@, host_arch@, "llvm-strip"@),
{
    let rel = ndk_tool(host_arch, "llvm-strip");
    join_path(root, rel.as_str())
}

/// The sysroot of the host toolchain.
pub fn sysroot_path(root: &str, host_arch: &str) -> (r: String)
    ensures
        r@ == sysroot_path_spec(root@, host_arch@),
{
    let rel = sysroot_suffix(host_arch);
    join_path(root, rel.as_str())
}

/// The per-target header directory inside `sysroot`.
pub fn sysroot_include_path(sysroot: &str, triple: &str) -> (r: String)
    ensures
        r@ == sysroot_include_spec(sysroot@, triple@),
{
    concat3(sysroot, "/usr/include/", tool_triple(triple))
}

/// The CMake toolchain file that ships with the NDK.
pub fn cmake_toolchain_path(root: &str) -> (r: String)
    ensures
        r@ == join_spec(root@, "build/cmake/android.toolchain.cmake"@),
{
    join_path(root, "build/cmake/android.toolchain.cmake")
}

/// All the tool paths for one target, API level and host.
pub struct ResolvedPaths {
    pub cc: String,
    pub cxx: String,
    pub ar: String,
    pub ranlib: String,
    pub strip: String,
    pub sysroot: String,
    pub sysroot_include: String,
}

impl ResolvedPaths {
    /// Whether every path is the one resolved for these inputs.
    pub open spec fn resolved_from(
        &self,
        root: Seq<char>,
        arch: Seq<char>,
        t: Seq<char>,
        api: nat,
    ) -> bool {
        &&& self.cc@ == compiler_path_spec(root, arch, t, api, false)
        &&& self.cxx@ == compiler_path_spec(root, arch, t, api, true)
        &&& self.ar@ == tool_path_spec(root, arch, "llvm-ar"@)
        &&& self.ranlib@ == tool_path_spec(root, arch, "llvm-ranlib"@)
        &&& self.strip@ == tool_path_spec(root, arch, "llvm-strip"@)
        &&& self.sysroot@ == sysroot_path_spec(root, arch)
        &&& self.sysroot_include@ == sysroot_include_spec(sysroot_path_spec(root, arch), t)
    }

    /// Resolves every path for a triple and API level.
    pub fn resolve(root: &str, host_arch: &str, triple: &str, api_level: u8) -> (r: ResolvedPaths)
        ensures
            r.resolved_from(root@, host_arch@, triple@, api_level as nat),
    {
        let sysroot = sysroot_path(root, host_arch);
        let sysroot_include = sysroot_include_path(sysroot.as_str(), triple);
        ResolvedPaths {
            cc: compiler_path(root, host_arch, triple, api_level, false),
            cxx: compiler_path(root, host_arch, triple, api_level, true),
            ar: archiver_path(root, host_arch),
            ranlib: ranlib_path(root, host_arch),
            strip: stripper_path(root, host_arch),
            sysroot,
            sysroot_include,
        }
    }
}

/// Of the supported targets only 32-bit ARM is renamed, and its two
/// renamings differ from each other and from its Rust triple.
pub proof fn lemma_triple_renaming(t: crate::target::Target)
    ensures
        t != crate::target::Target::ArmeabiV7a ==> driver_triple(crate::target::rust_triple(t))
            == crate::target::rust_triple(t) && tool_triple_spec(crate::target::rust_triple(t))
            == crate::target::rust_triple(t),
        t == crate::target::Target::ArmeabiV7a ==> {
            let r = crate::target::rust_triple(t);
            &&& driver_triple(r) == "armv7a-linux-androideabi"@
            &&& tool_triple_spec(r) == "arm-linux-androideabi"@
            &&& driver_triple(r) != tool_triple_spec(r)
            &&& driver_triple(r) != r
            &&& tool_triple_spec(r) != r
        },
{
    reveal_strlit("armv7a-linux-androideabi");
    reveal_strlit("arm-linux-androideabi");
    reveal_strlit("armv7-linux-androideabi");
    reveal_strlit("aarch64-linux-android");
    reveal_strlit("i686-linux-android");
    reveal_strlit("x86_64-linux-android");
    assert("armv7a-linux-androideabi"@[5] != "armv7-linux-androideabi"@[5]);
    assert("arm-linux-androideabi"@[3] != "armv7-linux-androideabi"@[3]);
    assert("arm-linux-androideabi"@[3] != "armv7a-linux-androideabi"@[3]);
    assert("aarch64-linux-android"@[1] != "arm-linux-androideabi"@[1]);
    assert("aarch64-linux-android"@[1] != "armv7-linux-androideabi"@[1]);
    assert("i686-linux-android"@[0] != "arm-linux-androideabi"@[0]);
    assert("i686-linux-android"@[0] != "armv7-linux-androideabi"@[0]);
    assert("x86_64-linux-android"@[0] != "arm-linux-androideabi"@[0]);
    assert("x86_64-linux-android"@[0] != "armv7-linux-androideabi"@[0]);
}

} // verus!
