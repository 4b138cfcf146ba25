use cargo_ndk::environment::{
    build_env, cargo_env_target_cfg, cc_env, session_env, BuildEnv, EnvError, EnvRequest,
    HostEnv, RustFlags, ShimFile,
};
use cargo_ndk::target::{default_targets, Target, TargetError};
use cargo_ndk::text::{decimal, join_path, replace_char, split_char, to_upper_ascii};
use cargo_ndk::toolchain::{
    archiver_path, clang_target, compiler_driver_triple, compiler_path, ranlib_path,
    stripper_path, sysroot_include_path, sysroot_path, tool_triple, ResolvedPaths,
};
use cargo_ndk::version::{
    find_revision, highest_version_index, parse_source_properties, version_from_semver, NdkVersion, VersionError,
};

fn host(vars: &[(&str, &str)]) -> HostEnv {
    HostEnv {
        vars: vars
            .iter()
            .map(|(k, v)| (k.to_string(), v.to_string()))
            .collect(),
    }
}

fn version(major: u64) -> NdkVersion {
    NdkVersion {
        major,
        minor: 0,
        patch: 12077973,
        pre: String::new(),
    }
}

fn request(triple: &str, shim: bool, bindings: bool) -> EnvRequest {
    EnvRequest {
        triple: triple.to_string(),
        ndk_home: "/opt/android-ndk".to_string(),
        host_arch: "linux-x86_64".to_string(),
        api_level: 21,
        link_compat_shim: shim,
        generate_bindings: bindings,
        target_dir: "/work/target".to_string(),
    }
}

fn get<'a>(env: &'a BuildEnv, key: &str) -> Option<&'a str> {
    env.vars
        .iter()
        .find(|(k, _)| k == key)
        .map(|(_, v)| v.as_str())
}

fn names(v: &[&str]) -> Vec<String> {
    v.iter().map(|s| s.to_string()).collect()
}

const SHIM_DIR: &str = "/work/target/cargo-ndk/libgcc-workaround";

#[test]
fn target_parse_round_trips_both_spellings() {
    for t in Target::all() {
        assert_eq!(Target::parse(t.name()).unwrap(), t);
        assert_eq!(Target::parse(t.triple()).unwrap(), t);
        assert_eq!(Target::parse(&t.to_string()).unwrap(), t);
    }
    assert_eq!(Target::parse("armv7-linux-androideabi").unwrap(), Target::ArmeabiV7a);
    assert_eq!(Target::parse("i686-linux-android").unwrap(), Target::X86);
    assert_eq!(Target::parse("x86_64").unwrap(), Target::X86_64);
}

#[test]
fn target_parse_is_exact() {
    for bad in ["ARM64-V8A", "arm64", "", "x86 ", "aarch64-linux-androideabi"] {
        match Target::parse(bad) {
            Err(TargetError::UnsupportedTarget(n)) => assert_eq!(n, bad),
            Ok(t) => panic!("{bad:?} parsed as {t:?}"),
        }
    }
    let e = Target::parse("mips").unwrap_err();
    assert_eq!(e.message(), "Unsupported target: 'mips'");
}

#[test]
fn default_targets_are_the_two_arm_abis() {
    assert_eq!(default_targets(), vec![Target::ArmeabiV7a, Target::Arm64V8a]);
}

#[test]
fn triple_renaming_only_for_arm32() {
    for t in [Target::Arm64V8a, Target::X86, Target::X86_64] {
        assert_eq!(compiler_driver_triple(t.triple()), t.triple());
        assert_eq!(tool_triple(t.triple()), t.triple());
    }
    let arm = Target::ArmeabiV7a.triple();
    let driver = compiler_driver_triple(arm);
    let tool = tool_triple(arm);
    assert_eq!(driver, "armv7a-linux-androideabi");
    assert_eq!(tool, "arm-linux-androideabi");
    assert_ne!(driver, tool);
    assert_ne!(driver, arm);
    assert_ne!(tool, arm);
    assert_eq!(compiler_driver_triple("arm-linux-androideabi"), "armv7a-linux-androideabi");
}

#[test]
fn clang_target_flag() {
    assert_eq!(
        clang_target("armv7-linux-androideabi", 21),
        "--target=armv7a-linux-androideabi21"
    );
    assert_eq!(
        clang_target("aarch64-linux-android", 30),
        "--target=aarch64-linux-android30"
    );
    assert_eq!(clang_target("x86_64-linux-android", 9), "--target=x86_64-linux-android9");
}

#[test]
fn tool_paths() {
    let root = "/ndk";
    assert_eq!(
        compiler_path(root, "linux-x86_64", "armv7-linux-androideabi", 24, true),
        "/ndk/toolchains/llvm/prebuilt/linux-x86_64/bin/armv7a-linux-androideabi24-clang++"
    );
    assert_eq!(
        archiver_path("/ndk/", "darwin-x86_64"),
        "/ndk/toolchains/llvm/prebuilt/darwin-x86_64/bin/llvm-ar"
    );
    assert_eq!(
        ranlib_path(root, "linux-x86_64"),
        "/ndk/toolchains/llvm/prebuilt/linux-x86_64/bin/llvm-ranlib"
    );
    assert_eq!(
        stripper_path(root, "windows-x86_64"),
        "/ndk/toolchains/llvm/prebuilt/windows-x86_64/bin/llvm-strip"
    );
    let sysroot = sysroot_path(root, "linux-x86_64");
    assert_eq!(sysroot, "/ndk/toolchains/llvm/prebuilt/linux-x86_64/sysroot");
    assert_eq!(
        sysroot_include_path(&sysroot, "armv7-linux-androideabi"),
        "/ndk/toolchains/llvm/prebuilt/linux-x86_64/sysroot/usr/include/arm-linux-androideabi"
    );
    let p = ResolvedPaths::resolve(root, "linux-x86_64", "i686-linux-android", 21);
    assert_eq!(p.cc, "/ndk/toolchains/llvm/prebuilt/linux-x86_64/bin/i686-linux-android21-clang");
    assert_eq!(p.strip, "/ndk/toolchains/llvm/prebuilt/linux-x86_64/bin/llvm-strip");
    assert_eq!(
        p.sysroot_include,
        "/ndk/toolchains/llvm/prebuilt/linux-x86_64/sysroot/usr/include/i686-linux-android"
    );
}

#[test]
fn source_properties_revision() {
    let text = "Pkg.Desc = Android NDK\nPkg.Revision = 25.1.8937393\nPkg.BaseRevision = 1.0.0\n";
    let v = parse_source_properties(text).unwrap();
    assert_eq!((v.major, v.minor, v.patch), (25, 1, 8937393));
    assert_eq!(v.pre, "");
    assert!(v.is_supported());
}

#[test]
fn source_properties_pre_release() {
    let v = parse_source_properties("Pkg.Revision = 26.0.10404224-beta1").unwrap();
    assert_eq!((v.major, v.minor, v.patch), (26, 0, 10404224));
    assert_eq!(v.pre, "beta1");
}

#[test]
fn source_properties_errors() {
    assert!(matches!(
        parse_source_properties("Pkg.Desc = Android NDK\n"),
        Err(VersionError::MissingRevision)
    ));
    assert!(matches!(parse_source_properties(""), Err(VersionError::MissingRevision)));
    match parse_source_properties("Pkg.Desc = x\nPkg.Revision = r25b\n") {
        Err(VersionError::MalformedVersion(raw)) => assert_eq!(raw, "r25b"),
        other => panic!("unexpected {other:?}"),
    }
    match parse_source_properties("Pkg.Revision = 25.01.1\n") {
        Err(VersionError::MalformedVersion(raw)) => assert_eq!(raw, "25.01.1"),
        other => panic!("unexpected {other:?}"),
    }
}

#[test]
fn old_ndk_is_refused_before_any_path() {
    let v = version(22);
    assert!(!v.is_supported());
    assert!(matches!(v.check_supported(), Err(VersionError::UnsupportedVersion(22))));
    assert!(version(23).check_supported().is_ok());
    let r = build_env(&request("aarch64-linux-android", true, true), &v, &host(&[]));
    assert!(matches!(r, Err(EnvError::UnsupportedVersion(22))));
}

#[test]
fn highest_version_directory() {
    let dirs = names(&["25.1.8937393", "notes", "27.0.12077973", "26.0.10792818"]);
    assert_eq!(highest_version_index(&dirs), Some(2));
    assert_eq!(highest_version_index(&names(&["27.0.1-beta1", "27.0.1"])), Some(1));
    assert_eq!(highest_version_index(&names(&["27.0.1", "27.0.1-beta1"])), Some(0));
    assert_eq!(highest_version_index(&names(&["a", "r25"])), None);
    assert_eq!(highest_version_index(&names(&[])), None);
}

#[test]
fn arm64_end_to_end_environment() {
    let env = build_env(
        &request("aarch64-linux-android", false, false),
        &version(27),
        &host(&[]),
    )
    .unwrap();
    let cc = "/opt/android-ndk/toolchains/llvm/prebuilt/linux-x86_64/bin/aarch64-linux-android21-clang";
    let ar = "/opt/android-ndk/toolchains/llvm/prebuilt/linux-x86_64/bin/llvm-ar";
    assert!(get(&env, "CC_aarch64-linux-android").unwrap().ends_with("/aarch64-linux-android21-clang"));
    assert_eq!(get(&env, "CC_aarch64-linux-android"), Some(cc));
    assert_eq!(
        get(&env, "CXX_aarch64-linux-android"),
        Some("/opt/android-ndk/toolchains/llvm/prebuilt/linux-x86_64/bin/aarch64-linux-android21-clang++")
    );
    assert_eq!(
        get(&env, "CFLAGS_aarch64-linux-android"),
        Some("--target=aarch64-linux-android21")
    );
    assert_eq!(
        get(&env, "CXXFLAGS_aarch64-linux-android"),
        Some("--target=aarch64-linux-android21")
    );
    assert!(get(&env, "AR_aarch64-linux-android").unwrap().ends_with("/llvm-ar"));
    assert_eq!(get(&env, "CARGO_TARGET_AARCH64_LINUX_ANDROID_AR"), Some(ar));
    assert_eq!(
        get(&env, "RANLIB_aarch64-linux-android"),
        Some("/opt/android-ndk/toolchains/llvm/prebuilt/linux-x86_64/bin/llvm-ranlib")
    );
    assert_eq!(get(&env, "CARGO_TARGET_AARCH64_LINUX_ANDROID_LINKER"), Some(cc));
    assert!(env.shim.is_none());
    assert_eq!(env.vars.len(), 8);
    assert!(get(&env, "RUSTFLAGS").is_none());
}

#[test]
fn build_env_is_deterministic() {
    let req = request("armv7-linux-androideabi", true, true);
    let h = host(&[("CFLAGS", "-O2"), ("RUSTFLAGS", "-C foo")]);
    let a = build_env(&req, &version(25), &h).unwrap();
    let b = build_env(&req, &version(25), &h).unwrap();
    assert_eq!(a.vars, b.vars);
    let (sa, sb) = (a.shim.unwrap(), b.shim.unwrap());
    assert_eq!(sa.dir, sb.dir);
    assert_eq!(sa.path, sb.path);
    assert_eq!(sa.contents, sb.contents);
    let keys: std::collections::BTreeSet<&String> = a.vars.iter().map(|(k, _)| k).collect();
    assert_eq!(keys.len(), a.vars.len());
}

#[test]
fn shim_file_plan() {
    let s = ShimFile::for_target_dir("/work/target");
    assert_eq!(s.dir, SHIM_DIR);
    assert_eq!(s.path, "/work/target/cargo-ndk/libgcc-workaround/libgcc.a");
    assert_eq!(s.contents, "INPUT(-lunwind)");
    let env = build_env(&request("x86_64-linux-android", true, false), &version(27), &host(&[]))
        .unwrap();
    assert_eq!(get(&env, "RUSTFLAGS"), Some("-L/work/target/cargo-ndk/libgcc-workaround"));
    assert_eq!(env.shim.unwrap().path, s.path);
}

#[test]
fn shim_flag_joins_plain_rustflags() {
    let env = build_env(
        &request("aarch64-linux-android", true, false),
        &version(27),
        &host(&[("RUSTFLAGS", "-C foo")]),
    )
    .unwrap();
    let flags = get(&env, "RUSTFLAGS").unwrap();
    assert_eq!(flags, format!("-C foo -L{SHIM_DIR}"));
    assert_eq!(flags.matches("-C foo").count(), 1);
    assert_eq!(flags.matches("-L").count(), 1);
    assert!(get(&env, "CARGO_ENCODED_RUSTFLAGS").is_none());
}

#[test]
fn shim_flag_joins_encoded_rustflags() {
    let env = build_env(
        &request("aarch64-linux-android", true, false),
        &version(27),
        &host(&[("CARGO_ENCODED_RUSTFLAGS", "-C\x1ffoo")]),
    )
    .unwrap();
    assert_eq!(
        get(&env, "CARGO_ENCODED_RUSTFLAGS"),
        Some(format!("-C\x1ffoo\x1f-L{SHIM_DIR}").as_str())
    );
    assert!(get(&env, "RUSTFLAGS").is_none());
    let empty = build_env(
        &request("aarch64-linux-android", true, false),
        &version(27),
        &host(&[("CARGO_ENCODED_RUSTFLAGS", "")]),
    )
    .unwrap();
    assert_eq!(
        get(&empty, "CARGO_ENCODED_RUSTFLAGS"),
        Some(format!("-L{SHIM_DIR}").as_str())
    );
}

#[test]
fn conflicting_rustflags() {
    let h = host(&[("CARGO_ENCODED_RUSTFLAGS", "-Cx"), ("RUSTFLAGS", "-Cy")]);
    assert!(matches!(RustFlags::from_env(&h), Err(EnvError::ConflictingRustFlags)));
    let r = build_env(&request("aarch64-linux-android", true, false), &version(27), &h);
    assert!(matches!(r, Err(EnvError::ConflictingRustFlags)));
    let r = build_env(&request("aarch64-linux-android", false, false), &version(27), &h);
    assert!(matches!(r, Err(EnvError::ConflictingRustFlags)));
}

#[test]
fn rustflags_add_flag() {
    let (k, v) = RustFlags::Plain("-Cfoo".to_string()).add_flag("-Lx");
    assert_eq!((k.as_str(), v.as_str()), ("RUSTFLAGS", "-Cfoo -Lx"));
    let (k, v) = RustFlags::Encoded("-Cfoo".to_string()).add_flag("-Lx");
    assert_eq!((k.as_str(), v.as_str()), ("CARGO_ENCODED_RUSTFLAGS", "-Cfoo\x1f-Lx"));
    let (k, v) = RustFlags::Empty.add_flag("-Lx");
    assert_eq!((k.as_str(), v.as_str()), ("RUSTFLAGS", "-Lx"));
    assert!(matches!(RustFlags::from_env(&host(&[])), Ok(RustFlags::Empty)));
}

#[test]
fn inherited_c_flags_follow_the_target_flag() {
    let env = build_env(
        &request("aarch64-linux-android", false, false),
        &version(27),
        &host(&[("CFLAGS", "-O2"), ("CXXFLAGS_aarch64_linux_android", "-g")]),
    )
    .unwrap();
    assert_eq!(get(&env, "CFLAGS"), Some("--target=aarch64-linux-android21 -O2"));
    assert_eq!(
        get(&env, "CXXFLAGS_aarch64_linux_android"),
        Some("--target=aarch64-linux-android21 -g")
    );
    assert!(get(&env, "CFLAGS_aarch64-linux-android").is_none());
}

#[test]
fn cc_env_lookup_order() {
    let t = "aarch64-linux-android";
    assert_eq!(cc_env("CC", t, &host(&[])), ("CC_aarch64-linux-android".to_string(), None));
    let h = host(&[("CC", "a"), ("TARGET_CC", "b"), ("CC_aarch64_linux_android", "c")]);
    assert_eq!(
        cc_env("CC", t, &h),
        ("CC_aarch64_linux_android".to_string(), Some("c".to_string()))
    );
    let h = host(&[("CC", "a"), ("TARGET_CC", "b")]);
    assert_eq!(cc_env("CC", t, &h), ("TARGET_CC".to_string(), Some("b".to_string())));
    let h = host(&[("CC", "a"), ("CC_aarch64-linux-android", "d")]);
    assert_eq!(
        cc_env("CC", t, &h),
        ("CC_aarch64-linux-android".to_string(), Some("d".to_string()))
    );
    assert_eq!(
        cc_env("AR", t, &host(&[("AR", "x")])),
        ("AR".to_string(), Some("x".to_string()))
    );
    assert_eq!(host(&[("A", "1"), ("A", "2")]).get("A"), Some("1".to_string()));
}

#[test]
fn cargo_target_cfg_key() {
    assert_eq!(
        cargo_env_target_cfg("armv7-linux-androideabi", "linker"),
        "CARGO_TARGET_ARMV7_LINUX_ANDROIDEABI_LINKER"
    );
    assert_eq!(
        cargo_env_target_cfg("x86_64-linux-android", "ar"),
        "CARGO_TARGET_X86_64_LINUX_ANDROID_AR"
    );
}

#[test]
fn bindgen_arguments() {
    let env = build_env(
        &request("armv7-linux-androideabi", false, true),
        &version(27),
        &host(&[]),
    )
    .unwrap();
    assert_eq!(
        get(&env, "BINDGEN_EXTRA_CLANG_ARGS_armv7_linux_androideabi"),
        Some("--sysroot=/opt/android-ndk/toolchains/llvm/prebuilt/linux-x86_64/sysroot -I/opt/android-ndk/toolchains/llvm/prebuilt/linux-x86_64/sysroot/usr/include/arm-linux-androideabi")
    );
    let mut req = request("i686-linux-android", false, true);
    req.ndk_home = "/opt/ndk\\r27".to_string();
    let env = build_env(&req, &version(27), &host(&[])).unwrap();
    assert_eq!(
        get(&env, "BINDGEN_EXTRA_CLANG_ARGS_i686_linux_android"),
        Some("--sysroot=/opt/ndk\\r27/toolchains/llvm/prebuilt/linux-x86_64/sysroot -I/opt/ndk\\r27/toolchains/llvm/prebuilt/linux-x86_64/sysroot/usr/include/i686-linux-android")
    );
    req.ndk_home = "C:\\Android\\ndk".to_string();
    req.host_arch = "windows-x86_64".to_string();
    req.triple = "i686-linux-android".to_string();
    let env = build_env(&req, &version(27), &host(&[])).unwrap();
    assert_eq!(
        get(&env, "BINDGEN_EXTRA_CLANG_ARGS_i686_linux_android"),
        Some("--sysroot=C:/Android/ndk/toolchains/llvm/prebuilt/windows-x86_64/sysroot -IC:/Android/ndk/toolchains/llvm/prebuilt/windows-x86_64/sysroot/usr/include/i686-linux-android")
    );
}

#[test]
fn session_variables() {
    let vars = session_env("/ndk", 21, Target::Arm64V8a, Some("/out"));
    let expect: Vec<(String, String)> = [
        ("CARGO_NDK_CMAKE_TOOLCHAIN_PATH", "/ndk/build/cmake/android.toolchain.cmake"),
        ("CARGO_NDK_OUTPUT_PATH", "/out"),
        ("CARGO_NDK_ANDROID_PLATFORM", "21"),
        ("ANDROID_PLATFORM", "21"),
        ("ANDROID_ABI", "arm64-v8a"),
    ]
    .iter()
    .map(|(k, v)| (k.to_string(), v.to_string()))
    .collect();
    assert_eq!(vars, expect);
    assert_eq!(session_env("/ndk", 30, Target::X86, None).len(), 4);
}

#[test]
fn text_helpers() {
    assert_eq!(decimal(0), "0");
    assert_eq!(decimal(8937393), "8937393");
    assert_eq!(decimal(u64::MAX), u64::MAX.to_string());
    assert_eq!(split_char("a\n\nb", '\n'), names(&["a", "", "b"]));
    assert_eq!(split_char("", '\n'), names(&[""]));
    assert_eq!(replace_char("a-b-c", '-', '_'), "a_b_c");
    assert_eq!(to_upper_ascii("x86_64-é"), "X86_64-é");
    assert_eq!(join_path("/a/", "b"), "/a/b");
    assert_eq!(join_path("/a", "b"), "/a/b");
}

#[test]
fn revision_line_lookup() {
    assert_eq!(
        find_revision("a = b\nPkg.Revision = 25.1.8937393\nPkg.Revision = 1.0.0"),
        Some("25.1.8937393".to_string())
    );
    assert_eq!(find_revision("Pkg.Revision=25.1.1\n Pkg.Revision = 2.0.0"), None);
    assert_eq!(find_revision("Pkg.Revision = "), Some(String::new()));
}

#[test]
fn version_from_parsed_parts() {
    let v = version_from_semver(Some((27, 0, 12077973, "rc1".to_string())), "x".to_string())
        .unwrap();
    assert_eq!((v.major, v.minor, v.patch, v.pre.as_str()), (27, 0, 12077973, "rc1"));
    match version_from_semver(None, "r25b".to_string()) {
        Err(VersionError::MalformedVersion(raw)) => assert_eq!(raw, "r25b"),
        other => panic!("unexpected {other:?}"),
    }
}

#[test]
fn version_ranking_follows_semver() {
    assert_eq!(highest_version_index(&names(&["25.0.0-beta2", "25.0.0-beta1"])), Some(0));
    assert_eq!(highest_version_index(&names(&["25.0.0-beta1", "25.0.0-beta2"])), Some(1));
    assert_eq!(highest_version_index(&names(&["1.0.0-beta.11", "1.0.0-beta.2"])), Some(0));
    assert_eq!(highest_version_index(&names(&["1.0.0-alpha.beta", "1.0.0-alpha.1"])), Some(0));
    assert_eq!(highest_version_index(&names(&["9.0.0", "25.1.0"])), Some(1));
    assert_eq!(highest_version_index(&names(&["25.1.0", "25.1.0"])), Some(1));
    assert_eq!(highest_version_index(&names(&["25.1.0", "x", "25.1.0-rc1"])), Some(0));
}

#[test]
fn variable_names_never_repeat() {
    let hosts = [
        host(&[]),
        host(&[("CC", "x"), ("TARGET_CXX", "y"), ("AR", "z"), ("RUSTFLAGS", "-Cfoo")]),
        host(&[("CFLAGS_aarch64-linux-android", "-O1"), ("TARGET_RANLIB", "r")]),
        host(&[("CARGO_ENCODED_RUSTFLAGS", "-Cfoo")]),
    ];
    for t in Target::all() {
        for h in &hosts {
            for (shim, bind) in [(false, false), (true, false), (false, true), (true, true)] {
                let env = build_env(&request(t.triple(), shim, bind), &version(26), h).unwrap();
                let keys: std::collections::BTreeSet<&String> =
                    env.vars.iter().map(|(k, _)| k).collect();
                assert_eq!(keys.len(), env.vars.len());
                assert_eq!(env.vars.len(), 8 + shim as usize + bind as usize);
            }
        }
    }
}
