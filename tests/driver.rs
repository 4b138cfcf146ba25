use cargo_ndk::artifacts::{
    adb_args, any_cdylib, arch_output_dir, artifact_is_cdylib, destination,
    device_run_exit_code, file_name, is_fresh, parent, relative_to, shared_library_file,
    Artifact, TestUnit,
};
use cargo_ndk::discovery::{find_first_consistent_var_set, locate_ndk, ndk_vars, sdk_ndk_dir, sdk_vars, NdkSearch};
use cargo_ndk::invocation::{
    cargo_invocation_args, find_separator, needs_manifest_path, select_manifest,
    split_mixed_args, split_test_args, ManifestError,
};
use cargo_ndk::target::Target;

fn names(v: &[&str]) -> Vec<String> {
    v.iter().map(|s| s.to_string()).collect()
}

#[test]
fn target_pair_goes_before_first_separator() {
    let args = names(&["build", "--release", "--", "--", "extra"]);
    let out = cargo_invocation_args(&args, Target::Arm64V8a, None);
    assert_eq!(
        out,
        names(&[
            "build",
            "--release",
            "--message-format",
            "json-render-diagnostics",
            "--target",
            "aarch64-linux-android",
            "--",
            "--",
            "extra",
        ])
    );
    let sep = out.iter().position(|a| a == "--").unwrap();
    let t = out.iter().position(|a| a == "--target").unwrap();
    assert!(t + 1 < sep);
    assert_eq!(&out[sep..], &args[2..]);
}

#[test]
fn manifest_path_is_inserted_too() {
    let args = names(&["build"]);
    let out = cargo_invocation_args(&args, Target::X86, Some("/w/app/Cargo.toml"));
    assert_eq!(
        out,
        names(&[
            "build",
            "--message-format",
            "json-render-diagnostics",
            "--target",
            "i686-linux-android",
            "--manifest-path",
            "/w/app/Cargo.toml",
        ])
    );
    assert_eq!(find_separator(&names(&["a", "b"])), 2);
    assert_eq!(find_separator(&names(&["--", "b"])), 0);
    assert!(needs_manifest_path("/w", "/w/app"));
    assert!(!needs_manifest_path("/w/app", "/w/app"));
}

#[test]
fn mixed_arguments_are_divided() {
    let global = names(&[
        "--target",
        "-t",
        "--platform",
        "--link-builtins",
        "--output-dir",
        "-o",
        "--manifest-path",
    ]);
    let valued = names(&["--target", "-t", "--platform", "--output-dir", "-o", "--manifest-path"]);
    let args = names(&[
        "ndk",
        "-t",
        "arm64-v8a",
        "build",
        "--release",
        "--platform=24",
        "--color=always",
        "--link-builtins",
        "-o",
    ]);
    let (own, cargo) = split_mixed_args(&args, "cargo-ndk", &global, &valued);
    assert_eq!(
        own,
        names(&["cargo-ndk", "-t", "arm64-v8a", "--platform=24", "--link-builtins", "-o"])
    );
    assert_eq!(cargo, names(&["build", "--release", "--color=always"]));
    let (own, cargo) = split_mixed_args(&names(&[]), "cargo-ndk", &global, &valued);
    assert_eq!(own, names(&["cargo-ndk"]));
    assert!(cargo.is_empty());
}

#[test]
fn test_arguments_after_last_separator() {
    let (c, t) = split_test_args(&names(&["--release", "--", "--nocapture"]), &names(&["x"]));
    assert_eq!(c, names(&["--release"]));
    assert_eq!(t, names(&["x", "--nocapture"]));
    let (c, t) = split_test_args(&names(&["a", "--", "b", "--", "c"]), &names(&[]));
    assert_eq!(c, names(&["a", "--", "b"]));
    assert_eq!(t, names(&["c"]));
    let (c, t) = split_test_args(&names(&["a"]), &names(&["y"]));
    assert_eq!(c, names(&["a"]));
    assert_eq!(t, names(&["y"]));
}

#[test]
fn manifest_selection() {
    let packages = vec![
        ("foo".to_string(), "/w/foo/Cargo.toml".to_string()),
        ("bar".to_string(), "/w/bar/Cargo.toml".to_string()),
    ];
    let args = names(&["build", "-p", "bar"]);
    assert_eq!(select_manifest(None, &args, &packages, "/w").unwrap(), "/w/bar/Cargo.toml");
    assert_eq!(
        select_manifest(Some("/x/Cargo.toml"), &args, &packages, "/w").unwrap(),
        "/x/Cargo.toml"
    );
    let args = names(&["build", "--package", "baz"]);
    match select_manifest(None, &args, &packages, "/w") {
        Err(ManifestError::UnknownPackage(p)) => assert_eq!(p, "baz"),
        other => panic!("unexpected {other:?}"),
    }
    assert_eq!(
        select_manifest(None, &names(&["build", "-p"]), &packages, "/w").unwrap(),
        "/w/Cargo.toml"
    );
    assert_eq!(
        select_manifest(None, &names(&["build"]), &packages, "/w/").unwrap(),
        "/w/Cargo.toml"
    );
}

#[test]
fn first_consistent_variable() {
    let vals = vec![
        None,
        Some("/a".to_string()),
        Some("/b".to_string()),
        Some("/a".to_string()),
        Some("/c".to_string()),
    ];
    assert_eq!(find_first_consistent_var_set(&vals), (Some(1), vec![2, 4]));
    assert_eq!(find_first_consistent_var_set(&vec![None, None]), (None, vec![]));
    assert_eq!(ndk_vars(), vec!["ANDROID_NDK_HOME", "ANDROID_NDK_ROOT", "ANDROID_NDK_PATH", "NDK_HOME"]);
    assert_eq!(sdk_vars(), vec!["ANDROID_HOME", "ANDROID_SDK_ROOT", "ANDROID_SDK_HOME"]);
}

fn search() -> NdkSearch {
    NdkSearch {
        ndk_var: None,
        ndk_entries: vec![],
        sdk_var: None,
        sdk_ndk_entries: vec![],
        default_dir: "/home/u/Android/Sdk/ndk".to_string(),
        default_entries: vec![],
    }
}

#[test]
fn ndk_location_order() {
    assert_eq!(locate_ndk(&search()), None);

    let mut s = search();
    s.default_entries = names(&["25.1.8937393", "27.0.12077973"]);
    assert_eq!(
        locate_ndk(&s),
        Some((
            "/home/u/Android/Sdk/ndk/27.0.12077973".to_string(),
            "standard location".to_string()
        ))
    );

    s.sdk_var = Some(("ANDROID_HOME".to_string(), "/sdk".to_string()));
    s.sdk_ndk_entries = names(&["26.1.10909125", "x"]);
    assert_eq!(sdk_ndk_dir("/sdk"), "/sdk/ndk");
    assert_eq!(
        locate_ndk(&s),
        Some(("/sdk/ndk/26.1.10909125".to_string(), "ANDROID_HOME".to_string()))
    );

    s.sdk_ndk_entries = names(&["x"]);
    assert_eq!(
        locate_ndk(&s).unwrap().1,
        "standard location".to_string()
    );

    s.ndk_var = Some(("ANDROID_NDK_HOME".to_string(), "/ndk".to_string()));
    assert_eq!(
        locate_ndk(&s),
        Some(("/ndk".to_string(), "ANDROID_NDK_HOME".to_string()))
    );
    s.ndk_entries = names(&["25.2.9519653", "23.1.7779620"]);
    assert_eq!(
        locate_ndk(&s),
        Some(("/ndk/25.2.9519653".to_string(), "ANDROID_NDK_HOME".to_string()))
    );
}

#[test]
fn cdylib_artifacts() {
    let lib = Artifact {
        crate_types: names(&["lib", "cdylib"]),
        filenames: names(&["/t/libfoo.rlib", "/t/libfoo.so", "/t/libbar.so"]),
    };
    let rlib = Artifact {
        crate_types: names(&["lib"]),
        filenames: names(&["/t/libfoo.rlib"]),
    };
    assert!(artifact_is_cdylib(&lib));
    assert!(!artifact_is_cdylib(&rlib));
    assert_eq!(shared_library_file(&lib), Some(1));
    assert_eq!(shared_library_file(&rlib), None);
    let odd = Artifact {
        crate_types: names(&["cdylib"]),
        filenames: names(&["/t/.so", "/t.so/lib", "/t/lib.so.1", "C:\\t\\foo.so"]),
    };
    assert_eq!(shared_library_file(&odd), Some(3));
    assert!(any_cdylib(&vec![rlib, lib]));
    assert!(!any_cdylib(&vec![]));
}

#[test]
fn output_locations() {
    let dir = arch_output_dir("/out/jniLibs", Target::ArmeabiV7a);
    assert_eq!(dir, "/out/jniLibs/armeabi-v7a");
    assert_eq!(
        destination(&dir, "/t/release/libfoo.so"),
        "/out/jniLibs/armeabi-v7a/libfoo.so"
    );
    assert_eq!(file_name("libfoo.so"), "libfoo.so");
    assert_eq!(file_name("C:\\t\\x.so"), "x.so");
    assert_eq!(parent("/w/foo/Cargo.toml"), "/w/foo");
    assert_eq!(parent("/Cargo.toml"), "/");
    assert_eq!(parent("Cargo.toml"), "");
}

#[test]
fn freshness() {
    assert!(!is_fresh(false, Some(1), Some(2)));
    assert!(is_fresh(true, Some(5), Some(7)));
    assert!(is_fresh(true, Some(7), Some(7)));
    assert!(!is_fresh(true, Some(8), Some(7)));
    assert!(!is_fresh(true, None, Some(7)));
    assert!(!is_fresh(true, Some(1), None));
}

#[test]
fn test_units_and_device_paths() {
    let u = TestUnit::new(
        "/w/foo/target/aarch64-linux-android/debug/deps/foo-123",
        "/w/foo/Cargo.toml",
        "/w/foo/src/lib.rs",
    );
    assert_eq!(u.executable, "/w/foo/target/aarch64-linux-android/debug/deps/foo-123");
    assert_eq!(u.rel_path, "target/aarch64-linux-android/debug/deps/foo-123");
    assert_eq!(u.name, "src/lib.rs");
    assert_eq!(u.device_path(), "/data/local/tmp/foo-123");
    let other = TestUnit::new("/elsewhere/t", "/w/foo/Cargo.toml", "/w/foobar/src/lib.rs");
    assert_eq!(other.rel_path, "/elsewhere/t");
    assert_eq!(other.name, "/w/foobar/src/lib.rs");
    assert_eq!(relative_to("/w/foo", "/w/foo"), "");
    assert_eq!(relative_to("/w/foo/x", "/w/foo/"), "x");
}

#[test]
fn adb_arguments() {
    assert_eq!(
        adb_args(Some("emulator-5554"), &names(&["push", "a", "b"])),
        names(&["-s", "emulator-5554", "push", "a", "b"])
    );
    assert_eq!(adb_args(None, &names(&["shell", "rm", "x"])), names(&["shell", "rm", "x"]));
}

#[test]
fn device_run_exit_codes() {
    assert_eq!(device_run_exit_code(&vec![true, true]), 0);
    assert_eq!(device_run_exit_code(&vec![]), 0);
    assert_eq!(device_run_exit_code(&vec![true, false, true]), 1);
}

#[test]
fn failing_test() {
    // The example crate's test that asserts with "This test is supposed to
    // fail" makes its binary fail on the device; the run must then exit 1.
    let expected_failure = "This test is supposed to fail";
    let one_binary_failed = vec![true, false];
    assert_eq!(
        device_run_exit_code(&one_binary_failed),
        1,
        "a binary failing with {expected_failure:?} must fail the run"
    );
}
