//! The Android ABIs that can be built for, with their two spellings.
use vstd::prelude::*;

use crate::text::{owned, str_eq};

verus! {

/// An Android ABI.
#[derive(Debug, Clone, Copy, PartialEq, Eq, Structural)]
pub enum Target {
    ArmeabiV7a,
    Arm64V8a,
    X86,
    X86_64,
}

/// A name that is neither an ABI nor a Rust triple of a supported target.
#[derive(Debug)]
pub enum TargetError {
    UnsupportedTarget(String),
}

/// The platform's ABI directory name.
pub open spec fn abi_name(t: Target) -> Seq<char> {
    match t {
        Target::ArmeabiV7a => "armeabi-v7a"@,
        Target::Arm64V8a => "arm64-v8a"@,
        Target::X86 => "x86"@,
        Target::X86_64 => "x86_64"@,
    }
}

/// The Rust target triple.
pub open spec fn rust_triple(t: Target) -> Seq<char> {
    match t {
        Target::ArmeabiV7a => "armv7-linux-androideabi"@,
        Target::Arm64V8a => "aarch64-linux-android"@,
        Target::X86 => "i686-linux-android"@,
        Target::X86_64 => "x86_64-linux-android"@,
    }
}

/// The target that `s` names, as an ABI name or as a Rust triple.
pub open spec fn target_named(s: Seq<char>) -> Option<Target> {
    if s == "armeabi-v7a"@ || s == "armv7-linux-androideabi"@ {
        Some(Target::ArmeabiV7a)
    } else if s == "arm64-v8a"@ || s == "aarch64-linux-android"@ {
        Some(Target::Arm64V8a)
    } else if s == "x86"@ || s == "i686-linux-android"@ {
        Some(Target::X86)
    } else if s == "x86_64"@ || s == "x86_64-linux-android"@ {
        Some(Target::X86_64)
    } else {
        None
    }
}

/// The targets built when none is asked for.
pub fn default_targets() -> (r: Vec<Target>)
    ensures
        r@ == seq![Target::ArmeabiV7a, Target::Arm64V8a],
{
    let r = vec![Target::ArmeabiV7a, Target::Arm64V8a];
    proof {
        assert(r@ =~= seq![Target::ArmeabiV7a, Target::Arm64V8a]);
    }
    r
}

impl Target {
    /// Every supported target.
    pub fn all() -> (r: Vec<Target>)
        ensures
            r@ == seq![Target::ArmeabiV7a, Target::Arm64V8a, Target::X86, Target::X86_64],
    {
        let r = vec![Target::ArmeabiV7a, Target::Arm64V8a, Target::X86, Target::X86_64];
        proof {
            assert(r@ =~= seq![Target::ArmeabiV7a, Target::Arm64V8a, Target::X86, Target::X86_64]);
        }
        r
    }

    /// The Rust target triple.
    pub fn triple(&self) -> (r: &'static str)
        ensures
            r@ == rust_triple(*self),
    {
        match self {
            Target::ArmeabiV7a => "armv7-linux-androideabi",
            Target::Arm64V8a => "aarch64-linux-android",
            Target::X86 => "i686-linux-android",
            Target::X86_64 => "x86_64-linux-android",
        }
    }

    /// The ABI directory name, used for output directories and messages.
    pub fn name(&self) -> (r: &'static str)
        ensures
            r@ == abi_name(*self),
    {
        match self {
            Target::ArmeabiV7a => "armeabi-v7a",
            Target::Arm64V8a => "arm64-v8a",
            Target::X86 => "x86",
            Target::X86_64 => "x86_64",
        }
    }

    /// The ABI directory name as an owned string.
    pub fn to_string(&self) -> (r: String)
        ensures
            r@ == abi_name(*self),
    {
        owned(self.name())
    }

    /// Reads an ABI name (`arm64-v8a`) or a Rust triple
    /// (`aarch64-linux-android`); the match is exact and case-sensitive.
    pub fn parse(s: &str) -> (r: Result<Target, TargetError>)
        ensures
            match r {
                Ok(t) => target_named(s@) == Some(t),
                Err(TargetError::UnsupportedTarget(n)) => target_named(s@) is None && n@ == s@,
            },
    {
        if str_eq(s, "armeabi-v7a") || str_eq(s, "armv7-linux-androideabi") {
            Ok(Target::ArmeabiV7a)
        } else if str_eq(s, "arm64-v8a") || str_eq(s, "aarch64-linux-android") {
            Ok(Target::Arm64V8a)
        } else if str_eq(s, "x86") || str_eq(s, "i686-linux-android") {
            Ok(Target::X86)
        } else if str_eq(s, "x86_64") || str_eq(s, "x86_64-linux-android") {
            Ok(Target::X86_64)
        } else {
            Err(TargetError::UnsupportedTarget(owned(s)))
        }
    }
}

impl TargetError {
    /// A message for the user.
    pub fn message(&self) -> (r: String)
        ensures
            match self {
                TargetError::UnsupportedTarget(n) => r@ == "Unsupported target: '"@ + n@ + "'"@,
            },
    {
        match self {
            TargetError::UnsupportedTarget(n) => crate::text::concat3(
                "Unsupported target: '",
                n.as_str(),
                "'",
            ),
        }
    }
}

/// Both spellings of every target read back as that target.
pub proof fn lemma_parse_round_trip(t: Target)
    ensures
        target_named(abi_name(t)) == Some(t),
        target_named(rust_triple(t)) == Some(t),
{
    reveal_strlit("armeabi-v7a");
    reveal_strlit("armv7-linux-androideabi");
    reveal_strlit("arm64-v8a");
    reveal_strlit("aarch64-linux-android");
    reveal_strlit("x86");
    reveal_strlit("i686-linux-android");
    reveal_strlit("x86_64");
    reveal_strlit("x86_64-linux-android");
    match t {
        Target::ArmeabiV7a => {},
        Target::Arm64V8a => {
            assert("arm64-v8a"@[3] != "armeabi-v7a"@[3]);
            assert("arm64-v8a"@.len() != "armv7-linux-androideabi"@.len());
        },
        Target::X86 => {
            assert("x86"@.len() != "armeabi-v7a"@.len());
            assert("x86"@.len() != "armv7-linux-androideabi"@.len());
            assert("x86"@.len() != "arm64-v8a"@.len());
            assert("x86"@.len() != "aarch64-linux-android"@.len());
            assert("i686-linux-android"@[0] != "armeabi-v7a"@[0]);
            assert("i686-linux-android"@[0] != "armv7-linux-androideabi"@[0]);
            assert("i686-linux-android"@[0] != "arm64-v8a"@[0]);
            assert("i686-linux-android"@[0] != "aarch64-linux-android"@[0]);
        },
        Target::X86_64 => {
            assert("x86_64"@[0] != "armeabi-v7a"@[0]);
            assert("x86_64"@[0] != "armv7-linux-androideabi"@[0]);
            assert("x86_64"@[0] != "arm64-v8a"@[0]);
            assert("x86_64"@[0] != "aarch64-linux-android"@[0]);
            assert("x86_64"@.len() != "x86"@.len());
            assert("x86_64"@[0] != "i686-linux-android"@[0]);
            assert("x86_64-linux-android"@[0] != "armeabi-v7a"@[0]);
            assert("x86_64-linux-android"@[0] != "armv7-linux-androideabi"@[0]);
            assert("x86_64-linux-android"@[0] != "arm64-v8a"@[0]);
            assert("x86_64-linux-android"@[0] != "aarch64-linux-android"@[0]);
            assert("x86_64-linux-android"@.len() != "x86"@.len());
            assert("x86_64-linux-android"@[0] != "i686-linux-android"@[0]);
        },
    }
}

} // verus!
