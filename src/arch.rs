use vstd::prelude::*;
use crate::text::same_text;

verus! {

/// The CPU families that Android ships native libraries for.
#[derive(Clone, Copy, Debug, PartialEq, Eq, Structural)]
pub enum Arch {
    X86,
    X86_64,
    Arm64,
    Arm,
}

/// The two names of one architecture. The name used in APK split file names
/// (`base-armeabi_v7a.apk`) and the directory used for libraries inside an
/// APK (`lib/armeabi-v7a/libapp.so`) follow different conventions, so both
/// are kept.
#[derive(Clone, Copy, Debug)]
pub struct ArchNames {
    /// Name used in the APK split's file name, e.g. `armeabi_v7a`.
    pub apk_split: &'static str,
    /// Name of the library directory inside an APK, e.g. `armeabi-v7a`.
    pub lib_dir: &'static str,
}

/// The split-name token of an architecture.
pub open spec fn split_name(a: Arch) -> Seq<char> {
    match a {
        Arch::X86 => seq!['x', '8', '6'],
        Arch::X86_64 => seq!['x', '8', '6', '_', '6', '4'],
        Arch::Arm64 => seq!['a', 'r', 'm', '6', '4', '_', 'v', '8', 'a'],
        Arch::Arm => seq!['a', 'r', 'm', 'e', 'a', 'b', 'i', '_', 'v', '7', 'a'],
    }
}

/// The library directory name of an architecture.
pub open spec fn lib_dir_name(a: Arch) -> Seq<char> {
    match a {
        Arch::X86 => seq!['x', '8', '6'],
        Arch::X86_64 => seq!['x', '8', '6', '_', '6', '4'],
        Arch::Arm64 => seq!['a', 'r', 'm', '6', '4', '-', 'v', '8', 'a'],
        Arch::Arm => seq!['a', 'r', 'm', 'e', 'a', 'b', 'i', '-', 'v', '7', 'a'],
    }
}

/// The Rust target architecture name (as in `target_arch`) of each family.
pub open spec fn target_arch_name(a: Arch) -> Seq<char> {
    match a {
        Arch::X86 => seq!['x', '8', '6'],
        Arch::X86_64 => seq!['x', '8', '6', '_', '6', '4'],
        Arch::Arm64 => seq!['a', 'a', 'r', 'c', 'h', '6', '4'],
        Arch::Arm => seq!['a', 'r', 'm'],
    }
}

impl Arch {
    /// The architecture whose Rust target name is `name`, if it is one of the
    /// supported families.
    pub fn from_target_arch(name: &str) -> (r: Option<Arch>)
        ensures
            match r {
                Some(a) => target_arch_name(a) == name@,
                None => forall|a: Arch| target_arch_name(a) != name@,
            },
    {
        proof {
            reveal_strlit("x86");
            reveal_strlit("x86_64");
            reveal_strlit("aarch64");
            reveal_strlit("arm");
        }
        if same_text(name, "x86") {
            assert("x86"@ =~= target_arch_name(Arch::X86));
            Some(Arch::X86)
        } else if same_text(name, "x86_64") {
            assert("x86_64"@ =~= target_arch_name(Arch::X86_64));
            Some(Arch::X86_64)
        } else if same_text(name, "aarch64") {
            assert("aarch64"@ =~= target_arch_name(Arch::Arm64));
            Some(Arch::Arm64)
        } else if same_text(name, "arm") {
            assert("arm"@ =~= target_arch_name(Arch::Arm));
            Some(Arch::Arm)
        } else {
            assert forall|a: Arch| target_arch_name(a) != name@ by {
                assert("x86"@ =~= target_arch_name(Arch::X86));
                assert("x86_64"@ =~= target_arch_name(Arch::X86_64));
                assert("aarch64"@ =~= target_arch_name(Arch::Arm64));
                assert("arm"@ =~= target_arch_name(Arch::Arm));
            }
            None
        }
    }
}

/// The APK split name and library directory name of `arch`.
pub fn android_arch_names(arch: Arch) -> (r: ArchNames)
    ensures
        r.apk_split@ == split_name(arch),
        r.lib_dir@ == lib_dir_name(arch),
{
    // x86 and x86_64 use the same spelling in both places; the ARM families
    // use `_` in split names and `-` in library directories.
    match arch {
        Arch::X86 => {
            proof { reveal_strlit("x86"); }
            let r = ArchNames { apk_split: "x86", lib_dir: "x86" };
            assert(r.apk_split@ =~= split_name(arch));
            assert(r.lib_dir@ =~= lib_dir_name(arch));
            r
        },
        Arch::X86_64 => {
            proof { reveal_strlit("x86_64"); }
            let r = ArchNames { apk_split: "x86_64", lib_dir: "x86_64" };
            assert(r.apk_split@ =~= split_name(arch));
            assert(r.lib_dir@ =~= lib_dir_name(arch));
            r
        },
        Arch::Arm64 => {
            proof {
                reveal_strlit("arm64_v8a");
                reveal_strlit("arm64-v8a");
            }
            let r = ArchNames { apk_split: "arm64_v8a", lib_dir: "arm64-v8a" };
            assert(r.apk_split@ =~= split_name(arch));
            assert(r.lib_dir@ =~= lib_dir_name(arch));
            r
        },
        Arch::Arm => {
            proof {
                reveal_strlit("armeabi_v7a");
                reveal_strlit("armeabi-v7a");
            }
            let r = ArchNames { apk_split: "armeabi_v7a", lib_dir: "armeabi-v7a" };
            assert(r.apk_split@ =~= split_name(arch));
            assert(r.lib_dir@ =~= lib_dir_name(arch));
            r
        },
    }
}

} // verus!
