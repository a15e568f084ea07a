use vstd::prelude::*;
use crate::arch::ArchNames;
use crate::error::{is_invalid_argument, InitError};

verus! {

/// `lib/<lib_dir>/<lib_name>`: where an APK keeps a native library.
pub open spec fn relative_lib_path(lib_dir: Seq<char>, lib_name: Seq<char>) -> Seq<char> {
    seq!['l', 'i', 'b', '/'] + lib_dir + seq!['/'] + lib_name
}

/// The path inside an APK of the library `lib_name` built for `arch`.
pub fn get_relative_lib_path(arch: &ArchNames, lib_name: &str) -> (r: String)
    ensures
        r@ == relative_lib_path(arch.lib_dir@, lib_name@),
{
    proof {
        reveal_strlit("lib/");
        reveal_strlit("/");
    }
    let mut r = String::from_str("lib/");
    r.append(arch.lib_dir);
    r.append("/");
    r.append(lib_name);
    assert(r@ =~= relative_lib_path(arch.lib_dir@, lib_name@));
    r
}

/// The parent of the path `p` as std's `Path::parent` gives it, as text:
/// `None` where the path ends in its root or is empty.
pub uninterp spec fn path_parent(p: Seq<char>) -> Option<Seq<char>>;

/// Relies on `std::path::Path::parent`: the path without its final
/// component, which depends on the path's text alone. The parent of a path
/// given as text is a prefix of that text, so it is text too.
#[verifier::external_body]
fn parent_of(p: &str) -> (r: Option<String>)
    ensures
        match r {
            Some(q) => path_parent(p@) == Some(q@),
            None => path_parent(p@) is None,
        },
{
    std::path::Path::new(p).parent().and_then(|q| q.to_str()).map(String::from)
}

/// The `n`-th ancestor of `p`: `p` itself for `n == 0`, then its parent, and
/// so on; `None` once the path has run out of components.
pub open spec fn ancestor(p: Seq<char>, n: nat) -> Option<Seq<char>>
    decreases n,
{
    if n == 0 {
        Some(p)
    } else {
        match ancestor(p, (n - 1) as nat) {
            Some(q) => path_parent(q),
            None => None,
        }
    }
}

/// The directory three levels above a full library path
/// `<dir>/lib/<arch>/<library>`.
pub open spec fn app_data_dir(libapp_path: Seq<char>) -> Option<Seq<char>> {
    ancestor(libapp_path, 3)
}

/// The name of the argument that carries the library paths.
pub open spec fn hint_paths_name() -> Seq<char> {
    seq!['h', 'i', 'n', 't', '_', 'p', 'a', 't', 'h', 's']
}

/// The text of the error for a library path that is too short.
pub open spec fn invalid_path_detail(p: Seq<char>) -> Seq<char> {
    seq!['i', 'n', 'v', 'a', 'l', 'i', 'd', ' ', 'p', 'a', 't', 'h', ':', ' '] + p
}

/// The application's data directory, taken from the full path at which
/// Android would extract `libapp.so`: the directory three levels up
/// (`<dir>/lib/<arch>/libapp.so` gives `<dir>`).
pub fn app_data_dir_from_libapp_path(libapp_path: &str) -> (r: Result<String, InitError>)
    ensures
        match r {
            Ok(dir) => app_data_dir(libapp_path@) == Some(dir@),
            Err(e) => app_data_dir(libapp_path@) is None && is_invalid_argument(
                e,
                hint_paths_name(),
                invalid_path_detail(libapp_path@),
            ),
        },
{
    let mut dir = String::from_str(libapp_path);
    let mut level: usize = 0;
    while level < 3
        invariant
            level <= 3,
            ancestor(libapp_path@, level as nat) == Some(dir@),
        decreases 3 - level,
    {
        match parent_of(dir.as_str()) {
            Some(up) => {
                dir = up;
            },
            None => {
                assert(ancestor(libapp_path@, (level + 1) as nat) is None);
                let mut d = String::from_str("invalid path: ");
                d.append(libapp_path);
                proof {
                    reveal_strlit("hint_paths");
                    reveal_strlit("invalid path: ");
                    assert(d@ =~= invalid_path_detail(libapp_path@));
                    assert("hint_paths"@ =~= hint_paths_name());
                    assert(app_data_dir(libapp_path@) is None) by {
                        lemma_ancestor_none(libapp_path@, (level + 1) as nat, 3);
                    }
                }
                return Err(InitError::InvalidArgument(String::from_str("hint_paths"), d));
            },
        }
        level = level + 1;
    }
    Ok(dir)
}

/// A path with no `m`-th ancestor has no later ancestor either.
proof fn lemma_ancestor_none(p: Seq<char>, m: nat, n: nat)
    requires
        m <= n,
        ancestor(p, m) is None,
    ensures
        ancestor(p, n) is None,
    decreases n - m,
{
    if m < n {
        lemma_ancestor_none(p, m, (n - 1) as nat);
    }
}

/// The application's data directory, from the library paths that the
/// engine is started with. The last of them is taken to be the full path at
/// which `libapp.so` would be extracted.
pub fn libapp_path_from_settings(original_libapp_paths: &[String]) -> (r: Result<String, InitError>)
    ensures
        original_libapp_paths@.len() == 0 ==> (r matches Err(e) && is_invalid_argument(
            e,
            hint_paths_name(),
            seq!['e', 'm', 'p', 't', 'y'],
        )),
        original_libapp_paths@.len() > 0 ==> ({
            let last = original_libapp_paths@.last()@;
            match r {
                Ok(dir) => app_data_dir(last) == Some(dir@),
                Err(e) => app_data_dir(last) is None && is_invalid_argument(
                    e,
                    hint_paths_name(),
                    invalid_path_detail(last),
                ),
            }
        }),
{
    let n = original_libapp_paths.len();
    if n == 0 {
        proof {
            reveal_strlit("hint_paths");
            reveal_strlit("empty");
            assert("hint_paths"@ =~= hint_paths_name());
            assert("empty"@ =~= seq!['e', 'm', 'p', 't', 'y']);
        }
        return Err(
            InitError::InvalidArgument(String::from_str("hint_paths"), String::from_str("empty")),
        );
    }
    app_data_dir_from_libapp_path(original_libapp_paths[n - 1].as_str())
}

} // verus!
