//! The search for the APK that holds a native library. Android may ship the
//! library in a split APK named after the architecture, or in `base.apk`.
//!
//! The search reads files, which the caller does: `find_and_open_lib` runs
//! the whole search with a reader that the caller passes, and `ApkScan` is
//! the same search one step at a time: it names the file to read next and
//! decides, from what was read, whether the search is over.
use vstd::prelude::*;
use std::io::Cursor;
use zip::result::ZipError;
use zip::ZipArchive;
use crate::archive::{entry_contents, entry_names, file_names, open_archive, read_entry, zip_listing};
use crate::arch::ArchNames;
use crate::paths::{get_relative_lib_path, relative_lib_path};
use crate::text::{contains_text, ends_with_text, has_infix, has_suffix, same_text};

verus! {

/// An entry of the directory that holds the APKs, as the directory listing
/// gave it.
#[derive(Debug)]
pub struct ApkDirEntry {
    /// The entry is a directory.
    pub is_dir: bool,
    /// The entry's file name, or `None` where it is not valid text.
    pub file_name: Option<String>,
}

/// An opened APK together with the path of the library inside it. The path
/// was found among the archive's entries when the location was made.
#[derive(Debug)]
pub struct ZipLocation {
    pub archive: ZipArchive<Cursor<Vec<u8>>>,
    pub internal_path: String,
}

impl ZipLocation {
    /// The archive lists the entry that the location names.
    pub open spec fn wf(&self) -> bool {
        entry_names(self.archive).contains(self.internal_path@)
    }
}

/// Why the library could not be found or read.
#[derive(Debug)]
pub enum LocateError {
    /// The file could not be read.
    Io(std::io::Error),
    /// The file is not a zip archive the reader accepts, or the entry could
    /// not be read from it.
    Archive(ZipError),
    /// The archive has no entry at the library's path.
    NotFound,
}

/// `.apk`
pub open spec fn apk_extension() -> Seq<char> {
    seq!['.', 'a', 'p', 'k']
}

/// `base.apk`, the APK that is tried last.
pub open spec fn base_apk_name() -> Seq<char> {
    seq!['b', 'a', 's', 'e', '.', 'a', 'p', 'k']
}

/// A directory entry that may be a split APK for the architecture whose
/// split name is `split`: a file whose name is text, ends with `.apk` and
/// holds `split`.
pub open spec fn is_candidate(e: ApkDirEntry, split: Seq<char>) -> bool {
    &&& !e.is_dir
    &&& e.file_name matches Some(name)
    &&& has_suffix(name@, apk_extension())
    &&& has_infix(name@, split)
}

/// The names of the candidate split APKs among `entries`, in listing order.
pub open spec fn candidate_names(entries: Seq<ApkDirEntry>, split: Seq<char>) -> Seq<Seq<char>>
    decreases entries.len(),
{
    if entries.len() == 0 {
        seq![]
    } else {
        let rest = candidate_names(entries.drop_last(), split);
        if is_candidate(entries.last(), split) {
            rest.push(entries.last().file_name->Some_0@)
        } else {
            rest
        }
    }
}

/// The file read holds an archive that lists `lib_path`.
pub open spec fn probe_finds(contents: Result<Vec<u8>, std::io::Error>, lib_path: Seq<char>) -> bool {
    contents matches Ok(bytes) && zip_listing(bytes@) matches Some(names) && names.contains(
        lib_path,
    )
}

/// `r` is what looking for `lib_path` in the file read gives: the read's
/// error, the archive reader's error, `NotFound`, or the opened archive.
pub open spec fn probe_outcome(
    contents: Result<Vec<u8>, std::io::Error>,
    lib_path: Seq<char>,
    r: Result<ZipLocation, LocateError>,
) -> bool {
    match contents {
        Err(e) => r == Err::<ZipLocation, LocateError>(LocateError::Io(e)),
        Ok(bytes) => match zip_listing(bytes@) {
            None => r matches Err(LocateError::Archive(_)),
            Some(names) => if names.contains(lib_path) {
                r matches Ok(loc) && loc.internal_path@ == lib_path && entry_names(loc.archive)
                    == names
            } else {
                r matches Err(LocateError::NotFound)
            },
        },
    }
}

/// A name is among the candidates exactly when some entry of the listing is
/// a file whose name is that text, ends with `.apk` and holds the split
/// name: directories and entries whose names are not text are passed over.
pub proof fn lemma_candidate_members(entries: Seq<ApkDirEntry>, split: Seq<char>, name: Seq<char>)
    ensures
        candidate_names(entries, split).contains(name) <==> exists|i: int|
            0 <= i < entries.len() && #[trigger] is_candidate(entries[i], split)
                && entries[i].file_name->Some_0@ == name,
    decreases entries.len(),
{
    if entries.len() > 0 {
        let rest = entries.drop_last();
        lemma_candidate_members(rest, split, name);
        if candidate_names(entries, split).contains(name) {
            if candidate_names(rest, split).contains(name) {
                let i = choose|i: int|
                    0 <= i < rest.len() && #[trigger] is_candidate(rest[i], split)
                        && rest[i].file_name->Some_0@ == name;
                assert(entries[i] == rest[i]);
            } else {
                let all = candidate_names(entries, split);
                let k = all.index_of(name);
                let last = entries.len() - 1;
                assert(is_candidate(entries[last], split));
                assert(all == candidate_names(rest, split).push(entries[last].file_name->Some_0@));
                assert(k == candidate_names(rest, split).len());
                assert(entries[last].file_name->Some_0@ == name);
            }
        }
        if exists|i: int|
            0 <= i < entries.len() && #[trigger] is_candidate(entries[i], split)
                && entries[i].file_name->Some_0@ == name {
            let i = choose|i: int|
                0 <= i < entries.len() && #[trigger] is_candidate(entries[i], split)
                    && entries[i].file_name->Some_0@ == name;
            let all = candidate_names(entries, split);
            if i < entries.len() - 1 {
                assert(rest[i] == entries[i]);
                assert(candidate_names(rest, split).contains(name));
                let k = candidate_names(rest, split).index_of(name);
                assert(all[k] == name);
            } else {
                assert(all[all.len() - 1] == name);
            }
        }
    }
}

/// The order in which the directory lists its entries changes only the order
/// in which candidates are tried: any two listings of the same entries give
/// the same candidates, so one of them is sure to hold the library under
/// one order exactly when it is under any other.
pub proof fn lemma_listing_order_free<F: Fn(String) -> Result<Vec<u8>, std::io::Error>>(
    first: Seq<ApkDirEntry>,
    second: Seq<ApkDirEntry>,
    split: Seq<char>,
    read_file: F,
    lib_path: Seq<char>,
)
    requires
        first.to_multiset() == second.to_multiset(),
    ensures
        candidate_names(first, split).to_set() == candidate_names(second, split).to_set(),
        (exists|i: int|
            0 <= i < candidate_names(first, split).len() && #[trigger] always_finds(
                read_file,
                candidate_names(first, split)[i],
                lib_path,
            )) <==> (exists|i: int|
            0 <= i < candidate_names(second, split).len() && #[trigger] always_finds(
                read_file,
                candidate_names(second, split)[i],
                lib_path,
            )),
{
    let a = candidate_names(first, split);
    let b = candidate_names(second, split);
    assert forall|name: Seq<char>| a.contains(name) implies b.contains(name) by {
        lemma_candidate_members(first, split, name);
        lemma_candidate_members(second, split, name);
        let i = choose|i: int|
            0 <= i < first.len() && #[trigger] is_candidate(first[i], split)
                && first[i].file_name->Some_0@ == name;
        assert(first.contains(first[i]));
        vstd::seq_lib::to_multiset_contains(first, first[i]);
        vstd::seq_lib::to_multiset_contains(second, first[i]);
        assert(second.contains(first[i]));
        let j = second.index_of(first[i]);
        assert(is_candidate(second[j], split));
    }
    assert forall|name: Seq<char>| b.contains(name) implies a.contains(name) by {
        lemma_candidate_members(first, split, name);
        lemma_candidate_members(second, split, name);
        let i = choose|i: int|
            0 <= i < second.len() && #[trigger] is_candidate(second[i], split)
                && second[i].file_name->Some_0@ == name;
        assert(second.contains(second[i]));
        vstd::seq_lib::to_multiset_contains(first, second[i]);
        vstd::seq_lib::to_multiset_contains(second, second[i]);
        assert(first.contains(second[i]));
        let j = first.index_of(second[i]);
        assert(is_candidate(first[j], split));
    }
    assert(a.to_set() =~= b.to_set());
    if exists|i: int| 0 <= i < a.len() && #[trigger] always_finds(read_file, a[i], lib_path) {
        let i = choose|i: int| 0 <= i < a.len() && #[trigger] always_finds(read_file, a[i], lib_path);
        assert(a.contains(a[i]));
        let j = b.index_of(a[i]);
        assert(always_finds(read_file, b[j], lib_path));
    }
    if exists|i: int| 0 <= i < b.len() && #[trigger] always_finds(read_file, b[i], lib_path) {
        let i = choose|i: int| 0 <= i < b.len() && #[trigger] always_finds(read_file, b[i], lib_path);
        assert(b.contains(b[i]));
        let j = a.index_of(b[i]);
        assert(always_finds(read_file, a[j], lib_path));
    }
}

/// Whether one of `names` is `name`.
fn lists_name(names: &Vec<String>, name: &str) -> (r: bool)
    ensures
        r == exists|i: int| 0 <= i < names@.len() && names@[i]@ == name@,
{
    let mut i: usize = 0;
    while i < names.len()
        invariant
            i <= names@.len(),
            forall|k: int| 0 <= k < i ==> names@[k]@ != name@,
        decreases names@.len() - i,
    {
        if same_text(names[i].as_str(), name) {
            return true;
        }
        i = i + 1;
    }
    false
}

/// Looks for `lib_path` in the APK whose contents were read (or failed to
/// be read) into `contents`.
pub fn check_for_lib_path(contents: Result<Vec<u8>, std::io::Error>, lib_path: &str) -> (r: Result<
    ZipLocation,
    LocateError,
>)
    ensures
        probe_outcome(contents, lib_path@, r),
{
    let bytes = match contents {
        Ok(bytes) => bytes,
        Err(e) => {
            return Err(LocateError::Io(e));
        },
    };
    let archive = match open_archive(bytes) {
        Ok(archive) => archive,
        Err(e) => {
            return Err(LocateError::Archive(e));
        },
    };
    let names = file_names(&archive);
    if lists_name(&names, lib_path) {
        Ok(ZipLocation { archive, internal_path: String::from_str(lib_path) })
    } else {
        assert(!entry_names(archive).contains(lib_path@));
        Err(LocateError::NotFound)
    }
}

/// The names of the entries that may be split APKs for the architecture
/// whose split name is `apk_split`, in the order of `entries`.
pub fn apk_candidates(entries: &Vec<ApkDirEntry>, apk_split: &str) -> (r: Vec<String>)
    ensures
        r@.map_values(|s: String| s@) == candidate_names(entries@, apk_split@),
{
    let mut r: Vec<String> = Vec::new();
    let mut i: usize = 0;
    while i < entries.len()
        invariant
            i <= entries@.len(),
            r@.map_values(|s: String| s@) == candidate_names(entries@.take(i as int), apk_split@),
        decreases entries@.len() - i,
    {
        let e = &entries[i];
        assert(entries@.take(i + 1).drop_last() =~= entries@.take(i as int));
        assert(entries@.take(i + 1).last() == entries@[i as int]);
        if !e.is_dir {
            match &e.file_name {
                Some(name) => {
                    proof {
                        reveal_strlit(".apk");
                        assert(".apk"@ =~= apk_extension());
                    }
                    if ends_with_text(name.as_str(), ".apk") && contains_text(name.as_str(), apk_split) {
                        let ghost before = r@;
                        r.push(name.clone());
                        assert(r@.map_values(|s: String| s@) =~= before.map_values(|s: String| s@).push(name@));
                    }
                },
                None => {},
            }
        }
        i = i + 1;
    }
    assert(entries@.take(entries@.len() as int) =~= entries@);
    r
}

/// The state of one search: the candidate split APKs still to try, then
/// `base.apk`.
pub struct ApkScan {
    candidates: Vec<String>,
    next: usize,
    lib_path: String,
    done: bool,
}

impl ApkScan {
    /// The names of the candidate split APKs, in the order they are tried.
    pub closed spec fn candidates(&self) -> Seq<Seq<char>> {
        self.candidates@.map_values(|s: String| s@)
    }

    /// How many candidates have been tried.
    pub closed spec fn tried(&self) -> nat {
        self.next as nat
    }

    /// The path of the library inside an APK.
    pub closed spec fn lib_path(&self) -> Seq<char> {
        self.lib_path@
    }

    /// The search has ended.
    pub closed spec fn is_done(&self) -> bool {
        self.done
    }

    /// No more candidates were tried than there are.
    pub closed spec fn wf(&self) -> bool {
        self.next <= self.candidates@.len()
    }

    /// The file that the search needs next: the next candidate, or
    /// `base.apk` once all candidates were tried.
    pub open spec fn pending_file(&self) -> Seq<char> {
        if self.tried() < self.candidates().len() {
            self.candidates()[self.tried() as int]
        } else {
            base_apk_name()
        }
    }

    /// Starts a search for the library `lib_name` of the architecture `arch`
    /// among the directory entries `entries`.
    pub fn new(entries: &Vec<ApkDirEntry>, arch: &ArchNames, lib_name: &str) -> (r: ApkScan)
        ensures
            r.wf(),
            !r.is_done(),
            r.tried() == 0,
            r.candidates() == candidate_names(entries@, arch.apk_split@),
            r.lib_path() == relative_lib_path(arch.lib_dir@, lib_name@),
    {
        ApkScan {
            candidates: apk_candidates(entries, arch.apk_split),
            next: 0,
            lib_path: get_relative_lib_path(arch, lib_name),
            done: false,
        }
    }

    /// The name of the file, in the APK directory, to read next.
    pub fn next_file(&self) -> (r: String)
        requires
            self.wf(),
            !self.is_done(),
        ensures
            r@ == self.pending_file(),
    {
        if self.next < self.candidates.len() {
            self.candidates[self.next].clone()
        } else {
            proof {
                reveal_strlit("base.apk");
                assert("base.apk"@ =~= base_apk_name());
            }
            String::from_str("base.apk")
        }
    }

    /// Takes the contents of the file that `next_file` named. Returns `None`
    /// where the search goes on with the next file, else its result. A
    /// candidate that fails in any way is passed over; what `base.apk` gives
    /// is the result.
    pub fn on_file(&mut self, contents: Result<Vec<u8>, std::io::Error>) -> (r: Option<
        Result<ZipLocation, LocateError>,
    >)
        requires
            old(self).wf(),
            !old(self).is_done(),
        ensures
            final(self).wf(),
            final(self).candidates() == old(self).candidates(),
            final(self).lib_path() == old(self).lib_path(),
            old(self).tried() < old(self).candidates().len() ==> if probe_finds(
                contents,
                old(self).lib_path(),
            ) {
                &&& final(self).is_done()
                &&& r matches Some(found)
                &&& probe_outcome(contents, old(self).lib_path(), found)
            } else {
                &&& r is None
                &&& !final(self).is_done()
                &&& final(self).tried() == old(self).tried() + 1
            },
            old(self).tried() == old(self).candidates().len() ==> {
                &&& final(self).is_done()
                &&& r matches Some(found)
                &&& probe_outcome(contents, old(self).lib_path(), found)
            },
    {
        let found = check_for_lib_path(contents, self.lib_path.as_str());
        if self.next < self.candidates.len() {
            match found {
                Ok(location) => {
                    self.done = true;
                    Some(Ok(location))
                },
                Err(_) => {
                    self.next = self.next + 1;
                    None
                },
            }
        } else {
            self.done = true;
            Some(found)
        }
    }
}

/// Every file that `read_file` may return for `name` holds the library at
/// `lib_path`.
pub open spec fn always_finds<F: Fn(String) -> Result<Vec<u8>, std::io::Error>>(
    read_file: F,
    name: Seq<char>,
    lib_path: Seq<char>,
) -> bool {
    forall|s: String, c: Result<Vec<u8>, std::io::Error>|
        s@ == name && #[trigger] read_file.ensures((s,), c) ==> probe_finds(c, lib_path)
}

/// `read_file` may return for `name` a file that does not hold the library
/// at `lib_path`.
pub open spec fn may_miss<F: Fn(String) -> Result<Vec<u8>, std::io::Error>>(
    read_file: F,
    name: Seq<char>,
    lib_path: Seq<char>,
) -> bool {
    exists|s: String, c: Result<Vec<u8>, std::io::Error>|
        s@ == name && #[trigger] read_file.ensures((s,), c) && !probe_finds(c, lib_path)
}

/// `r` is what looking for the library at `lib_path` gives in a file that
/// `read_file` may return for `name`.
pub open spec fn read_gives<F: Fn(String) -> Result<Vec<u8>, std::io::Error>>(
    read_file: F,
    name: Seq<char>,
    lib_path: Seq<char>,
    r: Result<ZipLocation, LocateError>,
) -> bool {
    exists|s: String, c: Result<Vec<u8>, std::io::Error>|
        s@ == name && #[trigger] read_file.ensures((s,), c) && probe_outcome(c, lib_path, r)
}

/// A search over `candidates` that ended with `r` after `i` candidates were
/// passed over: each of those may lack the library, and `r` comes from the
/// candidate at `i`, where it holds the library, or from `base.apk` once
/// all candidates were passed over.
pub open spec fn ends_at<F: Fn(String) -> Result<Vec<u8>, std::io::Error>>(
    read_file: F,
    candidates: Seq<Seq<char>>,
    lib_path: Seq<char>,
    r: Result<ZipLocation, LocateError>,
    i: int,
) -> bool {
    &&& 0 <= i <= candidates.len()
    &&& forall|k: int| 0 <= k < i ==> #[trigger] may_miss(read_file, candidates[k], lib_path)
    &&& if i < candidates.len() {
        r is Ok && read_gives(read_file, candidates[i], lib_path, r)
    } else {
        read_gives(read_file, base_apk_name(), lib_path, r)
    }
}

/// Finds the APK that holds the library `lib_name` of the architecture
/// `arch`, among the directory entries `entries`; `read_file` reads a file
/// of that directory by name. The candidate split APKs are tried first, in
/// listing order, and the first that holds the library is the result; where
/// none does, what `base.apk` gives is the result.
pub fn find_and_open_lib<F: Fn(String) -> Result<Vec<u8>, std::io::Error>>(
    entries: &Vec<ApkDirEntry>,
    arch: &ArchNames,
    lib_name: &str,
    read_file: F,
) -> (r: Result<ZipLocation, LocateError>)
    requires
        forall|name: String| read_file.requires((name,)),
    ensures
        ({
            let lib_path = relative_lib_path(arch.lib_dir@, lib_name@);
            let candidates = candidate_names(entries@, arch.apk_split@);
            &&& r matches Ok(loc) ==> loc.internal_path@ == lib_path && loc.wf()
            &&& exists|i: int| #[trigger] ends_at(read_file, candidates, lib_path, r, i)
            &&& (exists|j: int|
                0 <= j < candidates.len() && #[trigger] always_finds(
                    read_file,
                    candidates[j],
                    lib_path,
                )) ==> r is Ok && exists|i: int|
                i < candidates.len() && #[trigger] ends_at(read_file, candidates, lib_path, r, i)
            &&& always_finds(read_file, base_apk_name(), lib_path) ==> r is Ok
        }),
{
    let ghost lib_path = relative_lib_path(arch.lib_dir@, lib_name@);
    let mut scan = ApkScan::new(entries, arch, lib_name);
    loop
        invariant
            scan.wf(),
            !scan.is_done(),
            scan.candidates() == candidate_names(entries@, arch.apk_split@),
            scan.lib_path() == lib_path,
            lib_path == relative_lib_path(arch.lib_dir@, lib_name@),
            forall|name: String| read_file.requires((name,)),
            forall|k: int|
                0 <= k < scan.tried() ==> #[trigger] may_miss(
                    read_file,
                    scan.candidates()[k],
                    lib_path,
                ),
        decreases scan.candidates().len() - scan.tried(),
    {
        let name = scan.next_file();
        let ghost s = name;
        let ghost before = scan;
        let contents = read_file(name);
        let ghost c = contents;
        match scan.on_file(contents) {
            Some(found) => {
                proof {
                    let cands = before.candidates();
                    let i = before.tried() as int;
                    assert(read_file.ensures((s,), c));
                    if i < cands.len() {
                        assert(read_gives(read_file, cands[i], lib_path, found));
                    } else {
                        assert(read_gives(read_file, base_apk_name(), lib_path, found));
                    }
                    assert(ends_at(read_file, cands, lib_path, found, i));
                    if i == cands.len() {
                        assert forall|j: int| 0 <= j < cands.len() implies !always_finds(
                            read_file,
                            cands[j],
                            lib_path,
                        ) by {
                            assert(may_miss(read_file, cands[j], lib_path));
                        }
                        if found is Err {
                            assert(!probe_finds(c, lib_path));
                            assert(!always_finds(read_file, base_apk_name(), lib_path));
                        }
                    }
                }
                return found;
            },
            None => {
                assert(may_miss(read_file, before.candidates()[before.tried() as int], lib_path)) by {
                    assert(read_file.ensures((s,), c));
                }
            },
        }
    }
}

/// Reads the whole library that `location` names out of its archive.
pub fn read_library(location: ZipLocation) -> (r: Result<Vec<u8>, LocateError>)
    ensures
        match r {
            Ok(bytes) => entry_contents(location.archive, location.internal_path@) == Some(bytes@),
            Err(e) => entry_contents(location.archive, location.internal_path@) is None && e is Archive,
        },
        !location.wf() ==> r is Err,
{
    let mut location = location;
    match read_entry(&mut location.archive, location.internal_path.as_str()) {
        Ok(bytes) => Ok(bytes),
        Err(e) => Err(LocateError::Archive(e)),
    }
}

/// Finds the APK that holds the library `lib_name` of the architecture
/// `arch`, as `find_and_open_lib` does, and reads the library out of it
/// whole.
pub fn open_base_lib<F: Fn(String) -> Result<Vec<u8>, std::io::Error>>(
    entries: &Vec<ApkDirEntry>,
    arch: &ArchNames,
    lib_name: &str,
    read_file: F,
) -> (r: Result<Vec<u8>, LocateError>)
    requires
        forall|name: String| read_file.requires((name,)),
    ensures
        ({
            let lib_path = relative_lib_path(arch.lib_dir@, lib_name@);
            let candidates = candidate_names(entries@, arch.apk_split@);
            ||| r matches Err(e) && exists|i: int|
                #[trigger] ends_at(
                    read_file,
                    candidates,
                    lib_path,
                    Err::<ZipLocation, LocateError>(e),
                    i,
                )
            ||| exists|loc: ZipLocation, i: int|
                #[trigger] ends_at(read_file, candidates, lib_path, Ok::<ZipLocation, LocateError>(loc), i)
                    && loc.wf() && loc.internal_path@ == lib_path && match r {
                    Ok(bytes) => entry_contents(loc.archive, lib_path) == Some(bytes@),
                    Err(e) => entry_contents(loc.archive, lib_path) is None && e is Archive,
                }
        }),
{
    match find_and_open_lib(entries, arch, lib_name, read_file) {
        Ok(location) => {
            let ghost loc = location;
            let r = read_library(location);
            r
        },
        Err(e) => Err(e),
    }
}

} // verus!
