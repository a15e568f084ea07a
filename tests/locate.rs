use std::io::{Cursor, Write};

use apk_locate::arch::{android_arch_names, Arch, ArchNames};
use apk_locate::locate::{
    apk_candidates, check_for_lib_path, find_and_open_lib, open_base_lib, read_library, ApkDirEntry, ApkScan,
    LocateError, ZipLocation,
};
use zip::write::FileOptions;
use zip::ZipWriter;

const ARCH: Arch = Arch::X86_64;

// A zip archive whose entries hold the given bytes.
fn zip_with_files(files: Vec<(&str, &[u8])>) -> Vec<u8> {
    let mut zip = ZipWriter::new(Cursor::new(Vec::new()));
    for (name, bytes) in files {
        zip.start_file(name, FileOptions::default()).unwrap();
        zip.write_all(bytes).unwrap();
    }
    zip.finish().unwrap().into_inner()
}

// A zip archive with the given names as empty entries.
fn zip_with_empty_files(names: Vec<&str>) -> Vec<u8> {
    zip_with_files(names.into_iter().map(|n| (n, &[][..])).collect())
}

// A directory held in memory: its entries as a listing gives them, and the
// bytes of its files.
struct Dir {
    entries: Vec<(Option<String>, bool)>,
    files: Vec<(String, Vec<u8>)>,
}

impl Dir {
    fn new() -> Dir {
        Dir { entries: Vec::new(), files: Vec::new() }
    }

    fn add_file(&mut self, name: &str, bytes: Vec<u8>) {
        self.entries.push((Some(name.to_string()), false));
        self.files.retain(|(n, _)| n != name);
        self.files.push((name.to_string(), bytes));
    }

    fn listing(&self) -> Vec<ApkDirEntry> {
        self.entries
            .iter()
            .map(|(name, is_dir)| ApkDirEntry { is_dir: *is_dir, file_name: name.clone() })
            .collect()
    }

    fn read(&self, name: String) -> std::io::Result<Vec<u8>> {
        self.files
            .iter()
            .find(|(n, _)| *n == name)
            .map(|(_, b)| b.clone())
            .ok_or_else(|| std::io::Error::from_raw_os_error(2))
    }

    fn find(&self, arch: &ArchNames, lib_name: &str) -> Result<ZipLocation, LocateError> {
        find_and_open_lib(&self.listing(), arch, lib_name, |name: String| self.read(name))
    }

    fn open(&self, arch: &ArchNames, lib_name: &str) -> Result<Vec<u8>, LocateError> {
        open_base_lib(&self.listing(), arch, lib_name, |name: String| self.read(name))
    }
}

fn error_text(e: &LocateError) -> String {
    match e {
        LocateError::Io(e) => e.to_string(),
        LocateError::Archive(e) => e.to_string(),
        LocateError::NotFound => "Library not found in APK".to_string(),
    }
}

#[test]
fn find_and_open_lib_test() {
    let arch = android_arch_names(ARCH);
    let mut dir = Dir::new();
    let error = dir.find(&arch, "libapp.so").unwrap_err();
    assert!(error_text(&error).contains("No such file or directory"));

    // An empty file (invalid apk) as the base apk.
    dir.add_file("base.apk", Vec::new());
    let error = dir.find(&arch, "libapp.so").unwrap_err();
    assert_eq!(error_text(&error), "invalid Zip archive: Invalid zip header");

    // An empty zip as the base.apk.
    dir.add_file("base.apk", zip_with_empty_files(vec![]));
    let error = dir.find(&arch, "libapp.so").unwrap_err();
    assert_eq!(error_text(&error), "Library not found in APK");
    assert!(matches!(error, LocateError::NotFound));
}

#[test]
fn find_and_open_lib_base_apk() {
    let arch = android_arch_names(ARCH);
    let lib_path = format!("lib/{}/libapp.so", arch.lib_dir);
    let mut dir = Dir::new();
    dir.add_file("base.apk", zip_with_empty_files(vec![&lib_path]));

    let zip_location = dir.find(&arch, "libapp.so").unwrap();
    assert_eq!(zip_location.internal_path, lib_path);
    let debug_str = format!("{:?}", zip_location);
    assert!(debug_str.contains("ZipLocation"));
}

#[test]
fn find_and_open_lib_split_apk() {
    let arch = android_arch_names(ARCH);
    let mut dir = Dir::new();

    // A base.apk with the wrong arch.
    dir.add_file("base.apk", zip_with_empty_files(vec!["lib/wrong/libapp.so"]));

    // A split apk with the right arch.
    let split_apk_name = format!("app-hdpi{}-release.apk", arch.apk_split);
    let lib_path = format!("lib/{}/libapp.so", arch.lib_dir);
    dir.add_file(&split_apk_name, zip_with_empty_files(vec![&lib_path]));

    // An apk early in the alphabet that is passed over as it is no split apk.
    dir.add_file("aaa.apk", zip_with_empty_files(vec![&lib_path]));

    // An apk with our arch name but not our library.
    let split_apk_name = format!("aaa{}.apk", arch.apk_split);
    dir.add_file(&split_apk_name, zip_with_empty_files(vec![]));

    let zip_location = dir.find(&arch, "libapp.so").unwrap();
    assert_eq!(zip_location.internal_path, lib_path);
}

#[test]
fn split_apk_found_in_every_listing_order() {
    let arch = android_arch_names(Arch::Arm64);
    let lib_path = "lib/arm64-v8a/libapp.so";
    let mut dir = Dir::new();
    dir.add_file("base.apk", zip_with_empty_files(vec!["lib/wrong/libapp.so"]));
    dir.add_file("split_config.arm64_v8a.apk", zip_with_files(vec![(lib_path, b"right")]));
    dir.add_file("aaa.apk", zip_with_empty_files(vec![lib_path]));
    dir.add_file("aaaarm64_v8a.apk", zip_with_empty_files(vec![]));
    for _ in 0..dir.entries.len() {
        let location = dir.find(&arch, "libapp.so").unwrap();
        assert_eq!(location.internal_path, lib_path);
        assert_eq!(read_library(location).unwrap(), b"right".to_vec());
        let first = dir.entries.remove(0);
        dir.entries.push(first);
    }
}

#[test]
fn odd_directory_entries_are_passed_over() {
    let arch = android_arch_names(ARCH);
    let lib_path = "lib/x86_64/libapp.so";
    let mut dir = Dir::new();
    dir.entries.push((Some("subdir_x86_64.apk".to_string()), true));
    dir.entries.push((None, false));
    dir.add_file("junk_x86_64.apk", b"not a zip".to_vec());
    dir.add_file("empty_x86_64.apk", Vec::new());
    dir.add_file("base.apk", zip_with_files(vec![(lib_path, b"base")]));
    let location = dir.find(&arch, "libapp.so").unwrap();
    assert_eq!(location.internal_path, lib_path);
    assert_eq!(read_library(location).unwrap(), b"base".to_vec());
}

#[test]
fn missing_base_apk_is_an_io_error() {
    let arch = android_arch_names(ARCH);
    let mut dir = Dir::new();
    dir.add_file("other_x86_64.apk", zip_with_empty_files(vec![]));
    match dir.open(&arch, "libapp.so") {
        Err(LocateError::Io(e)) => assert_eq!(e.kind(), std::io::ErrorKind::NotFound),
        other => panic!("unexpected result: {:?}", other),
    }
}

#[test]
fn open_base_lib_test() {
    let arch = android_arch_names(ARCH);
    let dir = Dir::new();
    let error = dir.open(&arch, "libapp.so").unwrap_err();
    assert!(error_text(&error).contains("No such file or directory"));
}

#[test]
fn open_base_lib_reads_split_library() {
    let arch = android_arch_names(Arch::Arm);
    let mut dir = Dir::new();
    dir.add_file("base.apk", zip_with_files(vec![("lib/armeabi-v7a/libapp.so", b"base")]));
    dir.add_file("split_config.armeabi_v7a.apk", zip_with_files(vec![("lib/armeabi-v7a/libapp.so", b"split")]));
    assert_eq!(dir.open(&arch, "libapp.so").unwrap(), b"split".to_vec());
    let error = dir.open(&arch, "other.so").unwrap_err();
    assert!(matches!(error, LocateError::NotFound));
}

#[test]
fn candidates_keep_listing_order() {
    let entries = vec![
        ApkDirEntry { is_dir: false, file_name: Some("b-x86.apk".to_string()) },
        ApkDirEntry { is_dir: true, file_name: Some("dir-x86.apk".to_string()) },
        ApkDirEntry { is_dir: false, file_name: None },
        ApkDirEntry { is_dir: false, file_name: Some("a-x86.apk".to_string()) },
        ApkDirEntry { is_dir: false, file_name: Some("base.apk".to_string()) },
        ApkDirEntry { is_dir: false, file_name: Some("c-x86.zip".to_string()) },
        ApkDirEntry { is_dir: false, file_name: Some("c-x86_64.apk".to_string()) },
    ];
    assert_eq!(apk_candidates(&entries, "x86"), vec!["b-x86.apk", "a-x86.apk", "c-x86_64.apk"]);
    assert_eq!(apk_candidates(&entries, "x86_64"), vec!["c-x86_64.apk"]);
    assert!(apk_candidates(&Vec::new(), "x86").is_empty());
}

#[test]
fn check_for_lib_path_outcomes() {
    let lib = "lib/x86/libapp.so";
    let found = check_for_lib_path(Ok(zip_with_empty_files(vec!["a", lib])), lib).unwrap();
    assert_eq!(found.internal_path, lib);
    let missing = check_for_lib_path(Ok(zip_with_empty_files(vec!["lib/x86/other.so"])), lib);
    assert!(matches!(missing, Err(LocateError::NotFound)));
    let invalid = check_for_lib_path(Ok(b"PK nonsense".to_vec()), lib);
    assert!(matches!(invalid, Err(LocateError::Archive(_))));
    let unread = check_for_lib_path(Err(std::io::Error::from_raw_os_error(2)), lib);
    assert!(matches!(unread, Err(LocateError::Io(_))));
}

#[test]
fn scan_steps_through_candidates_then_base() {
    let arch = android_arch_names(ARCH);
    let entries = vec![
        ApkDirEntry { is_dir: false, file_name: Some("one_x86_64.apk".to_string()) },
        ApkDirEntry { is_dir: false, file_name: Some("two_x86_64.apk".to_string()) },
    ];
    let mut scan = ApkScan::new(&entries, &arch, "libapp.so");
    assert_eq!(scan.next_file(), "one_x86_64.apk");
    assert!(scan.on_file(Ok(Vec::new())).is_none());
    assert_eq!(scan.next_file(), "two_x86_64.apk");
    assert!(scan.on_file(Err(std::io::Error::from_raw_os_error(2))).is_none());
    assert_eq!(scan.next_file(), "base.apk");
    match scan.on_file(Ok(zip_with_empty_files(vec![]))) {
        Some(Err(LocateError::NotFound)) => {}
        other => panic!("unexpected result: {:?}", other),
    }
}

#[test]
fn scan_stops_at_first_matching_candidate() {
    let arch = android_arch_names(ARCH);
    let entries = vec![
        ApkDirEntry { is_dir: false, file_name: Some("one_x86_64.apk".to_string()) },
        ApkDirEntry { is_dir: false, file_name: Some("two_x86_64.apk".to_string()) },
    ];
    let mut scan = ApkScan::new(&entries, &arch, "libapp.so");
    let archive = zip_with_empty_files(vec!["lib/x86_64/libapp.so"]);
    match scan.on_file(Ok(archive)) {
        Some(Ok(location)) => assert_eq!(location.internal_path, "lib/x86_64/libapp.so"),
        other => panic!("unexpected result: {:?}", other),
    }
}

#[test]
fn read_library_gives_entry_bytes() {
    let lib = "lib/armeabi-v7a/libapp.so";
    let bytes = zip_with_files(vec![(lib, b"\x7fELF library image")]);
    let location = check_for_lib_path(Ok(bytes), lib).unwrap();
    assert_eq!(read_library(location).unwrap(), b"\x7fELF library image".to_vec());
}
