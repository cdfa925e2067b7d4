use httpfs::attr::{FileKind, BLOCK_SIZE, DIR_INO, OWNER_GID, OWNER_UID, READ_ONLY_PERM};
use httpfs::fs::{FsError, HttpFS};
use httpfs::names::synth_filename;

fn strings(v: Vec<&str>) -> Vec<String> {
    v.into_iter().map(|s| s.to_string()).collect()
}

fn two_entry_table() -> HttpFS {
    let locators = strings(vec!["http://x/a.bin", "http://x/"]);
    let sizes: Vec<u64> = vec![4, 9];
    HttpFS::try_new(&locators, &sizes).expect("construction should succeed")
}

#[test]
fn construction_counts_and_inos() {
    let locators = strings(vec![
        "http://host/dir/file1.txt",
        "http://host/",
        "http://host/file2.bin",
    ]);
    let sizes: Vec<u64> = vec![10, 20, 30];
    let fs = HttpFS::try_new(&locators, &sizes).expect("construction should succeed");
    let listing = fs.readdir(DIR_INO, 2).expect("readdir should succeed");
    assert_eq!(listing.len(), 3);
    for (j, e) in listing.iter().enumerate() {
        assert_eq!(e.ino, 2 + j as u64);
    }
    let names: Vec<&str> = listing.iter().map(|e| e.name.as_str()).collect();
    assert_eq!(names, vec!["file1.txt", "unk_0", "file2.bin"]);
    for i in 0..names.len() {
        for j in (i + 1)..names.len() {
            assert_ne!(names[i], names[j]);
        }
    }
}

#[test]
fn construction_fails_on_unparseable_locator() {
    let locators = strings(vec!["http://x/good.bin", "not a locator"]);
    let sizes: Vec<u64> = vec![1, 1];
    assert!(HttpFS::try_new(&locators, &sizes).is_none());
}

#[test]
fn construction_fails_on_locator_without_path() {
    let locators = strings(vec!["data:text/plain,hello"]);
    let sizes: Vec<u64> = vec![1];
    assert!(HttpFS::try_new(&locators, &sizes).is_none());
}

#[test]
fn synthesized_names_interleaved_never_reuse_counter() {
    let locators = strings(vec![
        "http://a/",
        "http://a/x.bin",
        "http://a/",
        "http://b/",
        "http://b/y.bin",
        "http://b/",
    ]);
    let sizes: Vec<u64> = vec![0; 6];
    let fs = HttpFS::try_new(&locators, &sizes).expect("construction should succeed");
    let listing = fs.readdir(DIR_INO, 2).expect("readdir should succeed");
    let names: Vec<&str> = listing.iter().map(|e| e.name.as_str()).collect();
    assert_eq!(names, vec!["unk_0", "x.bin", "unk_1", "unk_2", "y.bin", "unk_3"]);
}

#[test]
fn synthesized_names_many_counters_distinct() {
    let locators = strings(vec!["http://a/"; 12]);
    let sizes: Vec<u64> = vec![0; 12];
    let fs = HttpFS::try_new(&locators, &sizes).expect("construction should succeed");
    let listing = fs.readdir(DIR_INO, 2).expect("readdir should succeed");
    for (j, e) in listing.iter().enumerate() {
        assert_eq!(e.name, format!("unk_{}", j));
    }
}

#[test]
fn synth_filename_renders_decimal() {
    assert_eq!(synth_filename(0), "unk_0");
    assert_eq!(synth_filename(7), "unk_7");
    assert_eq!(synth_filename(10), "unk_10");
    assert_eq!(synth_filename(12345), "unk_12345");
    assert_eq!(synth_filename(u64::MAX), format!("unk_{}", u64::MAX));
}

#[test]
fn lookup_finds_each_entry() {
    let fs = two_entry_table();
    let a = fs.lookup(DIR_INO, &"a.bin".to_string()).expect("should resolve");
    assert_eq!(a.ino, 2);
    assert_eq!(a.size, 4);
    assert_eq!(a.kind, FileKind::RegularFile);
    let b = fs.lookup(DIR_INO, &"unk_0".to_string()).expect("should resolve");
    assert_eq!(b.ino, 3);
    assert_eq!(b.size, 9);
}

#[test]
fn lookup_misses_unknown_name_and_non_directory_parent() {
    let fs = two_entry_table();
    assert_eq!(fs.lookup(DIR_INO, &"b.bin".to_string()), Err(FsError::NoEnt));
    assert_eq!(fs.lookup(2, &"a.bin".to_string()), Err(FsError::NoEnt));
    assert_eq!(fs.lookup(99, &"a.bin".to_string()), Err(FsError::NoEnt));
}

#[test]
fn lookup_duplicate_names_resolve_to_first_entry() {
    // Two locators sharing a final segment produce two entries with
    // the same filename; resolution takes the first in table order.
    let locators = strings(vec!["http://x/same.bin", "http://y/same.bin"]);
    let sizes: Vec<u64> = vec![1, 2];
    let fs = HttpFS::try_new(&locators, &sizes).expect("construction should succeed");
    let a = fs.lookup(DIR_INO, &"same.bin".to_string()).expect("should resolve");
    assert_eq!(a.ino, 2);
    assert_eq!(a.size, 1);
}

#[test]
fn lookup_agrees_with_getattr() {
    let fs = two_entry_table();
    let by_name = fs.lookup(DIR_INO, &"a.bin".to_string()).expect("should resolve");
    let by_ino = fs.getattr(by_name.ino).expect("should resolve");
    assert_eq!(by_name, by_ino);
}

#[test]
fn getattr_directory_record() {
    let fs = two_entry_table();
    let d = fs.getattr(DIR_INO).expect("directory should resolve");
    assert_eq!(d.ino, DIR_INO);
    assert_eq!(d.kind, FileKind::Directory);
    assert_eq!(d.size, 0);
    assert_eq!(d.nlink, 2);
    assert_eq!(d.perm, READ_ONLY_PERM);
    assert_eq!(d.uid, OWNER_UID);
    assert_eq!(d.gid, OWNER_GID);
    assert_eq!(d.blksize, BLOCK_SIZE);
    assert_eq!(d.atime_secs, 0);
    assert_eq!(d.mtime_secs, 0);
}

#[test]
fn getattr_file_record() {
    let fs = two_entry_table();
    let a = fs.getattr(2).expect("entry should resolve");
    assert_eq!(a.ino, 2);
    assert_eq!(a.size, 4);
    assert_eq!(a.kind, FileKind::RegularFile);
    assert_eq!(a.nlink, 1);
    assert_eq!(a.perm, READ_ONLY_PERM);
}

#[test]
fn getattr_is_idempotent() {
    let fs = two_entry_table();
    for ino in [1u64, 2, 3, 4, 99] {
        let first = fs.getattr(ino);
        let second = fs.getattr(ino);
        assert_eq!(first, second);
    }
}

#[test]
fn getattr_rejects_dead_identities() {
    let fs = two_entry_table();
    assert_eq!(fs.getattr(0), Err(FsError::NoEnt));
    assert_eq!(fs.getattr(4), Err(FsError::NoEnt));
    assert_eq!(fs.getattr(u64::MAX), Err(FsError::NoEnt));
}

#[test]
fn readdir_full_enumeration() {
    let fs = two_entry_table();
    let listing = fs.readdir(DIR_INO, 0).expect("readdir should succeed");
    assert_eq!(listing.len(), 4);
    assert_eq!(listing[0].name, ".");
    assert_eq!(listing[0].ino, DIR_INO);
    assert_eq!(listing[0].kind, FileKind::Directory);
    assert_eq!(listing[1].name, "..");
    assert_eq!(listing[1].ino, DIR_INO);
    assert_eq!(listing[2].name, "a.bin");
    assert_eq!(listing[2].ino, 2);
    assert_eq!(listing[2].kind, FileKind::RegularFile);
    assert_eq!(listing[3].name, "unk_0");
    assert_eq!(listing[3].ino, 3);
    for (k, e) in listing.iter().enumerate() {
        assert_eq!(e.next_offset, k as u64 + 1);
    }
}

#[test]
fn readdir_pages_without_duplicates_or_omissions() {
    let fs = two_entry_table();
    // One entry per call, resuming at the reported offset, as a consumer
    // with a one-entry buffer would.
    let mut seen: Vec<(u64, String)> = Vec::new();
    let mut offset: u64 = 0;
    loop {
        let page = fs.readdir(DIR_INO, offset).expect("readdir should succeed");
        match page.first() {
            None => break,
            Some(e) => {
                seen.push((e.ino, e.name.clone()));
                offset = e.next_offset;
            }
        }
    }
    let names: Vec<&str> = seen.iter().map(|(_, n)| n.as_str()).collect();
    assert_eq!(names, vec![".", "..", "a.bin", "unk_0"]);
    assert_eq!(seen[2].0, 2);
    assert_eq!(seen[3].0, 3);
}

#[test]
fn readdir_same_offset_same_entries() {
    let fs = two_entry_table();
    let first = fs.readdir(DIR_INO, 1).expect("readdir should succeed");
    let second = fs.readdir(DIR_INO, 1).expect("readdir should succeed");
    assert_eq!(first.len(), second.len());
    for (a, b) in first.iter().zip(second.iter()) {
        assert_eq!(a.ino, b.ino);
        assert_eq!(a.name, b.name);
        assert_eq!(a.next_offset, b.next_offset);
    }
}

#[test]
fn readdir_past_end_is_empty() {
    let fs = two_entry_table();
    assert_eq!(fs.readdir(DIR_INO, 4).expect("should succeed").len(), 0);
    assert_eq!(fs.readdir(DIR_INO, 1000).expect("should succeed").len(), 0);
}

#[test]
fn readdir_rejects_non_directory() {
    let fs = two_entry_table();
    assert_eq!(fs.readdir(2, 0).unwrap_err(), FsError::NoEnt);
    assert_eq!(fs.readdir(0, 0).unwrap_err(), FsError::NoEnt);
}

#[test]
fn read_plan_within_file() {
    let fs = two_entry_table();
    let plan = fs.read_plan(2, 1, 2).expect("plan should resolve");
    assert_eq!(plan.index, 0);
    assert_eq!(plan.seek_to, 1);
    assert_eq!(plan.len, 2);
}

#[test]
fn read_plan_clamps_at_end_of_file() {
    let fs = two_entry_table();
    let reference: [u8; 4] = [0x01, 0x02, 0x03, 0x04];
    let plan = fs.read_plan(2, 2, 10).expect("plan should resolve");
    assert_eq!(plan.seek_to, 2);
    assert_eq!(plan.len, 2);
    let got = &reference[plan.seek_to as usize..(plan.seek_to + plan.len as u64) as usize];
    assert_eq!(got, &[0x03, 0x04]);
}

#[test]
fn read_plan_at_or_past_end_is_empty_not_error() {
    let fs = two_entry_table();
    let at_end = fs.read_plan(2, 4, 10).expect("plan should resolve");
    assert_eq!(at_end.len, 0);
    let past_end = fs.read_plan(2, 1000, 10).expect("plan should resolve");
    assert_eq!(past_end.len, 0);
    let other = fs.read_plan(3, 9, 1).expect("plan should resolve");
    assert_eq!(other.len, 0);
}

#[test]
fn read_plan_rejects_dead_identities() {
    let fs = two_entry_table();
    assert_eq!(fs.read_plan(DIR_INO, 0, 1), Err(FsError::NoEnt));
    assert_eq!(fs.read_plan(0, 0, 1), Err(FsError::NoEnt));
    assert_eq!(fs.read_plan(4, 0, 1), Err(FsError::NoEnt));
}

#[test]
fn after_seek_maps_failure_to_invalid_argument() {
    let fs = two_entry_table();
    let plan = fs.read_plan(2, 1, 2).expect("plan should resolve");
    assert_eq!(HttpFS::after_seek(&plan, true), Ok(2));
    assert_eq!(HttpFS::after_seek(&plan, false), Err(FsError::Inval));
}

#[test]
fn scenario_two_locators() {
    // Locators "http://x/a.bin" (4 bytes 0x01 0x02 0x03 0x04) and
    // "http://x/": two entries named a.bin and unk_0; reading at
    // offset 2 for 10 bytes yields the 2 clamped bytes 0x03 0x04, and
    // reading at offset 4 yields nothing.
    let locators = strings(vec!["http://x/a.bin", "http://x/"]);
    let sizes: Vec<u64> = vec![4, 0];
    let data: [u8; 4] = [0x01, 0x02, 0x03, 0x04];
    let fs = HttpFS::try_new(&locators, &sizes).expect("construction should succeed");
    let a = fs.lookup(DIR_INO, &"a.bin".to_string()).expect("should resolve");
    assert_eq!(a.size, 4);
    fs.lookup(DIR_INO, &"unk_0".to_string()).expect("should resolve");
    let clamped = fs.read_plan(a.ino, 2, 10).expect("plan should resolve");
    assert_eq!(clamped.len, 2);
    assert_eq!(
        &data[clamped.seek_to as usize..(clamped.seek_to + clamped.len as u64) as usize],
        &[0x03, 0x04]
    );
    let empty = fs.read_plan(a.ino, 4, 10).expect("plan should resolve");
    assert_eq!(empty.len, 0);
}
