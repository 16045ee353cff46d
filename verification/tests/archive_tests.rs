//! Archive container tests: opening, listing, name-keyed lookup, and the
//! two-level archive set.

use lod::error::LodError;
use lod::lod::{Lod, Version};
use lod::LodManager;

/// Build an archive file image holding the given named entries.
fn build_archive(version: &str, entries: &[(&str, Vec<u8>)]) -> Vec<u8> {
    let n = entries.len();
    let dir_end = 256 + 32 * (n + 1);
    let mut out = vec![0u8; dir_end];
    out[0..3].copy_from_slice(b"LOD");
    let vb = version.as_bytes();
    out[4..4 + vb.len()].copy_from_slice(vb);

    // Master record: its offset field is the directory base, added to every
    // later record's offset; its count field is the entry count.
    let base = dir_end as i32;
    out[256..261].copy_from_slice(b"mastr");
    out[272..276].copy_from_slice(&base.to_le_bytes());
    out[276..280].copy_from_slice(&0i32.to_le_bytes());
    out[284..288].copy_from_slice(&(n as i32).to_le_bytes());

    let mut rel: i32 = 0;
    for (i, (name, data)) in entries.iter().enumerate() {
        let rec = 256 + 32 * (i + 1);
        let nb = name.as_bytes();
        out[rec..rec + nb.len()].copy_from_slice(nb);
        out[rec + 16..rec + 20].copy_from_slice(&rel.to_le_bytes());
        out[rec + 20..rec + 24].copy_from_slice(&(data.len() as i32).to_le_bytes());
        rel += data.len() as i32;
    }
    for (_, data) in entries {
        out.extend_from_slice(data);
    }
    out
}

#[test]
fn lod_manager_works() {
    let archive = build_archive("MMVI", &[("grastyl", vec![7u8; 17676])]);
    let bitmaps = Lod::open(&archive).unwrap();
    let mut manager = LodManager::new();
    manager.insert("bitmaps", bitmaps);
    let grastyl = manager.try_get_bytes("bitmaps/grastyl");
    assert_eq!(17676, grastyl.unwrap().len());
}

#[test]
fn open_lists_every_name_case_folded() {
    let archive = build_archive(
        "GameMMVI",
        &[("Alpha", vec![1, 2, 3]), ("BETA", vec![4, 5, 6, 7])],
    );
    let lod = Lod::open(&archive).unwrap();
    let names = lod.files();
    assert!(names.iter().any(|s| s == "alpha"));
    assert!(names.iter().any(|s| s == "beta"));
    assert!(names.iter().any(|s| s == "mastr"));
    assert_eq!(lod.try_get_bytes("alpha").unwrap().len(), 3);
    assert_eq!(lod.try_get_bytes("beta").unwrap().len(), 4);
    assert_eq!(lod.try_get_bytes("beta").unwrap(), &[4, 5, 6, 7]);
    assert!(lod.try_get_bytes("Alpha").is_none());
    assert!(lod.get_raw("alpha").is_some());
}

#[test]
fn open_rejects_bad_magic() {
    let mut archive = build_archive("MMVI", &[("x", vec![1])]);
    archive[0] = b'X';
    assert!(matches!(Lod::open(&archive), Err(LodError::InvalidFormat)));
    // A file too short to even hold the magic tag.
    assert!(matches!(Lod::open(b"LO"), Err(LodError::InvalidFormat)));
}

#[test]
fn open_rejects_unknown_version() {
    let archive = build_archive("GameMMIX", &[("x", vec![1])]);
    assert!(matches!(Lod::open(&archive), Err(LodError::UnsupportedVersion)));
}

#[test]
fn open_rejects_truncated_directory() {
    let archive = build_archive("MMVI", &[("x", vec![1])]);
    assert!(matches!(Lod::open(&archive[..200]), Err(LodError::Truncated)));
}

#[test]
fn open_rejects_out_of_bounds_entry() {
    let mut archive = build_archive("MMVI", &[("x", vec![1, 2, 3])]);
    // Inflate the declared size of the entry past the end of the file.
    let rec = 256 + 32;
    archive[rec + 20..rec + 24].copy_from_slice(&1000i32.to_le_bytes());
    assert!(matches!(Lod::open(&archive), Err(LodError::Truncated)));
}

#[test]
fn version_tokens_decode() {
    assert_eq!(Version::try_from(b"GameMMVI"), Ok(Version::MM6));
    assert_eq!(Version::try_from(b"MMVI"), Ok(Version::MM6));
    assert_eq!(Version::try_from(b"GameMMVII"), Ok(Version::MM7));
    assert_eq!(Version::try_from(b"MMVII"), Ok(Version::MM7));
    assert_eq!(Version::try_from(b"GameMMVIII"), Ok(Version::MM8));
    assert_eq!(Version::try_from(b"MMVIII"), Ok(Version::MM8));
    assert_eq!(Version::try_from(b"MMIX"), Err(LodError::UnsupportedVersion));
    let archive = build_archive("GameMMVIII", &[]);
    assert_eq!(Lod::open(&archive).unwrap().version, Version::MM8);
}

#[test]
fn later_entry_shadows_earlier_same_name() {
    let archive = build_archive("MMVI", &[("twin", vec![1, 1]), ("twin", vec![2, 2, 2])]);
    let lod = Lod::open(&archive).unwrap();
    assert_eq!(lod.try_get_bytes("twin").unwrap(), &[2, 2, 2]);
}

#[test]
fn manager_resolves_only_two_level_paths() {
    let archive = build_archive("MMVI", &[("entry", vec![9])]);
    let lod = Lod::open(&archive).unwrap();
    let mut manager = LodManager::new();
    manager.insert("icons", lod);
    assert!(manager.try_get_bytes("icons/entry").is_ok());
    assert_eq!(manager.try_get_bytes("icons/none"), Err(LodError::NotFound));
    assert_eq!(manager.try_get_bytes("other/entry"), Err(LodError::NotFound));
    assert_eq!(manager.try_get_bytes("entry"), Err(LodError::NotFound));
}

#[test]
fn get_sprite() {
    let archive = build_archive("MMVI", &[("rock01", vec![0u8; 40])]);
    let sprites_lod = Lod::open(&archive).unwrap();
    let rock01 = sprites_lod.try_get_bytes("rock01");
    assert!(rock01.is_some());
}
