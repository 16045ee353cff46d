//! Catalog decoding and tile table derivation tests.

use lod::ddeclist::DDecList;
use lod::dsft::DSFT;
use lod::dtile::{Dtile, TileTable};
use lod::lod::Lod;
use lod::LodManager;

/// Build an archive file image holding the given named entries.
fn build_archive(version: &str, entries: &[(&str, Vec<u8>)]) -> Vec<u8> {
    let n = entries.len();
    let dir_end = 256 + 32 * (n + 1);
    let mut out = vec![0u8; dir_end];
    out[0..3].copy_from_slice(b"LOD");
    let vb = version.as_bytes();
    out[4..4 + vb.len()].copy_from_slice(vb);
    let base = dir_end as i32;
    out[256..261].copy_from_slice(b"mastr");
    out[272..276].copy_from_slice(&base.to_le_bytes());
    out[276..280].copy_from_slice(&0i32.to_le_bytes());
    out[284..288].copy_from_slice(&(n as i32).to_le_bytes());
    let mut rel: i32 = 0;
    for (i, (name, data)) in entries.iter().enumerate() {
        let rec = 256 + 32 * (i + 1);
        let nb = name.as_bytes();
        out[rec..rec + nb.len()].copy_from_slice(nb);
        out[rec + 16..rec + 20].copy_from_slice(&rel.to_le_bytes());
        out[rec + 20..rec + 24].copy_from_slice(&(data.len() as i32).to_le_bytes());
        rel += data.len() as i32;
    }
    for (_, data) in entries {
        out.extend_from_slice(data);
    }
    out
}

fn manager_with_icons(entries: &[(&str, Vec<u8>)]) -> LodManager {
    let icons = Lod::open(&build_archive("MMVI", entries)).unwrap();
    let mut manager = LodManager::new();
    manager.insert("icons", icons);
    manager
}

/// One 80-byte decoration record with the given names.
fn ddec_record(name: &str, game_name: &str) -> Vec<u8> {
    let mut rec = vec![0u8; 80];
    rec[..name.len()].copy_from_slice(name.as_bytes());
    rec[32..32 + game_name.len()].copy_from_slice(game_name.as_bytes());
    rec
}

#[test]
fn ddeclist_read_declist_data_works() {
    let mut data = (230u32).to_le_bytes().to_vec();
    for i in 0..230 {
        let rec = if i == 6 {
            ddec_record("fountain", "fountain")
        } else {
            ddec_record("dec", "dec")
        };
        data.extend_from_slice(&rec);
    }
    let manager = manager_with_icons(&[("ddeclist.bin", data)]);
    let d_declist = DDecList::new(&manager).unwrap();
    assert_eq!(d_declist.items.len(), 230);
    assert_eq!(d_declist.items[6].name(), Some("fountain".to_string()));
    assert_eq!(d_declist.items[6].game_name(), Some("fountain".to_string()));
}

/// One 56-byte frame record with the given names.
fn dsft_record(group_name: &str, sprite_name: &str) -> Vec<u8> {
    let mut rec = vec![0u8; 56];
    rec[..group_name.len()].copy_from_slice(group_name.as_bytes());
    rec[12..12 + sprite_name.len()].copy_from_slice(sprite_name.as_bytes());
    rec
}

#[test]
fn dsft_read_declist_data_works() {
    let mut data = Vec::new();
    data.extend_from_slice(&(6455u32).to_le_bytes());
    data.extend_from_slice(&(1656u32).to_le_bytes());
    for i in 0..6455 {
        let rec = match i {
            0 => dsft_record("null", ""),
            1 => dsft_record("key", "3gem7"),
            1017 => dsft_record("rok1", "rok1"),
            _ => dsft_record("grp", "spr"),
        };
        data.extend_from_slice(&rec);
    }
    for g in 0..1656u32 {
        data.extend_from_slice(&(g as u16).to_le_bytes());
    }
    let manager = manager_with_icons(&[("dsft.bin", data)]);
    let dsft = DSFT::new(&manager).unwrap();
    assert_eq!(dsft.frames.len(), 6455);
    assert_eq!(dsft.frames[0].group_name(), Some("null".to_string()));
    assert_eq!(dsft.frames[1].group_name(), Some("key".to_string()));
    assert_eq!(dsft.frames[1].sprite_name(), Some("3gem7".to_string()));
    assert_eq!(dsft.frames[1017].group_name(), Some("rok1".to_string()));
    assert_eq!(dsft.frames[1017].sprite_name(), Some("rok1".to_string()));
    assert_eq!(dsft.groups.len(), 1656);
}

/// One 26-byte tile record with the given name.
fn tile_record(name: &str) -> Vec<u8> {
    let mut rec = vec![0u8; 26];
    rec[..name.len()].copy_from_slice(name.as_bytes());
    rec
}

fn dtile_data(names: &[&str]) -> Vec<u8> {
    let mut data = (names.len() as u32).to_le_bytes().to_vec();
    for n in names {
        data.extend_from_slice(&tile_record(n));
    }
    data
}

#[test]
fn read_dtile_data_works() {
    let names: Vec<String> = (0..882).map(|i| format!("t{}", i % 97)).collect();
    let refs: Vec<&str> = names.iter().map(|s| s.as_str()).collect();
    let manager = manager_with_icons(&[("dtile.bin", dtile_data(&refs))]);
    let dtile = Dtile::new(&manager).unwrap();
    assert_eq!(dtile.tiles.len(), 882);
}

fn names_of(n: usize) -> Vec<String> {
    // n distinct names, padded with repeats up to the 256 table slots.
    let mut out = Vec::new();
    for i in 0..256 {
        out.push(format!("name{:03}", i % n));
    }
    out
}

#[test]
fn grid_shape_follows_unique_count() {
    // 23 unique names: 10 columns, 3 rows. 7 unique names: 7 columns, 1 row.
    let t23 = TileTable::new(names_of(23));
    assert_eq!(t23.size(), (10u8, 3u8));
    let t7 = TileTable::new(names_of(7));
    assert_eq!(t7.size(), (7u8, 1u8));
}

#[test]
fn names_set_is_deterministic_and_sorted() {
    let a = TileTable::new(names_of(23));
    let b = TileTable::new(names_of(23));
    assert_eq!(a.names_set, b.names_set);
    assert_eq!(a.names_set.len(), 23);
    let mut sorted = a.names_set.clone();
    sorted.sort();
    assert_eq!(a.names_set, sorted);
}

#[test]
fn pending_sorts_last() {
    let mut names: Vec<String> = Vec::new();
    for i in 0..256 {
        names.push(
            match i % 4 {
                0 => "pending".to_string(),
                1 => "zzz".to_string(),
                2 => "aaa".to_string(),
                _ => "qqq".to_string(),
            },
        );
    }
    let t = TileTable::new(names);
    assert_eq!(t.names_set.len(), 4);
    assert_eq!(t.names_set.last().unwrap().as_str(), "pending");
    assert_eq!(t.names_set[0].as_str(), "aaa");
}

#[test]
fn drr_names_stay_out_of_the_set_but_keep_a_slot() {
    let mut names: Vec<String> = Vec::new();
    for i in 0..256 {
        names.push(if i == 0 { "drr001".to_string() } else { "grass".to_string() });
    }
    let t = TileTable::new(names);
    assert_eq!(t.names_set.len(), 1);
    assert_eq!(t.name(0), "drr001");
    // The excluded name lands in the set's last slot.
    assert_eq!(t.coordinate(0), (0u8, 0u8));
}

#[test]
fn table_applies_band_offsets() {
    // Catalog of 300 tiles named t000 .. t299; remap vector shifts the
    // primary band by 7, the secondary by 20 and the roads band by 40.
    let names: Vec<String> = (0..300).map(|i| format!("t{:03}", i)).collect();
    let refs: Vec<&str> = names.iter().map(|s| s.as_str()).collect();
    let manager = manager_with_icons(&[("dtile.bin", dtile_data(&refs))]);
    let dtile = Dtile::new(&manager).unwrap();
    let tile_data: Vec<u16> = vec![0, 7, 0, 0, 0, 20, 0, 40];
    let table = dtile.table(&tile_data).unwrap();
    // Below the primary band: identity.
    assert_eq!(table.name(10), "t010");
    // Primary band 90..125: index - 90 + remap[1].
    assert_eq!(table.name(90), "t007");
    assert_eq!(table.name(124), "t041");
    // Fixed band 126..161: identity.
    assert_eq!(table.name(126), "t126");
    // Secondary band 162..197: index - 162 + remap[5].
    assert_eq!(table.name(162), "t020");
    // Roads band 198 and up: index - 198 + remap[7].
    assert_eq!(table.name(198), "t040");
    assert_eq!(table.name(255), "t097");
    // Both band boundaries that no rule names: identity.
    assert_eq!(table.name(125), "t125");
    assert_eq!(table.name(161), "t161");
}

#[test]
fn table_rejects_out_of_range_remap() {
    let names: Vec<String> = (0..100).map(|i| format!("t{:03}", i)).collect();
    let refs: Vec<&str> = names.iter().map(|s| s.as_str()).collect();
    let manager = manager_with_icons(&[("dtile.bin", dtile_data(&refs))]);
    let dtile = Dtile::new(&manager).unwrap();
    // Index 255 remaps to 255 - 198 + 900, far outside the 100 tiles.
    let tile_data: Vec<u16> = vec![0, 0, 0, 0, 0, 0, 0, 900];
    assert!(dtile.table(&tile_data).is_none());
}

#[test]
fn empty_tile_names_fall_back_to_pending() {
    let names = vec![""; 300];
    let manager = manager_with_icons(&[("dtile.bin", dtile_data(&names))]);
    let dtile = Dtile::new(&manager).unwrap();
    let tile_data: Vec<u16> = vec![0; 8];
    let table = dtile.table(&tile_data).unwrap();
    assert_eq!(table.name(0), "pending");
    assert_eq!(table.names_set.len(), 1);
}
