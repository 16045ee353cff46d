//! Outdoor map and BSP model decoding tests.

use lod::bsp_model::read_bsp_models;
use lod::odm::OdmName;
use lod::lod::Lod;
use lod::odm::Odm;
use lod::LodManager;

/// Build an archive file image holding the given named entries.
fn build_archive(version: &str, entries: &[(&str, Vec<u8>)]) -> Vec<u8> {
    let n = entries.len();
    let dir_end = 256 + 32 * (n + 1);
    let mut out = vec![0u8; dir_end];
    out[0..3].copy_from_slice(b"LOD");
    let vb = version.as_bytes();
    out[4..4 + vb.len()].copy_from_slice(vb);
    let base = dir_end as i32;
    out[256..261].copy_from_slice(b"mastr");
    out[272..276].copy_from_slice(&base.to_le_bytes());
    out[276..280].copy_from_slice(&0i32.to_le_bytes());
    out[284..288].copy_from_slice(&(n as i32).to_le_bytes());
    let mut rel: i32 = 0;
    for (i, (name, data)) in entries.iter().enumerate() {
        let rec = 256 + 32 * (i + 1);
        let nb = name.as_bytes();
        out[rec..rec + nb.len()].copy_from_slice(nb);
        out[rec + 16..rec + 20].copy_from_slice(&rel.to_le_bytes());
        out[rec + 20..rec + 24].copy_from_slice(&(data.len() as i32).to_le_bytes());
        rel += data.len() as i32;
    }
    for (_, data) in entries {
        out.extend_from_slice(data);
    }
    out
}

/// A 188-byte model header with the given counts.
fn model_header(name: &str, vc: i32, fc: i32, nc: i32) -> Vec<u8> {
    let mut h = vec![0u8; 188];
    h[..name.len()].copy_from_slice(name.as_bytes());
    h[68..72].copy_from_slice(&vc.to_le_bytes());
    h[76..80].copy_from_slice(&fc.to_le_bytes());
    h[92..96].copy_from_slice(&nc.to_le_bytes());
    h
}

/// A 308-byte face record using the first `vc` vertex slots in order.
fn face_record(vc: u8) -> Vec<u8> {
    let mut f = vec![0u8; 308];
    for k in 0..20u16 {
        f[32 + 2 * k as usize..34 + 2 * k as usize].copy_from_slice(&k.to_le_bytes());
    }
    f[302] = vc;
    f
}

/// One model with `vc` vertices and one `vc`-cornered face.
fn fan_model_bytes(vc: u8) -> Vec<u8> {
    let mut d = model_header("fan", vc as i32, 1, 0);
    for k in 0..vc {
        let v = [k as i32, 100 + k as i32, 200 + k as i32];
        for c in v {
            d.extend_from_slice(&c.to_le_bytes());
        }
    }
    d.extend_from_slice(&face_record(vc));
    d.extend_from_slice(&[0, 0]);
    let mut tex = vec![0u8; 10];
    tex[..3].copy_from_slice(b"roc");
    d.extend_from_slice(&tex);
    d
}

#[test]
fn fan_triangulation_shares_the_first_vertex() {
    // A face with five corners yields exactly three triangles, nine
    // indices, every triangle starting at the face's first vertex id.
    let d = fan_model_bytes(5);
    let (models, end) = read_bsp_models(&d, 0, 1).unwrap();
    assert_eq!(end, d.len());
    assert_eq!(models.len(), 1);
    let m = &models[0];
    assert_eq!(m.header.name, "fan");
    assert_eq!(m.vertices.len(), 5);
    assert_eq!(m.faces.len(), 1);
    assert_eq!(m.texture_names[0], "roc");
    assert_eq!(m.indices, vec![0, 1, 2, 0, 2, 3, 0, 3, 4]);
}

#[test]
fn vertices_keep_the_axis_permutation() {
    let d = fan_model_bytes(3);
    let (models, _) = read_bsp_models(&d, 0, 1).unwrap();
    let v = &models[0].vertices[1];
    // Source (x, y, z) = (1, 101, 201) becomes (x, z, -y).
    assert_eq!((v.x, v.y, v.z), (1, 201, -101));
}

/// A minimal outdoor map entry with the given models and one billboard
/// block.
fn build_map(models: &[Vec<u8>], billboards: &[(u16, u16, &str)]) -> Vec<u8> {
    let mut d = vec![0u8; 49332];
    d[64..71].copy_from_slice(b"version");
    d[96..99].copy_from_slice(b"sky");
    d[128..134].copy_from_slice(b"ground");
    for k in 0..8u16 {
        let v = (k * 3).to_le_bytes();
        d[160 + 2 * k as usize..162 + 2 * k as usize].copy_from_slice(&v);
    }
    d[176] = 5;
    d[16560] = 9;
    d[32944] = 1;
    d[49328..49332].copy_from_slice(&(models.len() as u32).to_le_bytes());
    // Headers of all models first, then every body in order.
    for m in models {
        d.extend_from_slice(&m[..188]);
    }
    for m in models {
        d.extend_from_slice(&m[188..]);
    }
    d.extend_from_slice(&(billboards.len() as u32).to_le_bytes());
    for (id, attrs, _) in billboards {
        let mut rec = vec![0u8; 28];
        rec[0..2].copy_from_slice(&id.to_le_bytes());
        rec[2..4].copy_from_slice(&attrs.to_le_bytes());
        rec[4..8].copy_from_slice(&77i32.to_le_bytes());
        d.extend_from_slice(&rec);
    }
    for (_, _, name) in billboards {
        let mut blk = vec![0u8; 32];
        blk[..name.len()].copy_from_slice(name.as_bytes());
        d.extend_from_slice(&blk);
    }
    d
}

fn manager_with_map(map: Vec<u8>) -> LodManager {
    let games = Lod::open(&build_archive("MMVI", &[("oute3.odm", map)])).unwrap();
    let mut manager = LodManager::new();
    manager.insert("games", games);
    manager
}

#[test]
fn odm_get_map_works() {
    let models: Vec<Vec<u8>> = (0..85).map(|_| model_header("m", 0, 0, 0)).collect();
    let manager = manager_with_map(build_map(&models, &[]));
    let map = Odm::new(&manager, "oute3.odm").unwrap();
    assert_eq!(map.bsp_models.len(), 85)
}

#[test]
fn bsp_model_get_map_works() {
    let models: Vec<Vec<u8>> = (0..85).map(|_| fan_model_bytes(3)).collect();
    let manager = manager_with_map(build_map(&models, &[]));
    let map = Odm::new(&manager, "oute3.odm").unwrap();

    let model_crate = &map.bsp_models[17];
    println!("{:?}", model_crate.texture_names);

    let model_bridge = &map.bsp_models[19];
    println!("{:?}", model_bridge.texture_names);
    assert_eq!(model_bridge.texture_names[0], "roc");
}

#[test]
fn odm_decodes_header_grids_and_billboards() {
    let manager = manager_with_map(build_map(&[], &[(3, 0x20, "CHEST")]));
    let map = Odm::new(&manager, "oute3.odm").unwrap();
    assert_eq!(map.odm_version, "version");
    assert_eq!(map.sky_texture, "sky");
    assert_eq!(map.ground_texture, "ground");
    assert_eq!(map.tile_data, vec![0, 3, 6, 9, 12, 15, 18, 21]);
    assert_eq!(map.height_map.len(), 16384);
    assert_eq!(map.height_map[0], 5);
    assert_eq!(map.tile_map[0], 9);
    assert_eq!(map.attribute_map[0], 1);
    assert_eq!(map.size(), (128, 128));
    assert_eq!(map.billboards.len(), 1);
    let b = &map.billboards[0];
    // Billboard names are lower-cased on read.
    assert_eq!(b.declist_name, "chest");
    assert_eq!(b.data.declist_id, 3);
    assert!(b.data.is_chest());
    assert!(!b.data.is_ship());
    assert_eq!(b.data.position, vec![77, 0, 0]);
}

/// One 26-byte tile record with the given name.
fn tile_record(name: &str) -> Vec<u8> {
    let mut rec = vec![0u8; 26];
    rec[..name.len()].copy_from_slice(name.as_bytes());
    rec
}

#[test]
fn map_tile_table_resolves_through_the_catalog() {
    let manager = manager_with_map(build_map(&[], &[]));
    let mut icons_data = (260u32).to_le_bytes().to_vec();
    for i in 0..260 {
        icons_data.extend_from_slice(&tile_record(&format!("g{:03}", i)));
    }
    let icons = Lod::open(&build_archive("MMVI", &[("dtile.bin", icons_data)])).unwrap();
    let mut manager = manager;
    manager.insert("icons", icons);
    let map = Odm::new(&manager, "oute3.odm").unwrap();
    let table = map.tile_table(&manager).unwrap();
    // The map's remap vector is (0, 3, 6, 9, 12, 15, 18, 21): tile index
    // 90 resolves through the primary band to catalog slot 0 + 3.
    assert_eq!(table.name(90), "g003");
    assert_eq!(table.name(0), "g000");
}

fn deflate(data: &[u8]) -> Vec<u8> {
    let mut enc = flate2::write::ZlibEncoder::new(Vec::new(), flate2::Compression::default());
    std::io::Write::write_all(&mut enc, data).unwrap();
    enc.finish().unwrap()
}

/// Build a bitmap archive entry: 48-byte header, zlib payload, palette.
fn build_bitmap(width: u16, height: u16, pixels: &[u8], palette: &[u8; 768]) -> Vec<u8> {
    let payload = deflate(pixels);
    let mut out = vec![0u8; 48];
    out[16..20].copy_from_slice(&(width as u32 * height as u32).to_le_bytes());
    out[20..24].copy_from_slice(&(payload.len() as u32).to_le_bytes());
    out[24..26].copy_from_slice(&width.to_le_bytes());
    out[26..28].copy_from_slice(&height.to_le_bytes());
    out[40..44].copy_from_slice(&(pixels.len() as u32).to_le_bytes());
    out.extend_from_slice(&payload);
    out.extend_from_slice(palette);
    out
}

#[test]
fn atlas_generation_works() {
    // A catalog whose slot 0 is named and whose other slots are empty:
    // the unique set is { grass, pending }, composited two tiles wide.
    let mut icons_data = (260u32).to_le_bytes().to_vec();
    for i in 0..260 {
        let mut rec = vec![0u8; 26];
        if i == 0 {
            rec[..5].copy_from_slice(b"grass");
        }
        icons_data.extend_from_slice(&rec);
    }
    let mut pal = [0u8; 768];
    pal[3] = 10;
    pal[4] = 20;
    pal[5] = 30;
    pal[6] = 40;
    pal[7] = 50;
    pal[8] = 60;
    let grass = build_bitmap(128, 128, &vec![1u8; 128 * 128], &pal);
    let pending = build_bitmap(128, 128, &vec![2u8; 128 * 128], &pal);
    let icons = Lod::open(&build_archive("MMVI", &[("dtile.bin", icons_data)])).unwrap();
    let bitmaps = Lod::open(&build_archive(
        "MMVI",
        &[("grass", grass), ("pending", pending)],
    ))
    .unwrap();
    let mut manager = manager_with_map(build_map(&[], &[]));
    manager.insert("icons", icons);
    manager.insert("bitmaps", bitmaps);
    let map = Odm::new(&manager, "oute3.odm").unwrap();
    let table = map.tile_table(&manager).unwrap();
    assert_eq!(table.size(), (2u8, 1u8));
    let atlas = table.atlas_image(&manager).unwrap();
    assert_eq!((atlas.width, atlas.height), (256, 128));
    // Left cell: grass, palette index 1. Right cell: pending, index 2.
    assert_eq!(&atlas.data[0..4], &[10, 20, 30, 255]);
    let p = 4 * 128;
    assert_eq!(&atlas.data[p..p + 4], &[40, 50, 60, 255]);
}

#[test]
fn missing_map_entry_is_not_found() {
    let manager = manager_with_map(build_map(&[], &[]));
    assert!(Odm::new(&manager, "nowhere.odm").is_err());
}

#[test]
fn truncated_map_is_rejected() {
    let games = Lod::open(&build_archive("MMVI", &[("tiny.odm", vec![0u8; 100])])).unwrap();
    let mut manager = LodManager::new();
    manager.insert("games", games);
    assert!(Odm::new(&manager, "tiny.odm").is_err());
}

#[test]
fn map_names_navigate_the_grid() {
    let home = OdmName::default();
    assert_eq!((home.x, home.y), ('e', '3'));
    assert_eq!(home.map_name(), "oute3.odm");
    let north = home.go_north().unwrap();
    assert_eq!(north.map_name(), "oute2.odm");
    assert!(north.go_east().is_none());
    let west = home.go_west().unwrap();
    assert_eq!(west.map_name(), "outd3.odm");
    assert!(home.go_south().is_none());
    let parsed = OdmName::try_from("outa1.odm").unwrap();
    assert_eq!((parsed.x, parsed.y), ('a', '1'));
    assert!(parsed.go_north().is_none());
    assert!(parsed.go_west().is_none());
    assert!(OdmName::try_from("outz9.odm").is_err());
    assert!(OdmName::try_from("out").is_err());
}
