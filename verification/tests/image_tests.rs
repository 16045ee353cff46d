//! Decompression, bitmap and sprite decoding, full-color rendering and
//! atlas compositing tests.

use lod::billboard::BillboardManager;
use lod::error::LodError;
use lod::sprite::SpriteManager;
use lod::image::{get_atlas, Image};
use lod::lod::Lod;
use lod::palette::Palettes;
use lod::zlib::decompress;
use lod::LodManager;
use std::io::Write;

fn deflate(data: &[u8]) -> Vec<u8> {
    let mut enc = flate2::write::ZlibEncoder::new(Vec::new(), flate2::Compression::default());
    enc.write_all(data).unwrap();
    enc.finish().unwrap()
}

/// Build an archive file image holding the given named entries.
fn build_archive(version: &str, entries: &[(&str, Vec<u8>)]) -> Vec<u8> {
    let n = entries.len();
    let dir_end = 256 + 32 * (n + 1);
    let mut out = vec![0u8; dir_end];
    out[0..3].copy_from_slice(b"LOD");
    let vb = version.as_bytes();
    out[4..4 + vb.len()].copy_from_slice(vb);
    let base = dir_end as i32;
    out[256..261].copy_from_slice(b"mastr");
    out[272..276].copy_from_slice(&base.to_le_bytes());
    out[276..280].copy_from_slice(&0i32.to_le_bytes());
    out[284..288].copy_from_slice(&(n as i32).to_le_bytes());
    let mut rel: i32 = 0;
    for (i, (name, data)) in entries.iter().enumerate() {
        let rec = 256 + 32 * (i + 1);
        let nb = name.as_bytes();
        out[rec..rec + nb.len()].copy_from_slice(nb);
        out[rec + 16..rec + 20].copy_from_slice(&rel.to_le_bytes());
        out[rec + 20..rec + 24].copy_from_slice(&(data.len() as i32).to_le_bytes());
        rel += data.len() as i32;
    }
    for (_, data) in entries {
        out.extend_from_slice(data);
    }
    out
}

/// Build a bitmap archive entry: 48-byte header, zlib payload, palette.
fn build_bitmap(width: u16, height: u16, pixels: &[u8], palette: &[u8; 768]) -> Vec<u8> {
    let payload = deflate(pixels);
    let mut out = vec![0u8; 48];
    out[16..20].copy_from_slice(&(width as u32 * height as u32).to_le_bytes());
    out[20..24].copy_from_slice(&(payload.len() as u32).to_le_bytes());
    out[24..26].copy_from_slice(&width.to_le_bytes());
    out[26..28].copy_from_slice(&height.to_le_bytes());
    out[40..44].copy_from_slice(&(pixels.len() as u32).to_le_bytes());
    out.extend_from_slice(&payload);
    out.extend_from_slice(palette);
    out
}

/// Build a sprite archive entry: 32-byte header, span table, zlib payload.
fn build_sprite(
    width: u16,
    height: u16,
    palette_id: u16,
    rows: &[(i16, i16, u32)],
    stream: &[u8],
) -> Vec<u8> {
    let payload = deflate(stream);
    let mut out = vec![0u8; 32];
    out[12..16].copy_from_slice(&(payload.len() as u32).to_le_bytes());
    out[16..18].copy_from_slice(&width.to_le_bytes());
    out[18..20].copy_from_slice(&height.to_le_bytes());
    out[20..22].copy_from_slice(&palette_id.to_le_bytes());
    out[28..32].copy_from_slice(&(stream.len() as u32).to_le_bytes());
    for (start, end, off) in rows {
        out.extend_from_slice(&start.to_le_bytes());
        out.extend_from_slice(&end.to_le_bytes());
        out.extend_from_slice(&off.to_le_bytes());
    }
    out.extend_from_slice(&payload);
    out
}

/// Build a palette archive entry: 48-byte header plus 768 color bytes.
fn build_palette_entry(palette: &[u8; 768]) -> Vec<u8> {
    let mut out = vec![0u8; 48];
    out.extend_from_slice(palette);
    out
}

fn test_palette() -> [u8; 768] {
    let mut pal = [0u8; 768];
    for i in 0..256 {
        pal[3 * i] = i as u8;
        pal[3 * i + 1] = 255 - i as u8;
        pal[3 * i + 2] = 100;
    }
    pal
}

#[test]
fn decompress_round_trips() {
    let data = b"the quick brown fox jumps over the lazy dog";
    let payload = deflate(data);
    let out = decompress(&payload, payload.len(), data.len()).unwrap();
    assert_eq!(out.as_slice(), &data[..]);
}

#[test]
fn decompress_rejects_wrong_compressed_size() {
    let data = b"hello world";
    let payload = deflate(data);
    assert!(matches!(
        decompress(&payload, payload.len() + 1, data.len()),
        Err(LodError::SizeMismatch)
    ));
    assert!(matches!(
        decompress(&payload[..payload.len() - 1], payload.len(), data.len()),
        Err(LodError::SizeMismatch)
    ));
}

#[test]
fn decompress_rejects_wrong_uncompressed_size() {
    let data = b"hello world";
    let payload = deflate(data);
    assert!(matches!(
        decompress(&payload, payload.len(), data.len() + 1),
        Err(LodError::SizeMismatch)
    ));
}

#[test]
fn decompress_rejects_corrupt_stream() {
    let junk = vec![0xAAu8; 16];
    assert!(matches!(decompress(&junk, 16, 4), Err(LodError::Truncated)));
}

#[test]
fn bitmap_decodes_exactly() {
    let pal = test_palette();
    let pixels = [5u8, 6, 7, 8, 9, 10, 11, 12];
    let entry = build_bitmap(4, 2, &pixels, &pal);
    let img = Image::try_from(&entry).unwrap();
    assert_eq!(img.width, 4);
    assert_eq!(img.height, 2);
    assert_eq!(img.data, pixels);
    assert_eq!(img.palette, pal.to_vec());
    assert!(!img.transparency);
}

#[test]
fn bitmap_rejects_zero_pixel_count() {
    let pal = test_palette();
    let mut entry = build_bitmap(4, 2, &[1u8; 8], &pal);
    entry[16..20].copy_from_slice(&0u32.to_le_bytes());
    assert!(matches!(Image::try_from(&entry), Err(LodError::ZeroPixelSize)));
}

#[test]
fn bitmap_rejects_short_entry() {
    let short = vec![1u8; 500];
    assert!(matches!(Image::try_from(&short), Err(LodError::InsufficientData)));
}

#[test]
fn get_image_works() {
    // Rendering reads exactly width * height leading bytes: a buffer with
    // trailing mip bytes renders the same as one without.
    let pal = test_palette();
    let mut pixels = vec![3u8; 6];
    let plain = build_bitmap(3, 2, &pixels, &pal);
    pixels.extend_from_slice(&[42u8; 10]);
    let with_mips = build_bitmap(3, 2, &pixels, &pal);
    let a = Image::try_from(&plain).unwrap().to_image_buffer();
    let b = Image::try_from(&with_mips).unwrap().to_image_buffer();
    assert_eq!(a.width, 3);
    assert_eq!(a.height, 2);
    assert_eq!(a.data.len(), 4 * 3 * 2);
    assert_eq!(a.data, b.data);
    // Pixel 0 is palette index 3: (3, 252, 100), opaque.
    assert_eq!(&a.data[0..4], &[3, 252, 100, 255]);
}

fn palettes_with(id_entries: &[(&str, Vec<u8>)]) -> Palettes {
    let archive = build_archive("MMVI", id_entries);
    let lod = Lod::open(&archive).unwrap();
    Palettes::try_from(&lod).unwrap()
}

#[test]
fn sprite_all_skip_rows_is_fully_transparent() {
    let pal = test_palette();
    let palettes = palettes_with(&[("pal007", build_palette_entry(&pal))]);
    let rows = [(-1i16, -1i16, 0u32), (-1, -1, 0)];
    let entry = build_sprite(3, 2, 7, &rows, &[]);
    let img = Image::try_from_with_palettes(&entry, &palettes).unwrap();
    assert_eq!(img.width, 3);
    assert_eq!(img.height, 2);
    assert_eq!(img.data, vec![0u8; 6]);
    assert!(img.transparency);
    let rgba = img.to_image_buffer();
    for i in 0..6 {
        assert_eq!(rgba.data[4 * i + 3], 0);
    }
}

#[test]
fn sprite_spans_land_at_their_columns() {
    let pal = test_palette();
    let palettes = palettes_with(&[("pal001", build_palette_entry(&pal))]);
    let rows = [(1i16, 2i16, 0u32), (-1, -1, 0)];
    let entry = build_sprite(4, 2, 1, &rows, &[7, 9]);
    let img = Image::try_from_with_palettes(&entry, &palettes).unwrap();
    assert_eq!(img.data, vec![0, 7, 9, 0, 0, 0, 0, 0]);
    let rgba = img.to_image_buffer();
    // Index 7 is opaque; index 0 (also the buffer's first index) is not.
    assert_eq!(rgba.data[4 + 3], 255);
    assert_eq!(rgba.data[3], 0);
}

#[test]
fn sprite_works() {
    let pal = test_palette();
    let pal_entry = build_palette_entry(&pal);
    let rows = [(-1i16, -1i16, 0u32)];
    let sprite_entry = build_sprite(2, 1, 25, &rows, &[]);
    let bitmaps = Lod::open(&build_archive("MMVI", &[("pal025", pal_entry)])).unwrap();
    let sprites = Lod::open(&build_archive("MMVI", &[("rok1", sprite_entry)])).unwrap();
    let mut manager = LodManager::new();
    manager.insert("bitmaps", bitmaps);
    manager.insert("sprites", sprites);
    let rock = manager.sprite("rok1").unwrap();
    // A fully skipped sprite renders to index 0 everywhere: the color of
    // palette entry 0, fully transparent under the index-0 rule.
    assert_eq!((rock.width, rock.height), (2, 1));
    assert_eq!(rock.data, vec![0, 255, 100, 0, 0, 255, 100, 0]);
    assert!(manager.sprite("missing").is_none());
}

#[test]
fn sprite_needs_its_palette() {
    let palettes = palettes_with(&[]);
    let rows = [(-1i16, -1i16, 0u32)];
    let entry = build_sprite(2, 1, 3, &rows, &[]);
    assert!(matches!(
        Image::try_from_with_palettes(&entry, &palettes),
        Err(LodError::PaletteNotFound)
    ));
}

#[test]
fn join_images() {
    let pal = test_palette();
    // Five 128-by-128 bitmaps in rows of 2: the atlas is 256 by 384.
    let names = ["grastyl", "dirttyl", "voltyl", "wtrtyl", "pending"];
    let entries: Vec<(&str, Vec<u8>)> = names
        .iter()
        .enumerate()
        .map(|(i, n)| (*n, build_bitmap(128, 128, &vec![i as u8; 128 * 128], &pal)))
        .collect();
    let bitmaps = Lod::open(&build_archive("MMVI", &entries)).unwrap();
    let mut manager = LodManager::new();
    manager.insert("bitmaps", bitmaps);
    let name_list: Vec<String> = names.iter().map(|s| s.to_string()).collect();
    let atlas = get_atlas(&manager, &name_list, 2).unwrap();
    assert_eq!((atlas.width, atlas.height), (128 * 2, 128 * 3));
    // Tile 1 starts at atlas column 128: its pixels carry palette index 1.
    let p = 4 * (0 * 256 + 128);
    assert_eq!(&atlas.data[p..p + 4], &[1, 254, 100, 255]);
    // The sixth cell holds no tile and stays blank.
    let q = 4 * (256 * 256 + 128);
    assert_eq!(&atlas.data[q..q + 4], &[0, 0, 0, 0]);
}

#[test]
fn atlas_resizes_odd_tiles() {
    let mut pal = test_palette();
    pal[3 * 9] = 200;
    pal[3 * 9 + 1] = 150;
    pal[3 * 9 + 2] = 50;
    // A 1-by-1 bitmap of palette index 9 resized to 128 by 128 keeps its
    // single color everywhere.
    let entries = vec![("lone", build_bitmap(1, 1, &[9u8], &pal))];
    let bitmaps = Lod::open(&build_archive("MMVI", &entries)).unwrap();
    let mut manager = LodManager::new();
    manager.insert("bitmaps", bitmaps);
    let name_list = vec!["lone".to_string()];
    let atlas = get_atlas(&manager, &name_list, 1).unwrap();
    assert_eq!((atlas.width, atlas.height), (128, 128));
    let p = 4 * (40 * 128 + 77);
    assert_eq!(&atlas.data[p..p + 4], &[200, 150, 50, 255]);
}

#[test]
fn atlas_skips_color_keyed_pixels() {
    let mut pal = test_palette();
    // Palette index 2 is the magic color key (0, 255, 255).
    pal[6] = 0;
    pal[7] = 255;
    pal[8] = 255;
    let mut pixels = vec![1u8; 128 * 128];
    pixels[5] = 2;
    let entries = vec![("keyed", build_bitmap(128, 128, &pixels, &pal))];
    let bitmaps = Lod::open(&build_archive("MMVI", &entries)).unwrap();
    let mut manager = LodManager::new();
    manager.insert("bitmaps", bitmaps);
    let name_list = vec!["keyed".to_string()];
    let atlas = get_atlas(&manager, &name_list, 1).unwrap();
    assert_eq!(&atlas.data[4 * 5..4 * 5 + 4], &[0, 0, 0, 0]);
    assert_eq!(&atlas.data[4 * 6..4 * 6 + 4], &[1, 254, 100, 255]);
}

#[test]
fn malformed_palette_entry_is_rejected() {
    // A pal### entry that is not exactly header plus 768 color bytes.
    let archive = build_archive("MMVI", &[("pal004", vec![0u8; 700])]);
    let lod = Lod::open(&archive).unwrap();
    assert!(matches!(
        Palettes::try_from(&lod),
        Err(LodError::MalformedPalette)
    ));
}

#[test]
fn palette_name_without_digits_is_rejected() {
    let pal = test_palette();
    let archive = build_archive("MMVI", &[("palxyz", build_palette_entry(&pal))]);
    let lod = Lod::open(&archive).unwrap();
    assert!(matches!(Palettes::try_from(&lod), Err(LodError::InvalidId)));
}

#[test]
fn palette_lookup_by_id() {
    let pal = test_palette();
    let palettes = palettes_with(&[("pal123", build_palette_entry(&pal))]);
    let found = palettes.get(123).unwrap();
    assert_eq!(found.data, pal.to_vec());
    assert!(palettes.get(124).is_none());
}

#[test]
fn extract_palette_id_reads_trailing_digits() {
    assert_eq!(lod::palette::extract_palette_id("pal042"), Ok(42));
    assert_eq!(lod::palette::extract_palette_id("pal999"), Ok(999));
    assert!(matches!(lod::palette::extract_palette_id("pal"), Err(LodError::InvalidId)));
    assert!(matches!(lod::palette::extract_palette_id("pal0x2"), Err(LodError::InvalidId)));
}

#[test]
fn atlas_reports_missing_bitmaps() {
    let manager = LodManager::new();
    let name_list = vec!["absent".to_string()];
    assert!(matches!(
        get_atlas(&manager, &name_list, 1),
        Err(LodError::MissingAsset)
    ));
}

/// One 80-byte decoration record with the given name and frame index.
fn ddec_record(name: &str, sft: i16) -> Vec<u8> {
    let mut rec = vec![0u8; 80];
    rec[..name.len()].copy_from_slice(name.as_bytes());
    rec[72..74].copy_from_slice(&sft.to_le_bytes());
    rec
}

/// One 56-byte frame record with the given sprite name.
fn dsft_record(sprite_name: &str) -> Vec<u8> {
    let mut rec = vec![0u8; 56];
    rec[..4].copy_from_slice(b"grp0");
    rec[12..12 + sprite_name.len()].copy_from_slice(sprite_name.as_bytes());
    rec
}

/// An archive set with catalogs, palettes and three sprites of telltale
/// widths: the decoration's own name maps to width 3, its frame's name to
/// width 2, and `pending` to width 4.
fn cascade_manager(item_name: &str) -> LodManager {
    let pal = test_palette();
    let skip = [(-1i16, -1i16, 0u32)];
    let sprites = Lod::open(&build_archive(
        "MMVI",
        &[
            ("rok1", build_sprite(3, 1, 7, &skip, &[])),
            ("alt", build_sprite(2, 1, 7, &skip, &[])),
            ("pending", build_sprite(4, 1, 7, &skip, &[])),
        ],
    ))
    .unwrap();
    let bitmaps = Lod::open(&build_archive(
        "MMVI",
        &[("pal007", build_palette_entry(&pal))],
    ))
    .unwrap();
    let mut ddec = (3u32).to_le_bytes().to_vec();
    ddec.extend_from_slice(&ddec_record("unused", 0));
    ddec.extend_from_slice(&ddec_record("unused", 0));
    ddec.extend_from_slice(&ddec_record(item_name, 0));
    let mut dsft = Vec::new();
    dsft.extend_from_slice(&(1u32).to_le_bytes());
    dsft.extend_from_slice(&(0u32).to_le_bytes());
    dsft.extend_from_slice(&dsft_record("alt"));
    let icons = Lod::open(&build_archive(
        "MMVI",
        &[("ddeclist.bin", ddec), ("dsft.bin", dsft)],
    ))
    .unwrap();
    let mut manager = LodManager::new();
    manager.insert("sprites", sprites);
    manager.insert("bitmaps", bitmaps);
    manager.insert("icons", icons);
    manager
}

#[test]
fn sprite_lookup_prefers_the_items_own_name() {
    let manager = cascade_manager("rok1");
    let sm = SpriteManager::new(&manager).unwrap();
    let s = sm.sprite(&manager, "nope", 2).unwrap();
    assert_eq!(s.image.width, 3);
    assert_eq!(&s.d_declist_item.name[..4], b"rok1");
    assert_eq!(s.d_declist_item.sft, 0);
    assert_eq!(&s.d_sft_frame.sprite_name[..3], b"alt");
}

#[test]
fn sprite_lookup_falls_back_to_the_frame_name() {
    let manager = cascade_manager("gone");
    let sm = SpriteManager::new(&manager).unwrap();
    let s = sm.sprite(&manager, "nope", 2).unwrap();
    assert_eq!(s.image.width, 2);
}

#[test]
fn sprite_lookup_ends_at_the_pending_placeholder() {
    let manager = cascade_manager("gone");
    let mut dsft_gone = Vec::new();
    dsft_gone.extend_from_slice(&(1u32).to_le_bytes());
    dsft_gone.extend_from_slice(&(0u32).to_le_bytes());
    dsft_gone.extend_from_slice(&dsft_record("also"));
    let mut ddec = (3u32).to_le_bytes().to_vec();
    for _ in 0..3 {
        ddec.extend_from_slice(&ddec_record("gone", 0));
    }
    let icons = Lod::open(&build_archive(
        "MMVI",
        &[("ddeclist.bin", ddec), ("dsft.bin", dsft_gone)],
    ))
    .unwrap();
    let mut manager = manager;
    manager.insert("icons", icons);
    let bm = BillboardManager::new(&manager).unwrap();
    let s = bm.get(&manager, "nope", 2).unwrap();
    assert_eq!(s.image.width, 4);
}

#[test]
fn sprite_lookup_rejects_out_of_range_ids() {
    let manager = cascade_manager("rok1");
    let sm = SpriteManager::new(&manager).unwrap();
    assert!(sm.sprite(&manager, "nope", 200).is_none());
}

#[test]
fn catalog_managers_need_their_catalogs() {
    let manager = LodManager::new();
    assert!(matches!(SpriteManager::new(&manager), Err(LodError::NotFound)));
    assert!(matches!(
        BillboardManager::new(&manager),
        Err(LodError::NotFound)
    ));
}
