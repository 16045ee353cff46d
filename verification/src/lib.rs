//! Decoder library for a legacy game's LOD archive container and the asset
//! formats stored inside it: zlib-compressed blocks, paletted bitmap and
//! sprite images, tile catalogs, and outdoor maps with BSP-partitioned
//! models and billboard placements.
//!
//! The crate itself does no file or directory I/O: archives are opened from
//! their bytes, and an application shell hands them in and keys each one by
//! its lower-cased base name.

use vstd::prelude::*;

pub mod assoc;
pub mod billboard;
pub mod bsp_model;
pub mod bytes;
pub mod ddeclist;
pub mod dsft;
pub mod dtile;
pub mod error;
pub mod image;
pub mod lod;
pub mod lod_data;
pub mod odm;
pub mod palette;
pub mod sprite;
pub mod zlib;

use crate::assoc::{assoc_map, lemma_assoc_absent, lemma_assoc_agree, lemma_assoc_found};
use crate::error::LodError;
use crate::image::{resolved_bytes, rgba_of, RgbaImage};
use crate::lod::{names_lowered, Lod};
use crate::lod_data::inflated_bytes;
use crate::palette::{
    all_palettes_ok, is_pal_name, palettes_wf, spec_palette_id, spec_palette_table, Palettes,
};
use vstd::string::StrSliceExecFns;
use vstd::string::StringExecFns;

verus! {

/// One archive of the set, keyed by the name the caller gave it.
struct ArchiveSlot {
    name: String,
    lod: Lod,
}

/// A set of open archives addressed by two-level virtual paths of the form
/// `archivename/entryname`.
pub struct LodManager {
    lods: Vec<ArchiveSlot>,
}

/// Index of the first `/` in `p` at or after `i`, or the length of `p` if
/// there is none.
pub open spec fn slash_scan(p: Seq<char>, i: int) -> int
    recommends
        0 <= i <= p.len(),
    decreases p.len() - i,
{
    if i < 0 || i >= p.len() {
        p.len() as int
    } else if p[i] == '/' {
        i
    } else {
        slash_scan(p, i + 1)
    }
}

/// What a two-level path resolves to in an archive set: the prefix before
/// the first `/` names the archive, the suffix names the entry; a path
/// without `/`, an unknown archive or an unknown entry resolves to nothing.
pub open spec fn resolve_spec(m: Map<Seq<char>, Map<Seq<char>, Seq<u8>>>, p: Seq<char>) -> Option<
    Seq<u8>,
> {
    let i = slash_scan(p, 0);
    if i == p.len() {
        None
    } else {
        let a = p.subrange(0, i);
        let e = p.subrange(i + 1, p.len() as int);
        if m.contains_key(a) && m[a].contains_key(e) {
            Some(m[a][e])
        } else {
            None
        }
    }
}

/// The `bitmaps` archive of the set, if there is one, is keyed by
/// lower-cased names. This holds of every archive the library itself
/// opens: `Lod::open` lower-cases every directory name.
pub open spec fn bitmaps_lowered(m: Map<Seq<char>, Map<Seq<char>, Seq<u8>>>) -> bool {
    m.contains_key("bitmaps"@) ==> names_lowered(m["bitmaps"@])
}

/// The named sprite resolves and decodes through the archive set: its
/// entry is under the `sprites` archive, the set holds a `bitmaps`
/// archive whose palette table builds, and the sprite entry decodes
/// against that table.
pub open spec fn sprite_available(m: Map<Seq<char>, Map<Seq<char>, Seq<u8>>>, nm: Seq<char>) -> bool {
    &&& resolve_spec(m, "sprites/"@ + nm) is Some
    &&& m.contains_key("bitmaps"@)
    &&& all_palettes_ok(m["bitmaps"@])
    &&& crate::image::sprite_err(
        crate::image::resolved_bytes(m, "sprites/"@ + nm),
        spec_palette_table(m["bitmaps"@]),
    ) is None
}

/// The full-color image the named sprite renders to: its decoded pixel
/// buffer rendered through the palette its header id names in the
/// `bitmaps` archive's table, transparent on the index at buffer
/// position 0.
pub open spec fn rendered_sprite(
    m: Map<Seq<char>, Map<Seq<char>, Seq<u8>>>,
    nm: Seq<char>,
) -> Seq<u8> {
    let raw = crate::image::resolved_bytes(m, "sprites/"@ + nm);
    let pix = crate::image::sprite_decoded(
        inflated_bytes(raw.skip(32 + 8 * crate::bytes::le16(raw, 18))),
        raw.subrange(32, 32 + 8 * crate::bytes::le16(raw, 18)),
        crate::bytes::le16(raw, 16),
        crate::bytes::le16(raw, 18),
    )->Some_0;
    rgba_of(
        pix,
        spec_palette_table(m["bitmaps"@])[crate::bytes::le16(raw, 20) as u16],
        true,
        crate::bytes::le16(raw, 16) * crate::bytes::le16(raw, 18),
    )
}

impl View for LodManager {
    type V = Map<Seq<char>, Map<Seq<char>, Seq<u8>>>;

    closed spec fn view(&self) -> Map<Seq<char>, Map<Seq<char>, Seq<u8>>> {
        assoc_map(self.lods@.map_values(|s: ArchiveSlot| (s.name@, s.lod@)))
    }
}

impl LodManager {
    /// An empty archive set.
    pub fn new() -> (r: LodManager)
        ensures
            r@ == Map::<Seq<char>, Map<Seq<char>, Seq<u8>>>::empty(),
    {
        LodManager { lods: Vec::new() }
    }

    /// Add an archive under the given name; a later archive with the same
    /// name shadows an earlier one.
    pub fn insert(&mut self, name: &str, lod: Lod)
        ensures
            final(self)@ == old(self)@.insert(name@, lod@),
    {
        let key: String = String::from_str(name);
        let ghost before = self.lods@.map_values(|s: ArchiveSlot| (s.name@, s.lod@));
        self.lods.push(ArchiveSlot { name: key, lod });
        proof {
            let after = self.lods@.map_values(|s: ArchiveSlot| (s.name@, s.lod@));
            lemma_assoc_agree(after, before, before.len() as int);
        }
    }

    /// The archive stored under a name, if the set holds one.
    fn find_lod(&self, name: &str) -> (r: Option<&Lod>)
        ensures
            match r {
                Some(l) => self@.contains_key(name@) && l@ == self@[name@],
                None => !self@.contains_key(name@),
            },
    {
        let key: String = String::from_str(name);
        let n: usize = self.lods.len();
        let ghost pairs = self.lods@.map_values(|s: ArchiveSlot| (s.name@, s.lod@));
        let mut i: usize = n;
        while i > 0
            invariant
                i <= n == self.lods@.len(),
                key@ == name@,
                pairs == self.lods@.map_values(|s: ArchiveSlot| (s.name@, s.lod@)),
                forall|j: int| i <= j < n ==> self.lods@[j].name@ != name@,
            decreases i,
        {
            i -= 1;
            if self.lods[i].name == key {
                proof {
                    lemma_assoc_found(pairs, name@, i as int, n as int);
                }
                return Some(&self.lods[i].lod);
            }
        }
        proof {
            lemma_assoc_absent(pairs, name@, n as int);
        }
        None
    }

    /// Index of the first `/` in the path, or its length if it has none.
    fn find_slash(path: &str) -> (r: usize)
        ensures
            r as int == slash_scan(path@, 0),
            r <= path@.len(),
    {
        let n: usize = path.unicode_len();
        let mut i: usize = 0;
        while i < n
            invariant
                0 <= i <= n == path@.len(),
                slash_scan(path@, 0) == slash_scan(path@, i as int),
            decreases n - i,
        {
            if path.get_char(i) == '/' {
                proof {
                    assert(slash_scan(path@, i as int) == i);
                }
                return i;
            }
            i += 1;
        }
        i
    }

    /// Resolve a two-level `archivename/entryname` path to the bytes of
    /// that entry.
    pub fn try_get_bytes(&self, path: &str) -> (r: Result<&[u8], LodError>)
        ensures
            match r {
                Ok(v) => resolve_spec(self@, path@) == Some(v@),
                Err(e) => resolve_spec(self@, path@) is None && e == LodError::NotFound,
            },
    {
        let n: usize = path.unicode_len();
        let i: usize = Self::find_slash(path);
        if i >= n {
            return Err(LodError::NotFound);
        }
        let archive: &str = path.substring_char(0, i);
        let entry: &str = path.substring_char(i + 1, n);
        match self.find_lod(archive) {
            Some(l) => match l.try_get_bytes(entry) {
                Some(v) => Ok(v),
                None => Err(LodError::NotFound),
            },
            None => Err(LodError::NotFound),
        }
    }

    /// Build the palette table of the archive stored under `bitmaps`.
    pub fn palettes(&self) -> (r: Result<Palettes, LodError>)
        ensures
            !self@.contains_key("bitmaps"@) ==> r == Err::<Palettes, LodError>(LodError::NotFound),
            self@.contains_key("bitmaps"@) ==> {
                let lodm = self@["bitmaps"@];
                &&& (r is Ok <==> all_palettes_ok(lodm))
                &&& match r {
                    Ok(p) => {
                        &&& palettes_wf(p@)
                        &&& (names_lowered(lodm) ==> p@ == spec_palette_table(lodm))
                        &&& forall|nm: Seq<char>| #![auto]
                            lodm.contains_key(nm) && is_pal_name(nm) ==> (
                            spec_palette_id(nm) matches Some(id) && p@.contains_key(id as u16))
                        &&& forall|id: u16| #![auto]
                            p@.contains_key(id) ==> exists|nm: Seq<char>|
                                lodm.contains_key(nm) && is_pal_name(nm) && spec_palette_id(nm)
                                    == Some(id as int) && p@[id] == lodm[nm].subrange(
                                    48,
                                    lodm[nm].len() as int,
                                )
                    },
                    Err(e) => e == LodError::MalformedPalette || e == LodError::InvalidId || e
                        == LodError::NotFound,
                }
            },
    {
        match self.find_lod("bitmaps") {
            Some(l) => Palettes::try_from(l),
            None => Err(LodError::NotFound),
        }
    }

    /// Decode the named sprite out of the `sprites` archive, rendered in
    /// full color through the palette its header names in the `bitmaps`
    /// archive's table. Succeeds exactly when the entry resolves, the
    /// palette table builds, and the sprite decodes; the lowered-names
    /// hypothesis holds of every archive set built through `Lod::open`.
    pub fn sprite(&self, name: &str) -> (r: Option<RgbaImage>)
        ensures
            resolve_spec(self@, "sprites/"@ + name@) is None ==> r is None,
            !self@.contains_key("bitmaps"@) ==> r is None,
            self@.contains_key("bitmaps"@) && !all_palettes_ok(self@["bitmaps"@]) ==> r is None,
            bitmaps_lowered(self@) ==> (r is Some <==> sprite_available(self@, name@)),
            match r {
                Some(img) => {
                    &&& resolve_spec(self@, "sprites/"@ + name@) is Some
                    &&& self@.contains_key("bitmaps"@)
                    &&& all_palettes_ok(self@["bitmaps"@])
                    &&& img.wf()
                    &&& ({
                        let raw = resolved_bytes(self@, "sprites/"@ + name@);
                        &&& raw.len() >= 32
                        &&& img.width == crate::bytes::le16(raw, 16)
                        &&& img.height == crate::bytes::le16(raw, 18)
                    })
                    &&& (bitmaps_lowered(self@) ==> img.data@ == rendered_sprite(self@, name@))
                },
                None => true,
            },
    {
        let mut path: String = String::from_str("sprites/");
        path.append(name);
        let bytes: &[u8] = match self.try_get_bytes(path.as_str()) {
            Ok(v) => v,
            Err(_) => {
                return None;
            },
        };
        let palettes: Palettes = match self.palettes() {
            Ok(p) => p,
            Err(_) => {
                return None;
            },
        };
        let img: crate::image::Image = match crate::image::Image::try_from_with_palettes(
            bytes,
            &palettes,
        ) {
            Ok(v) => v,
            Err(_) => {
                proof {
                    let raw = resolved_bytes(self@, "sprites/"@ + name@);
                    assert(bytes@ == raw);
                    if bitmaps_lowered(self@) {
                        assert(palettes@ == spec_palette_table(self@["bitmaps"@]));
                        assert(crate::image::sprite_err(
                            raw,
                            spec_palette_table(self@["bitmaps"@]),
                        ) is Some);
                    }
                }
                return None;
            },
        };
        let rgba: RgbaImage = img.to_image_buffer();
        proof {
            let raw = resolved_bytes(self@, "sprites/"@ + name@);
            assert(bytes@ == raw);
            assert(rgba.data@ == rgba_of(
                img.data@,
                img.palette@,
                true,
                img.width * img.height,
            ));
            if bitmaps_lowered(self@) {
                assert(palettes@ == spec_palette_table(self@["bitmaps"@]));
                assert(rgba.data@ == rendered_sprite(self@, name@));
            }
        }
        Some(rgba)
    }
}

} // verus!
