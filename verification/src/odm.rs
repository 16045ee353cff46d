//! The outdoor map: fixed-offset header strings, the 8-entry tile-group
//! remap vector, three 128-by-128 byte grids, the BSP model batch and the
//! placed billboards.

use vstd::prelude::*;

use crate::billboard::{
    billboard_matches, billboard_name_at, billboards_names_ok, billboards_size_ok,
    read_billboards, Billboard,
};
use crate::bsp_model::{body_at, bsp_err, model_matches, read_bsp_models, BSPModel};
use crate::bytes::{is_ascii_seq, le16, le32, name_in_block, nul_scan, text_in_block};
use crate::dtile::{
    is_drr_name, source_index, table_names, tile_display_name, tile_rec_at, Dtile, TileTable,
};
use crate::error::LodError;
use crate::image::name_views;
use crate::lod_data::{entry_plain_bytes, LodData};
use crate::resolve_spec;
use crate::LodManager;

verus! {

/// Side length of the map's grids, in tiles.
pub const ODM_SIZE: usize = 128;

/// Side length of the playable area, in tiles.
pub const ODM_PLAY_SIZE: usize = 88;

/// Number of cells in one map grid.
pub const ODM_AREA: usize = 16384;

/// Byte offset of the height grid.
pub const HEIGHT_MAP_OFFSET: usize = 176;

/// Byte offset of the tile index grid.
pub const TILE_MAP_OFFSET: usize = 16560;

/// Byte offset of the attribute grid.
pub const ATTRIBUTE_MAP_OFFSET: usize = 32944;

/// Byte offset of the BSP model count.
pub const BSP_COUNT_OFFSET: usize = 49328;

/// Byte offset of the first BSP model header.
pub const BSP_MODELS_OFFSET: usize = 49332;

/// One of the three 32-byte header text blocks is not ASCII.
pub open spec fn odm_strings_ok(d: Seq<u8>) -> bool {
    &&& is_ascii_seq(d.subrange(64, nul_scan(d, 64, 96)))
    &&& is_ascii_seq(d.subrange(96, nul_scan(d, 96, 128)))
    &&& is_ascii_seq(d.subrange(128, nul_scan(d, 128, 160)))
}

/// Why decoding an outdoor map's plain bytes fails, if it does.
pub open spec fn odm_err(d: Seq<u8>) -> Option<LodError> {
    if d.len() < 49332 {
        Some(LodError::Truncated)
    } else if !odm_strings_ok(d) {
        Some(LodError::InvalidFormat)
    } else {
        let n = le32(d, 49328);
        match bsp_err(d, 49332, n) {
            Some(e) => Some(e),
            None => {
                let be = body_at(d, 49332, n, n);
                if be + 4 > d.len() {
                    Some(LodError::Truncated)
                } else {
                    let bc = le32(d, be);
                    if !billboards_size_ok(d, be + 4, bc) {
                        Some(LodError::Truncated)
                    } else if !billboards_names_ok(d, be + 4, bc) {
                        Some(LodError::InvalidFormat)
                    } else {
                        None
                    }
                }
            },
        }
    }
}

/// A decoded outdoor map.
pub struct Odm {
    /// The map entry name it was decoded from.
    pub name: String,
    /// The format version string.
    pub odm_version: String,
    /// The sky texture name.
    pub sky_texture: String,
    /// The ground texture name.
    pub ground_texture: String,
    /// The 8-entry tile-group remap vector.
    pub tile_data: Vec<u16>,
    /// The 128-by-128 height grid, row-major.
    pub height_map: Vec<u8>,
    /// The 128-by-128 tile index grid, row-major.
    pub tile_map: Vec<u8>,
    /// The 128-by-128 attribute grid, row-major.
    pub attribute_map: Vec<u8>,
    /// The BSP models, in file order.
    pub bsp_models: Vec<BSPModel>,
    /// The placed billboards, in file order.
    pub billboards: Vec<Billboard>,
}

impl Odm {
    /// Decode an outdoor map out of an archive set: resolve
    /// `games/<name>`, strip its compression framing, and read the whole
    /// fixed layout.
    pub fn new(lod_manager: &LodManager, name: &str) -> (r: Result<Odm, LodError>)
        ensures
            match resolve_spec(lod_manager@, "games/"@ + name@) {
                None => r == Err::<Odm, LodError>(LodError::NotFound),
                Some(raw) => {
                    let d = entry_plain_bytes(raw);
                    match r {
                        Ok(o) => {
                            &&& odm_err(d) is None
                            &&& o.name@ == name@
                            &&& o.odm_version@ == text_in_block(d, 64, 32)
                            &&& o.sky_texture@ == text_in_block(d, 96, 32)
                            &&& o.ground_texture@ == text_in_block(d, 128, 32)
                            &&& o.tile_data@.len() == 8
                            &&& forall|k: int|
                                0 <= k < 8 ==> (#[trigger] o.tile_data@[k]) == le16(
                                    d,
                                    160 + 2 * k,
                                )
                            &&& o.height_map@ == d.subrange(176, 16560)
                            &&& o.tile_map@ == d.subrange(16560, 32944)
                            &&& o.attribute_map@ == d.subrange(32944, 49328)
                            &&& o.bsp_models@.len() == le32(d, 49328)
                            &&& forall|i: int|
                                0 <= i < o.bsp_models@.len() ==> model_matches(
                                    d,
                                    49332,
                                    i,
                                    body_at(d, 49332, le32(d, 49328), i),
                                    #[trigger] o.bsp_models@[i],
                                )
                            &&& o.billboards@.len() == le32(
                                d,
                                body_at(d, 49332, le32(d, 49328), le32(d, 49328)),
                            )
                            &&& forall|i: int|
                                0 <= i < o.billboards@.len() ==> billboard_matches(
                                    d,
                                    body_at(d, 49332, le32(d, 49328), le32(d, 49328)) + 4,
                                    i,
                                    (#[trigger] o.billboards@[i]).data,
                                )
                            &&& forall|i: int|
                                0 <= i < o.billboards@.len()
                                    ==> (#[trigger] o.billboards@[i]).declist_name@
                                    == name_in_block(
                                    d,
                                    billboard_name_at(
                                        body_at(d, 49332, le32(d, 49328), le32(d, 49328)) + 4,
                                        o.billboards@.len() as int,
                                        i,
                                    ),
                                    32,
                                )
                        },
                        Err(e) => odm_err(d) == Some(e),
                    }
                },
            },
    {
        let mut path: String = <String as vstd::string::StringExecFns>::from_str("games/");
        <String as vstd::string::StringExecFns>::append(&mut path, name);
        let raw: &[u8] = match lod_manager.try_get_bytes(path.as_str()) {
            Ok(v) => v,
            Err(e) => {
                return Err(e);
            },
        };
        let data: LodData = LodData::try_from(raw);
        let d: &[u8] = data.data.as_slice();
        let len: usize = d.len();
        if len < 49332 {
            return Err(LodError::Truncated);
        }
        let odm_version: String = match crate::bytes::read_text_block(d, 64, 32) {
            Some(s) => s,
            None => {
                return Err(LodError::InvalidFormat);
            },
        };
        let sky_texture: String = match crate::bytes::read_text_block(d, 96, 32) {
            Some(s) => s,
            None => {
                return Err(LodError::InvalidFormat);
            },
        };
        let ground_texture: String = match crate::bytes::read_text_block(d, 128, 32) {
            Some(s) => s,
            None => {
                return Err(LodError::InvalidFormat);
            },
        };
        let mut tile_data: Vec<u16> = Vec::new();
        let mut k: usize = 0;
        while k < 8
            invariant
                k <= 8,
                176 <= d@.len(),
                d@.len() <= usize::MAX,
                tile_data@.len() == k,
                forall|q: int|
                    0 <= q < k ==> (#[trigger] tile_data@[q]) == le16(d@, 160 + 2 * q),
            decreases 8 - k,
        {
            tile_data.push(crate::bytes::read_u16_le(d, 160 + 2 * k));
            k += 1;
        }
        let height_map: Vec<u8> = crate::bytes::copy_range(d, 176, 16560);
        let tile_map: Vec<u8> = crate::bytes::copy_range(d, 16560, 32944);
        let attribute_map: Vec<u8> = crate::bytes::copy_range(d, 32944, 49328);
        let bsp_count: u32 = crate::bytes::read_u32_le(d, 49328);
        let (bsp_models, bsp_end): (Vec<BSPModel>, usize) = match read_bsp_models(
            d,
            49332,
            bsp_count as usize,
        ) {
            Ok(v) => v,
            Err(e) => {
                return Err(e);
            },
        };
        if bsp_end > len - 4 {
            return Err(LodError::Truncated);
        }
        let bb_count: u32 = crate::bytes::read_u32_le(d, bsp_end);
        let billboards: Vec<Billboard> = match read_billboards(
            d,
            bsp_end + 4,
            bb_count as usize,
        ) {
            Ok(v) => v,
            Err(e) => {
                return Err(e);
            },
        };
        let name_s: String = <String as vstd::string::StringExecFns>::from_str(name);
        Ok(
            Odm {
                name: name_s,
                odm_version,
                sky_texture,
                ground_texture,
                tile_data,
                height_map,
                tile_map,
                attribute_map,
                bsp_models,
                billboards,
            },
        )
    }

    /// The map's grid dimensions, in tiles.
    pub fn size(&self) -> (r: (usize, usize))
        ensures
            r == (128usize, 128usize),
    {
        (ODM_SIZE, ODM_SIZE)
    }
}

/// The display name of catalog record `j` in the raw catalog bytes.
pub open spec fn catalog_display_name(d: Seq<u8>, j: int) -> Seq<char> {
    tile_display_name(d.subrange(tile_rec_at(j), tile_rec_at(j) + 16))
}

/// The resolved display names of all 256 terrain tile indices, read off
/// the raw catalog bytes through a map's remap vector.
pub open spec fn map_table_names(d: Seq<u8>, td: Seq<u16>) -> Seq<Seq<char>> {
    Seq::new(256, |i: int| catalog_display_name(d, source_index(td, i)))
}

impl Odm {
    /// Derive this map's tile table: decode the tile catalog from the
    /// archive set and resolve it through the map's remap vector.
    pub fn tile_table(&self, lod_manager: &LodManager) -> (r: Result<TileTable, LodError>)
        requires
            self.tile_data@.len() == 8,
        ensures
            match resolve_spec(lod_manager@, "icons/dtile.bin"@) {
                None => r == Err::<TileTable, LodError>(LodError::NotFound),
                Some(raw) => {
                    let d = entry_plain_bytes(raw);
                    &&& (r is Ok <==> (crate::dtile::dtile_ok(d) && (forall|i: int|
                        0 <= i < 256 ==> source_index(self.tile_data@, i) < crate::bytes::le32(
                            d,
                            0,
                        )) && (exists|k: int|
                        0 <= k < 256 && !is_drr_name(
                            #[trigger] map_table_names(d, self.tile_data@)[k],
                        ))))
                    &&& match r {
                        Ok(t) => {
                            &&& t.wf()
                            &&& name_views(t.names_table@) == map_table_names(
                                d,
                                self.tile_data@,
                            )
                        },
                        Err(e) => e == (if !crate::dtile::dtile_ok(d) {
                            LodError::Truncated
                        } else {
                            LodError::NotFound
                        }),
                    }
                },
            },
    {
        let dtile: Dtile = match Dtile::new(lod_manager) {
            Ok(t) => t,
            Err(e) => {
                return Err(e);
            },
        };
        proof {
            assert forall|i: int| 0 <= i < dtile.tiles@.len() implies (
            #[trigger] dtile.tiles@[i]).name@.len() == 16 by {
                assert(crate::dtile::tile_matches(
                    entry_plain_bytes(resolve_spec(lod_manager@, "icons/dtile.bin"@)->Some_0),
                    i,
                    dtile.tiles@[i],
                ));
            }
        }
        proof {
            let d = entry_plain_bytes(resolve_spec(lod_manager@, "icons/dtile.bin"@)->Some_0);
            if forall|i: int|
                0 <= i < 256 ==> source_index(self.tile_data@, i) < dtile.tiles@.len() {
                assert forall|i: int| 0 <= i < 256 implies table_names(
                    dtile.tiles@,
                    self.tile_data@,
                )[i] == map_table_names(d, self.tile_data@)[i] by {
                    let si = source_index(self.tile_data@, i);
                    assert(source_index(self.tile_data@, i) < dtile.tiles@.len());
                    assert(crate::dtile::tile_matches(d, si, dtile.tiles@[si]));
                }
                assert(table_names(dtile.tiles@, self.tile_data@) =~= map_table_names(
                    d,
                    self.tile_data@,
                ));
            }
        }
        match dtile.table(&self.tile_data) {
            Some(t) => Ok(t),
            None => Err(LodError::NotFound),
        }
    }
}

/// The characters a map name spells: `out`, the column and row letters,
/// and the `.odm` suffix.
pub open spec fn map_name_spec(x: char, y: char) -> Seq<char> {
    seq!['o', 'u', 't', x, y, '.', 'o', 'd', 'm']
}

/// An outdoor map's grid name: a column letter `a` through `e` and a row
/// digit `1` through `3`, spelling the entry name `out<x><y>.odm`.
pub struct OdmName {
    /// The column letter, `a` through `e`.
    pub x: char,
    /// The row digit, `1` through `3`.
    pub y: char,
}

impl OdmName {
    /// The coordinates lie on the game's map grid.
    pub open spec fn wf(&self) -> bool {
        &&& ('a' <= self.x && self.x <= 'e')
        &&& ('1' <= self.y && self.y <= '3')
    }

    /// Parse a map name: the characters at positions 3 and 4 must be a
    /// grid column letter and row digit.
    pub fn try_from(value: &str) -> (r: Result<OdmName, LodError>)
        ensures
            match r {
                Ok(n) => {
                    &&& value@.len() >= 5
                    &&& n.wf()
                    &&& n.x == value@[3]
                    &&& n.y == value@[4]
                },
                Err(e) => {
                    &&& e == LodError::InvalidFormat
                    &&& (value@.len() < 5 || !(OdmName { x: value@[3], y: value@[4] }).wf())
                },
            },
    {
        let n: usize = vstd::string::StrSliceExecFns::unicode_len(value);
        if n < 5 {
            return Err(LodError::InvalidFormat);
        }
        let x: char = vstd::string::StrSliceExecFns::get_char(value, 3);
        let y: char = vstd::string::StrSliceExecFns::get_char(value, 4);
        if !(('a' <= x && x <= 'e') && ('1' <= y && y <= '3')) {
            return Err(LodError::InvalidFormat);
        }
        Ok(OdmName { x, y })
    }

    /// The neighbor one row north, if the grid goes on there.
    pub fn go_north(&self) -> (r: Option<OdmName>)
        requires
            self.wf(),
        ensures
            match r {
                Some(m) => m.wf() && m.x == self.x && m.y as int == self.y as int - 1,
                None => self.y == '1',
            },
    {
        let y: char = match self.y {
            '3' => '2',
            '2' => '1',
            _ => {
                return None;
            },
        };
        Some(OdmName { x: self.x, y })
    }

    /// The neighbor one column west, if the grid goes on there.
    pub fn go_west(&self) -> (r: Option<OdmName>)
        requires
            self.wf(),
        ensures
            match r {
                Some(m) => m.wf() && m.y == self.y && m.x as int == self.x as int - 1,
                None => self.x == 'a',
            },
    {
        let x: char = match self.x {
            'e' => 'd',
            'd' => 'c',
            'c' => 'b',
            'b' => 'a',
            _ => {
                return None;
            },
        };
        Some(OdmName { x, y: self.y })
    }

    /// The neighbor one row south, if the grid goes on there.
    pub fn go_south(&self) -> (r: Option<OdmName>)
        requires
            self.wf(),
        ensures
            match r {
                Some(m) => m.wf() && m.x == self.x && m.y as int == self.y as int + 1,
                None => self.y == '3',
            },
    {
        let y: char = match self.y {
            '1' => '2',
            '2' => '3',
            _ => {
                return None;
            },
        };
        Some(OdmName { x: self.x, y })
    }

    /// The neighbor one column east, if the grid goes on there.
    pub fn go_east(&self) -> (r: Option<OdmName>)
        requires
            self.wf(),
        ensures
            match r {
                Some(m) => m.wf() && m.y == self.y && m.x as int == self.x as int + 1,
                None => self.x == 'e',
            },
    {
        let x: char = match self.x {
            'a' => 'b',
            'b' => 'c',
            'c' => 'd',
            'd' => 'e',
            _ => {
                return None;
            },
        };
        Some(OdmName { x, y: self.y })
    }

    /// The archive entry name the coordinates spell.
    pub fn map_name(&self) -> (r: String)
        requires
            self.wf(),
        ensures
            r@ == map_name_spec(self.x, self.y),
    {
        let bytes: Vec<u8> = vec![
            111u8,
            117u8,
            116u8,
            self.x as u8,
            self.y as u8,
            46u8,
            111u8,
            100u8,
            109u8,
        ];
        let r: String = crate::bytes::ascii_to_string(bytes);
        proof {
            assert(r@ =~= map_name_spec(self.x, self.y));
        }
        r
    }
}

impl Default for OdmName {
    /// The game's starting map, column `e` row `3`.
    fn default() -> (r: OdmName)
        ensures
            r.wf(),
            r.x == 'e',
            r.y == '3',
    {
        OdmName { x: 'e', y: '3' }
    }
}

} // verus!
