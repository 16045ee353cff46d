//! Billboard (entity) placements of an outdoor map: fixed 28-byte data
//! records followed by one 32-byte trailing name block per record, the
//! names lower-cased on read.

use vstd::prelude::*;

use crate::bytes::{as_i16, as_i32, is_ascii_seq, le16, le32, name_in_block, nul_scan};
use crate::error::LodError;

verus! {

/// Byte size of one billboard data record.
pub const BILLBOARD_RECORD_SIZE: usize = 28;

/// Byte size of one trailing billboard name block.
pub const BILLBOARD_NAME_SIZE: usize = 32;

/// One placed billboard's data record.
pub struct BillboardData {
    /// Reference into the decoration catalog.
    pub declist_id: u16,
    /// Attribute bits.
    pub attributes: u16,
    /// World position, three coordinates.
    pub position: Vec<i32>,
    /// Facing direction.
    pub direction: i32,
    /// Event variable.
    pub event_variable: i16,
    /// Event id.
    pub event: i16,
    /// Trigger radius.
    pub trigger_radius: i16,
    /// Facing direction in degrees.
    pub direction_degrees: i16,
}

impl BillboardData {
    /// The billboard triggers on touch.
    pub fn is_triggered_by_touch(&self) -> (r: bool)
        ensures
            r == ((self.attributes & 0x0001) != 0),
    {
        (self.attributes & 0x0001) != 0
    }

    /// The billboard triggers on a monster.
    pub fn is_triggered_by_monster(&self) -> (r: bool)
        ensures
            r == ((self.attributes & 0x0002) != 0),
    {
        (self.attributes & 0x0002) != 0
    }

    /// The billboard triggers on an object.
    pub fn is_triggered_by_object(&self) -> (r: bool)
        ensures
            r == ((self.attributes & 0x0004) != 0),
    {
        (self.attributes & 0x0004) != 0
    }

    /// The billboard is shown on the map.
    pub fn is_shown_on_map(&self) -> (r: bool)
        ensures
            r == ((self.attributes & 0x0010) != 0),
    {
        (self.attributes & 0x0010) != 0
    }

    /// The billboard is a chest.
    pub fn is_chest(&self) -> (r: bool)
        ensures
            r == ((self.attributes & 0x0020) != 0),
    {
        (self.attributes & 0x0020) != 0
    }

    /// The billboard is invisible.
    pub fn is_invisible(&self) -> (r: bool)
        ensures
            r == ((self.attributes & 0x0040) != 0),
    {
        (self.attributes & 0x0040) != 0
    }

    /// The billboard is a ship.
    pub fn is_ship(&self) -> (r: bool)
        ensures
            r == ((self.attributes & 0x0080) != 0),
    {
        (self.attributes & 0x0080) != 0
    }
}

/// A placed billboard: its resolved lower-cased name and its data record.
pub struct Billboard {
    /// The lower-cased catalog name read from the trailing name block.
    pub declist_name: String,
    /// The fixed data record.
    pub data: BillboardData,
}

/// Billboard data record `i` of a block starting at `at` has exactly the
/// given fields.
pub open spec fn billboard_matches(d: Seq<u8>, at: int, i: int, b: BillboardData) -> bool {
    let p = at + 28 * i;
    &&& b.declist_id == le16(d, p)
    &&& b.attributes == le16(d, p + 2)
    &&& b.position@.len() == 3
    &&& forall|k: int| 0 <= k < 3 ==> (#[trigger] b.position@[k]) as int == as_i32(
        le32(d, p + 4 + 4 * k),
    )
    &&& b.direction as int == as_i32(le32(d, p + 16))
    &&& b.event_variable as int == as_i16(le16(d, p + 20))
    &&& b.event as int == as_i16(le16(d, p + 22))
    &&& b.trigger_radius as int == as_i16(le16(d, p + 24))
    &&& b.direction_degrees as int == as_i16(le16(d, p + 26))
}

/// Start of billboard `i`'s trailing name block, after `count` data
/// records at `at`.
pub open spec fn billboard_name_at(at: int, count: int, i: int) -> int {
    at + 28 * count + 32 * i
}

/// The whole billboard block lies inside the bytes.
pub open spec fn billboards_size_ok(d: Seq<u8>, at: int, count: int) -> bool {
    at + 28 * count + 32 * count <= d.len()
}

/// Every billboard name's bytes are ASCII.
pub open spec fn billboards_names_ok(d: Seq<u8>, at: int, count: int) -> bool {
    forall|i: int|
        0 <= i < count ==> is_ascii_seq(
            #[trigger] d.subrange(
                billboard_name_at(at, count, i),
                nul_scan(d, billboard_name_at(at, count, i), billboard_name_at(at, count, i) + 32),
            ),
        )
}

/// Read `count` billboards out of `d` at offset `at`: the data records
/// first, then the name blocks, names lower-cased.
pub fn read_billboards(d: &[u8], at: usize, count: usize) -> (r: Result<Vec<Billboard>, LodError>)
    requires
        at <= d@.len(),
        count <= 0xffffffff,
    ensures
        r is Ok <==> (billboards_size_ok(d@, at as int, count as int) && billboards_names_ok(
            d@,
            at as int,
            count as int,
        )),
        match r {
            Ok(v) => {
                &&& v@.len() == count
                &&& forall|i: int|
                    0 <= i < count ==> billboard_matches(
                        d@,
                        at as int,
                        i,
                        (#[trigger] v@[i]).data,
                    )
                &&& forall|i: int|
                    0 <= i < count ==> (#[trigger] v@[i]).declist_name@ == name_in_block(
                        d@,
                        billboard_name_at(at as int, count as int, i),
                        32,
                    )
            },
            Err(e) => e == (if !billboards_size_ok(d@, at as int, count as int) {
                LodError::Truncated
            } else {
                LodError::InvalidFormat
            }),
        },
{
    let len: usize = d.len();
    if 28 * (count as u64) + 32 * (count as u64) > (len - at) as u64 {
        return Err(LodError::Truncated);
    }
    let names_base: usize = at + 28 * count;
    let mut out: Vec<Billboard> = Vec::new();
    let mut i: usize = 0;
    while i < count
        invariant
            i <= count,
            at + 28 * count + 32 * count <= len == d@.len(),
            names_base == at + 28 * count,
            out@.len() == i,
            forall|j: int|
                0 <= j < i ==> billboard_matches(d@, at as int, j, (#[trigger] out@[j]).data),
            forall|j: int|
                0 <= j < i ==> (#[trigger] out@[j]).declist_name@ == name_in_block(
                    d@,
                    billboard_name_at(at as int, count as int, j),
                    32,
                ),
            forall|j: int|
                0 <= j < i ==> is_ascii_seq(
                    #[trigger] d@.subrange(
                        billboard_name_at(at as int, count as int, j),
                        nul_scan(
                            d@,
                            billboard_name_at(at as int, count as int, j),
                            billboard_name_at(at as int, count as int, j) + 32,
                        ),
                    ),
                ),
        decreases count - i,
    {
        let p: usize = at + 28 * i;
        let mut position: Vec<i32> = Vec::new();
        let mut k: usize = 0;
        while k < 3
            invariant
                k <= 3,
                p + 28 <= d@.len(),
                d@.len() <= usize::MAX,
                position@.len() == k,
                forall|q: int|
                    0 <= q < k ==> (#[trigger] position@[q]) as int == as_i32(
                        le32(d@, p + 4 + 4 * q),
                    ),
            decreases 3 - k,
        {
            position.push(crate::bytes::read_i32_le(d, p + 4 + 4 * k));
            k += 1;
        }
        let data = BillboardData {
            declist_id: crate::bytes::read_u16_le(d, p),
            attributes: crate::bytes::read_u16_le(d, p + 2),
            position,
            direction: crate::bytes::read_i32_le(d, p + 16),
            event_variable: crate::bytes::read_i16_le(d, p + 20),
            event: crate::bytes::read_i16_le(d, p + 22),
            trigger_radius: crate::bytes::read_i16_le(d, p + 24),
            direction_degrees: crate::bytes::read_i16_le(d, p + 26),
        };
        let nb: usize = names_base + 32 * i;
        let declist_name: String = match crate::bytes::read_name_block(d, nb, 32) {
            Some(s) => s,
            None => {
                proof {
                    let nbs = billboard_name_at(at as int, count as int, i as int);
                    assert(nb as int == nbs);
                    assert(!is_ascii_seq(d@.subrange(nbs, nul_scan(d@, nbs, nbs + 32))));
                    assert(!billboards_names_ok(d@, at as int, count as int));
                }
                return Err(LodError::InvalidFormat);
            },
        };
        out.push(Billboard { declist_name, data });
        i += 1;
    }
    Ok(out)
}

/// The two catalogs a billboard sprite lookup needs, decoded once.
pub struct BillboardManager {
    d_declist: crate::ddeclist::DDecList,
    d_sft: crate::dsft::DSFT,
}

/// A resolved billboard sprite: its rendered image and the two catalog
/// records it was resolved through.
pub struct BillboardSprite {
    /// The rendered sprite image.
    pub image: crate::image::RgbaImage,
    /// The decoration record the id named.
    pub d_declist_item: crate::ddeclist::DDecListItem,
    /// The frame record the decoration named.
    pub d_sft_frame: crate::dsft::DSFTFrame,
}

impl BillboardManager {
    /// The decoration records the manager holds.
    pub closed spec fn spec_items(&self) -> Seq<crate::ddeclist::DDecListItem> {
        self.d_declist.items@
    }

    /// The frame records the manager holds.
    pub closed spec fn spec_frames(&self) -> Seq<crate::dsft::DSFTFrame> {
        self.d_sft.frames@
    }

    /// The group start indices the manager holds.
    pub closed spec fn spec_groups(&self) -> Seq<u16> {
        self.d_sft.groups@
    }

    /// Every stored record's name blocks are whole.
    pub open spec fn wf(&self) -> bool {
        &&& forall|i: int|
            0 <= i < self.spec_items().len() ==> (#[trigger] self.spec_items()[i]).name@.len()
                == 32 && self.spec_items()[i].game_name@.len() == 32
        &&& forall|i: int|
            0 <= i < self.spec_frames().len() ==> (
            #[trigger] self.spec_frames()[i]).group_name@.len() == 12
                && self.spec_frames()[i].sprite_name@.len() == 12
    }

    /// Decode both catalogs out of an archive set: the manager holds
    /// exactly the records of `icons/ddeclist.bin` and `icons/dsft.bin`.
    pub fn new(lod_manager: &crate::LodManager) -> (r: Result<BillboardManager, LodError>)
        ensures
            r is Ok <==> crate::sprite::catalogs_err(lod_manager@) is None,
            match r {
                Ok(bm) => {
                    &&& bm.wf()
                    &&& ({
                        let dd = crate::lod_data::entry_plain_bytes(
                            crate::resolve_spec(lod_manager@, "icons/ddeclist.bin"@)->Some_0,
                        );
                        &&& bm.spec_items().len() == crate::bytes::le32(dd, 0)
                        &&& forall|i: int|
                            0 <= i < bm.spec_items().len() ==> crate::ddeclist::ddec_item_matches(
                                dd,
                                i,
                                #[trigger] bm.spec_items()[i],
                            )
                    })
                    &&& ({
                        let ds = crate::lod_data::entry_plain_bytes(
                            crate::resolve_spec(lod_manager@, "icons/dsft.bin"@)->Some_0,
                        );
                        &&& bm.spec_frames().len() == crate::bytes::le32(ds, 0)
                        &&& bm.spec_groups().len() == crate::bytes::le32(ds, 4)
                        &&& forall|i: int|
                            0 <= i < bm.spec_frames().len() ==> crate::dsft::dsft_frame_matches(
                                ds,
                                i,
                                #[trigger] bm.spec_frames()[i],
                            )
                        &&& forall|i: int|
                            0 <= i < bm.spec_groups().len() ==> (#[trigger] bm.spec_groups()[i])
                                == crate::bytes::le16(
                                ds,
                                8 + 56 * crate::bytes::le32(ds, 0) + 2 * i,
                            )
                    })
                },
                Err(e) => crate::sprite::catalogs_err(lod_manager@) == Some(e),
            },
    {
        let d_declist: crate::ddeclist::DDecList = match crate::ddeclist::DDecList::new(
            lod_manager,
        ) {
            Ok(v) => v,
            Err(e) => {
                return Err(e);
            },
        };
        let d_sft: crate::dsft::DSFT = match crate::dsft::DSFT::new(lod_manager) {
            Ok(v) => v,
            Err(e) => {
                return Err(e);
            },
        };
        let bm = BillboardManager { d_declist, d_sft };
        proof {
            let dd = crate::lod_data::entry_plain_bytes(
                crate::resolve_spec(lod_manager@, "icons/ddeclist.bin"@)->Some_0,
            );
            assert forall|i: int| 0 <= i < bm.spec_items().len() implies (
            #[trigger] bm.spec_items()[i]).name@.len() == 32
                && bm.spec_items()[i].game_name@.len() == 32 by {
                assert(crate::ddeclist::ddec_item_matches(dd, i, bm.spec_items()[i]));
            }
            let ds = crate::lod_data::entry_plain_bytes(
                crate::resolve_spec(lod_manager@, "icons/dsft.bin"@)->Some_0,
            );
            assert forall|i: int| 0 <= i < bm.spec_frames().len() implies (
            #[trigger] bm.spec_frames()[i]).group_name@.len() == 12
                && bm.spec_frames()[i].sprite_name@.len() == 12 by {
                assert(crate::dsft::dsft_frame_matches(ds, i, bm.spec_frames()[i]));
            }
        }
        Ok(bm)
    }

    /// Resolve a billboard's sprite by decoration id, with the same name
    /// fallback chain as a plain sprite lookup; the returned records are
    /// copies of the ones at the id and at its frame index. The
    /// lowered-names hypothesis holds of every archive set built through
    /// `Lod::open`.
    pub fn get(
        &self,
        lod_manager: &crate::LodManager,
        name: &str,
        declist_id: u16,
    ) -> (r: Option<BillboardSprite>)
        requires
            self.wf(),
        ensures
            crate::bitmaps_lowered(lod_manager@) ==> (r is Some
                <==> crate::sprite::catalog_lookup_succeeds(
                lod_manager@,
                self.spec_items(),
                self.spec_frames(),
                name@,
                declist_id as int,
            )),
            match r {
                Some(s) => {
                    &&& declist_id < self.spec_items().len()
                    &&& crate::ddeclist::same_ddec_item(
                        s.d_declist_item,
                        self.spec_items()[declist_id as int],
                    )
                    &&& 0 <= crate::sprite::catalog_frame_index(
                        self.spec_items(),
                        declist_id as int,
                    ) < self.spec_frames().len()
                    &&& crate::dsft::same_dsft_frame(
                        s.d_sft_frame,
                        self.spec_frames()[crate::sprite::catalog_frame_index(
                            self.spec_items(),
                            declist_id as int,
                        )],
                    )
                    &&& s.image.wf()
                    &&& (crate::bitmaps_lowered(lod_manager@) ==> s.image.data@
                        == crate::rendered_sprite(
                        lod_manager@,
                        crate::sprite::chosen_sprite_name(
                            lod_manager@,
                            crate::sprite::catalog_item_name(
                                self.spec_items(),
                                declist_id as int,
                            ),
                            crate::sprite::catalog_frame_name(
                                self.spec_frames(),
                                crate::sprite::catalog_frame_index(
                                    self.spec_items(),
                                    declist_id as int,
                                ),
                            ),
                            name@,
                        ),
                    ))
                },
                None => true,
            },
    {
        let item: &crate::ddeclist::DDecListItem = match self.d_declist.items.get(
            declist_id as usize,
        ) {
            Some(v) => v,
            None => {
                return None;
            },
        };
        proof {
            assert(*item == self.spec_items()[declist_id as int]);
        }
        let sft_index: i16 = item.sft_index();
        if sft_index < 0 {
            return None;
        }
        let frame: &crate::dsft::DSFTFrame = match self.d_sft.frames.get(sft_index as usize) {
            Some(v) => v,
            None => {
                return None;
            },
        };
        proof {
            assert(*frame == self.spec_frames()[sft_index as int]);
        }
        let item_name: String = match item.name() {
            Some(s) => s,
            None => {
                return None;
            },
        };
        let ghost m = lod_manager@;
        let ghost n1 = crate::sprite::catalog_item_name(self.spec_items(), declist_id as int);
        let ghost fx = crate::sprite::catalog_frame_index(self.spec_items(), declist_id as int);
        let ghost n2 = crate::sprite::catalog_frame_name(self.spec_frames(), fx);
        proof {
            assert(item_name@ == n1);
        }
        let image: crate::image::RgbaImage = match lod_manager.sprite(item_name.as_str()) {
            Some(img) => {
                proof {
                    if crate::bitmaps_lowered(m) {
                        assert(crate::sprite_available(m, n1));
                        assert(crate::sprite::chosen_sprite_name(m, n1, n2, name@) == n1);
                    }
                }
                img
            },
            None => {
                let frame_name: String = match frame.sprite_name() {
                    Some(s) => s,
                    None => {
                        return None;
                    },
                };
                proof {
                    assert(frame_name@ == n2);
                }
                match lod_manager.sprite(frame_name.as_str()) {
                    Some(img) => {
                        proof {
                            if crate::bitmaps_lowered(m) {
                                assert(!crate::sprite_available(m, n1));
                                assert(crate::sprite_available(m, n2));
                                assert(crate::sprite::chosen_sprite_name(m, n1, n2, name@)
                                    == n2);
                            }
                        }
                        img
                    },
                    None => match lod_manager.sprite(name) {
                        Some(img) => {
                            proof {
                                if crate::bitmaps_lowered(m) {
                                    assert(!crate::sprite_available(m, n1));
                                    assert(!crate::sprite_available(m, n2));
                                    assert(crate::sprite_available(m, name@));
                                    assert(crate::sprite::chosen_sprite_name(m, n1, n2, name@)
                                        == name@);
                                }
                            }
                            img
                        },
                        None => match lod_manager.sprite("pending") {
                            Some(img) => {
                                proof {
                                    if crate::bitmaps_lowered(m) {
                                        assert(!crate::sprite_available(m, n1));
                                        assert(!crate::sprite_available(m, n2));
                                        assert(!crate::sprite_available(m, name@));
                                        assert(crate::sprite_available(m, "pending"@));
                                        assert(crate::sprite::chosen_sprite_name(
                                            m,
                                            n1,
                                            n2,
                                            name@,
                                        ) == "pending"@);
                                    }
                                }
                                img
                            },
                            None => {
                                return None;
                            },
                        },
                    },
                }
            },
        };
        Some(
            BillboardSprite {
                image,
                d_declist_item: item.duplicate(),
                d_sft_frame: frame.duplicate(),
            },
        )
    }
}

} // verus!
