//! The decoration catalog (`ddeclist.bin`): fixed 80-byte records mapping
//! decoration ids to names, dimensions, an animation-frame reference and
//! behavioral bit flags.

use vstd::prelude::*;

use crate::bytes::{as_i16, is_ascii_seq, le16, le32, name_in_block, nul_scan, read_name_block};
use crate::error::LodError;
use crate::lod_data::{entry_plain_bytes, LodData};
use crate::resolve_spec;
use crate::LodManager;

verus! {

/// Byte size of one decoration record.
pub const DDEC_RECORD_SIZE: usize = 80;

/// One decoration catalog record. The `sft` field holds the raw 16 bits of
/// a storage slot that is either a two-byte group tag or a signed frame
/// index; callers pick the interpretation that fits the catalog they read.
pub struct DDecListItem {
    /// The symbolic name block, 32 bytes, NUL-terminated.
    pub name: Vec<u8>,
    /// The in-game name block, 32 bytes, NUL-terminated.
    pub game_name: Vec<u8>,
    /// Decoration type id.
    pub dec_type: u16,
    /// Height in world units.
    pub height: u16,
    /// Collision radius.
    pub radius: u16,
    /// Light radius.
    pub light_radius: u16,
    /// Raw 16 bits of the frame-index / group-tag slot.
    pub sft: u16,
    /// Behavioral bit flags.
    pub bits: u16,
    /// Sound id.
    pub sound_id: u16,
    /// Reserved trailing field, kept verbatim.
    pub skip: u16,
}

impl DDecListItem {
    /// The decoration does not block movement.
    pub fn is_no_block_movement(&self) -> (r: bool)
        ensures
            r == ((self.bits & 0x0001) != 0),
    {
        (self.bits & 0x0001) != 0
    }

    /// The decoration is not drawn.
    pub fn is_no_draw(&self) -> (r: bool)
        ensures
            r == ((self.bits & 0x0002) != 0),
    {
        (self.bits & 0x0002) != 0
    }

    /// The decoration flickers slowly.
    pub fn is_flicker_slow(&self) -> (r: bool)
        ensures
            r == ((self.bits & 0x0004) != 0),
    {
        (self.bits & 0x0004) != 0
    }

    /// The decoration flickers at a medium rate.
    pub fn is_flicker_medium(&self) -> (r: bool)
        ensures
            r == ((self.bits & 0x0008) != 0),
    {
        (self.bits & 0x0008) != 0
    }

    /// The decoration flickers fast.
    pub fn is_flicker_fast(&self) -> (r: bool)
        ensures
            r == ((self.bits & 0x0010) != 0),
    {
        (self.bits & 0x0010) != 0
    }

    /// The decoration is a marker.
    pub fn is_marker(&self) -> (r: bool)
        ensures
            r == ((self.bits & 0x0020) != 0),
    {
        (self.bits & 0x0020) != 0
    }

    /// The decoration animates in a slow loop.
    pub fn is_slow_loop(&self) -> (r: bool)
        ensures
            r == ((self.bits & 0x0040) != 0),
    {
        (self.bits & 0x0040) != 0
    }

    /// The decoration emits fire.
    pub fn is_emit_fire(&self) -> (r: bool)
        ensures
            r == ((self.bits & 0x0080) != 0),
    {
        (self.bits & 0x0080) != 0
    }

    /// The decoration sounds at dawn.
    pub fn is_sound_on_dawn(&self) -> (r: bool)
        ensures
            r == ((self.bits & 0x0100) != 0),
    {
        (self.bits & 0x0100) != 0
    }

    /// The decoration sounds at dusk.
    pub fn is_sound_on_dusk(&self) -> (r: bool)
        ensures
            r == ((self.bits & 0x0200) != 0),
    {
        (self.bits & 0x0200) != 0
    }

    /// The decoration emits smoke.
    pub fn is_emit_smoke(&self) -> (r: bool)
        ensures
            r == ((self.bits & 0x0400) != 0),
    {
        (self.bits & 0x0400) != 0
    }

    /// The symbolic name: the lower-cased NUL-terminated text of the name
    /// block, or `None` if a byte before the terminator is not ASCII.
    pub fn name(&self) -> (r: Option<String>)
        requires
            self.name@.len() == 32,
        ensures
            match r {
                Some(s) => s@ == name_in_block(self.name@, 0, 32) && is_ascii_seq(
                    self.name@.subrange(0, nul_scan(self.name@, 0, 32)),
                ),
                None => !is_ascii_seq(self.name@.subrange(0, nul_scan(self.name@, 0, 32))),
            },
    {
        read_name_block(self.name.as_slice(), 0, 32)
    }

    /// The in-game name: the lower-cased NUL-terminated text of the
    /// in-game name block.
    pub fn game_name(&self) -> (r: Option<String>)
        requires
            self.game_name@.len() == 32,
        ensures
            match r {
                Some(s) => s@ == name_in_block(self.game_name@, 0, 32) && is_ascii_seq(
                    self.game_name@.subrange(0, nul_scan(self.game_name@, 0, 32)),
                ),
                None => !is_ascii_seq(
                    self.game_name@.subrange(0, nul_scan(self.game_name@, 0, 32)),
                ),
            },
    {
        read_name_block(self.game_name.as_slice(), 0, 32)
    }

    /// The frame-index reading of the shared slot: its 16 bits as signed.
    pub fn sft_index(&self) -> (r: i16)
        ensures
            r as int == as_i16(self.sft as int),
    {
        crate::bytes::as_i16_exec(self.sft)
    }

    /// The group-tag reading of the shared slot: its two bytes, low first.
    pub fn sft_group(&self) -> (r: (u8, u8))
        ensures
            r.0 == self.sft & 0xff,
            r.1 == self.sft >> 8,
    {
        proof {
            let s = self.sft;
            assert((s & 0xff) < 0x100 && (s >> 8) < 0x100) by (bit_vector);
        }
        ((self.sft & 0xff) as u8, (self.sft >> 8) as u8)
    }
}

/// Two decoration records hold the same data, field for field.
pub open spec fn same_ddec_item(a: DDecListItem, b: DDecListItem) -> bool {
    &&& a.name@ == b.name@
    &&& a.game_name@ == b.game_name@
    &&& a.dec_type == b.dec_type
    &&& a.height == b.height
    &&& a.radius == b.radius
    &&& a.light_radius == b.light_radius
    &&& a.sft == b.sft
    &&& a.bits == b.bits
    &&& a.sound_id == b.sound_id
    &&& a.skip == b.skip
}

impl DDecListItem {
    /// A field-for-field copy of the record.
    pub fn duplicate(&self) -> (r: DDecListItem)
        ensures
            same_ddec_item(r, *self),
    {
        DDecListItem {
            name: vstd::slice::slice_to_vec(self.name.as_slice()),
            game_name: vstd::slice::slice_to_vec(self.game_name.as_slice()),
            dec_type: self.dec_type,
            height: self.height,
            radius: self.radius,
            light_radius: self.light_radius,
            sft: self.sft,
            bits: self.bits,
            sound_id: self.sound_id,
            skip: self.skip,
        }
    }
}

impl Default for DDecListItem {
    /// An all-zero record with whole, empty name blocks.
    fn default() -> (r: DDecListItem)
        ensures
            r.name@ == Seq::new(32, |i: int| 0u8),
            r.game_name@ == Seq::new(32, |i: int| 0u8),
            r.dec_type == 0,
            r.height == 0,
            r.radius == 0,
            r.light_radius == 0,
            r.sft == 0,
            r.bits == 0,
            r.sound_id == 0,
            r.skip == 0,
    {
        let name: Vec<u8> = vec![0u8; 32];
        let game_name: Vec<u8> = vec![0u8; 32];
        proof {
            assert(name@ =~= Seq::new(32, |i: int| 0u8));
            assert(game_name@ =~= Seq::new(32, |i: int| 0u8));
        }
        DDecListItem {
            name,
            game_name,
            dec_type: 0,
            height: 0,
            radius: 0,
            light_radius: 0,
            sft: 0,
            bits: 0,
            sound_id: 0,
            skip: 0,
        }
    }
}

/// Start of record `i` in the catalog bytes.
pub open spec fn ddec_rec_at(i: int) -> int {
    4 + 80 * i
}

/// The whole catalog lies inside the bytes: a leading count and that many
/// whole records.
pub open spec fn ddec_ok(d: Seq<u8>) -> bool {
    &&& d.len() >= 4
    &&& 4 + 80 * le32(d, 0) <= d.len()
}

/// Record `i` of the catalog has exactly the given fields.
pub open spec fn ddec_item_matches(d: Seq<u8>, i: int, item: DDecListItem) -> bool {
    let b = ddec_rec_at(i);
    &&& item.name@ == d.subrange(b, b + 32)
    &&& item.game_name@ == d.subrange(b + 32, b + 64)
    &&& item.dec_type == le16(d, b + 64)
    &&& item.height == le16(d, b + 66)
    &&& item.radius == le16(d, b + 68)
    &&& item.light_radius == le16(d, b + 70)
    &&& item.sft == le16(d, b + 72)
    &&& item.bits == le16(d, b + 74)
    &&& item.sound_id == le16(d, b + 76)
    &&& item.skip == le16(d, b + 78)
}

/// The decoration catalog: all records of `icons/ddeclist.bin`.
pub struct DDecList {
    /// The records, in file order.
    pub items: Vec<DDecListItem>,
}

impl DDecList {
    /// Decode the decoration catalog out of an archive set: resolve
    /// `icons/ddeclist.bin`, strip its compression framing, and read the
    /// count-prefixed fixed-size records.
    pub fn new(lod_manager: &LodManager) -> (r: Result<DDecList, LodError>)
        ensures
            match resolve_spec(lod_manager@, "icons/ddeclist.bin"@) {
                None => r == Err::<DDecList, LodError>(LodError::NotFound),
                Some(raw) => {
                    let d = entry_plain_bytes(raw);
                    match r {
                        Ok(list) => {
                            &&& ddec_ok(d)
                            &&& list.items@.len() == le32(d, 0)
                            &&& forall|i: int|
                                0 <= i < list.items@.len() ==> ddec_item_matches(
                                    d,
                                    i,
                                    #[trigger] list.items@[i],
                                )
                        },
                        Err(e) => !ddec_ok(d) && e == LodError::Truncated,
                    }
                },
            },
    {
        let raw: &[u8] = match lod_manager.try_get_bytes("icons/ddeclist.bin") {
            Ok(v) => v,
            Err(e) => {
                return Err(e);
            },
        };
        let data: LodData = LodData::try_from(raw);
        let d: &[u8] = data.data.as_slice();
        let len: usize = d.len();
        if len < 4 {
            return Err(LodError::Truncated);
        }
        let count: u32 = crate::bytes::read_u32_le(d, 0);
        if 4 + 80 * (count as u64) > len as u64 {
            return Err(LodError::Truncated);
        }
        let n: usize = count as usize;
        let mut items: Vec<DDecListItem> = Vec::new();
        let mut i: usize = 0;
        while i < n
            invariant
                i <= n,
                n == le32(d@, 0),
                4 + 80 * n <= len == d@.len(),
                items@.len() == i,
                forall|j: int| 0 <= j < i ==> ddec_item_matches(d@, j, #[trigger] items@[j]),
            decreases n - i,
        {
            let b: usize = 4 + 80 * i;
            items.push(
                DDecListItem {
                    name: crate::bytes::copy_range(d, b, b + 32),
                    game_name: crate::bytes::copy_range(d, b + 32, b + 64),
                    dec_type: crate::bytes::read_u16_le(d, b + 64),
                    height: crate::bytes::read_u16_le(d, b + 66),
                    radius: crate::bytes::read_u16_le(d, b + 68),
                    light_radius: crate::bytes::read_u16_le(d, b + 70),
                    sft: crate::bytes::read_u16_le(d, b + 72),
                    bits: crate::bytes::read_u16_le(d, b + 74),
                    sound_id: crate::bytes::read_u16_le(d, b + 76),
                    skip: crate::bytes::read_u16_le(d, b + 78),
                },
            );
            i += 1;
        }
        Ok(DDecList { items })
    }
}

} // verus!
