//! The sprite frame catalog (`dsft.bin`): a count-prefixed array of fixed
//! 56-byte frame records followed by a count-prefixed array of group
//! start indices.

use vstd::prelude::*;

use crate::bytes::{as_i16, is_ascii_seq, le16, le32, name_in_block, nul_scan, read_name_block};
use crate::error::LodError;
use crate::lod_data::{entry_plain_bytes, LodData};
use crate::resolve_spec;
use crate::LodManager;

verus! {

/// Byte size of one frame record.
pub const DSFT_FRAME_SIZE: usize = 56;

/// One sprite frame record.
pub struct DSFTFrame {
    /// The animation group name block, 12 bytes, NUL-terminated.
    pub group_name: Vec<u8>,
    /// The sprite name block, 12 bytes, NUL-terminated.
    pub sprite_name: Vec<u8>,
    /// Per-direction sprite indices, eight of them.
    pub sprite_index: Vec<i16>,
    /// World scale factor.
    pub scale: i32,
    /// Behavioral bit flags.
    pub bits: u16,
    /// Light radius.
    pub light_radius: i16,
    /// Palette id.
    pub palette_id: i16,
    /// Palette index.
    pub palette_index: i16,
    /// Frame display time.
    pub time: i16,
    /// Total animation time.
    pub time_total: i16,
}

impl DSFTFrame {
    /// The frame does not end its group.
    pub fn is_not_group_end(&self) -> (r: bool)
        ensures
            r == ((self.bits & 0x0001) != 0),
    {
        (self.bits & 0x0001) != 0
    }

    /// The frame is luminous.
    pub fn is_luminous(&self) -> (r: bool)
        ensures
            r == ((self.bits & 0x0002) != 0),
    {
        (self.bits & 0x0002) != 0
    }

    /// The frame starts a group.
    pub fn is_group_start(&self) -> (r: bool)
        ensures
            r == ((self.bits & 0x0004) != 0),
    {
        (self.bits & 0x0004) != 0
    }

    /// The frame uses the first image form.
    pub fn is_image1(&self) -> (r: bool)
        ensures
            r == ((self.bits & 0x0010) != 0),
    {
        (self.bits & 0x0010) != 0
    }

    /// The frame is centered.
    pub fn is_center(&self) -> (r: bool)
        ensures
            r == ((self.bits & 0x0020) != 0),
    {
        (self.bits & 0x0020) != 0
    }

    /// The frame is a fidget frame.
    pub fn is_fidget(&self) -> (r: bool)
        ensures
            r == ((self.bits & 0x0040) != 0),
    {
        (self.bits & 0x0040) != 0
    }

    /// The frame is loaded.
    pub fn is_loaded(&self) -> (r: bool)
        ensures
            r == ((self.bits & 0x0080) != 0),
    {
        (self.bits & 0x0080) != 0
    }

    /// Mirror flag for direction 0.
    pub fn is_mirror0(&self) -> (r: bool)
        ensures
            r == ((self.bits & 0x0100) != 0),
    {
        (self.bits & 0x0100) != 0
    }

    /// Mirror flag for direction 1.
    pub fn is_mirror1(&self) -> (r: bool)
        ensures
            r == ((self.bits & 0x0200) != 0),
    {
        (self.bits & 0x0200) != 0
    }

    /// Mirror flag for direction 2.
    pub fn is_mirror2(&self) -> (r: bool)
        ensures
            r == ((self.bits & 0x0400) != 0),
    {
        (self.bits & 0x0400) != 0
    }

    /// Mirror flag for direction 3.
    pub fn is_mirror3(&self) -> (r: bool)
        ensures
            r == ((self.bits & 0x0800) != 0),
    {
        (self.bits & 0x0800) != 0
    }

    /// Mirror flag for direction 4.
    pub fn is_mirror4(&self) -> (r: bool)
        ensures
            r == ((self.bits & 0x1000) != 0),
    {
        (self.bits & 0x1000) != 0
    }

    /// Mirror flag for direction 5.
    pub fn is_mirror5(&self) -> (r: bool)
        ensures
            r == ((self.bits & 0x2000) != 0),
    {
        (self.bits & 0x2000) != 0
    }

    /// Mirror flag for direction 7.
    pub fn is_mirror7(&self) -> (r: bool)
        ensures
            r == ((self.bits & 0x4000) != 0),
    {
        (self.bits & 0x4000) != 0
    }

    /// Mirror flag for direction 8.
    pub fn is_mirror8(&self) -> (r: bool)
        ensures
            r == ((self.bits & 0x8000) != 0),
    {
        (self.bits & 0x8000) != 0
    }

    /// The animation group name: the lower-cased NUL-terminated text of
    /// its block, or `None` if a byte before the terminator is not ASCII.
    pub fn group_name(&self) -> (r: Option<String>)
        requires
            self.group_name@.len() == 12,
        ensures
            match r {
                Some(s) => s@ == name_in_block(self.group_name@, 0, 12) && is_ascii_seq(
                    self.group_name@.subrange(0, nul_scan(self.group_name@, 0, 12)),
                ),
                None => !is_ascii_seq(
                    self.group_name@.subrange(0, nul_scan(self.group_name@, 0, 12)),
                ),
            },
    {
        read_name_block(self.group_name.as_slice(), 0, 12)
    }

    /// The sprite name: the lower-cased NUL-terminated text of its block.
    pub fn sprite_name(&self) -> (r: Option<String>)
        requires
            self.sprite_name@.len() == 12,
        ensures
            match r {
                Some(s) => s@ == name_in_block(self.sprite_name@, 0, 12) && is_ascii_seq(
                    self.sprite_name@.subrange(0, nul_scan(self.sprite_name@, 0, 12)),
                ),
                None => !is_ascii_seq(
                    self.sprite_name@.subrange(0, nul_scan(self.sprite_name@, 0, 12)),
                ),
            },
    {
        read_name_block(self.sprite_name.as_slice(), 0, 12)
    }
}

/// Two frame records hold the same data, field for field.
pub open spec fn same_dsft_frame(a: DSFTFrame, b: DSFTFrame) -> bool {
    &&& a.group_name@ == b.group_name@
    &&& a.sprite_name@ == b.sprite_name@
    &&& a.sprite_index@ == b.sprite_index@
    &&& a.scale == b.scale
    &&& a.bits == b.bits
    &&& a.light_radius == b.light_radius
    &&& a.palette_id == b.palette_id
    &&& a.palette_index == b.palette_index
    &&& a.time == b.time
    &&& a.time_total == b.time_total
}

impl DSFTFrame {
    /// A field-for-field copy of the record.
    pub fn duplicate(&self) -> (r: DSFTFrame)
        ensures
            same_dsft_frame(r, *self),
    {
        DSFTFrame {
            group_name: vstd::slice::slice_to_vec(self.group_name.as_slice()),
            sprite_name: vstd::slice::slice_to_vec(self.sprite_name.as_slice()),
            sprite_index: vstd::slice::slice_to_vec(self.sprite_index.as_slice()),
            scale: self.scale,
            bits: self.bits,
            light_radius: self.light_radius,
            palette_id: self.palette_id,
            palette_index: self.palette_index,
            time: self.time,
            time_total: self.time_total,
        }
    }
}

/// Start of frame record `i` in the catalog bytes.
pub open spec fn dsft_frame_at(i: int) -> int {
    8 + 56 * i
}

/// The whole catalog lies inside the bytes: two leading counts, that many
/// whole frame records, and that many group indices after them.
pub open spec fn dsft_ok(d: Seq<u8>) -> bool {
    &&& d.len() >= 8
    &&& 8 + 56 * le32(d, 0) + 2 * le32(d, 4) <= d.len()
}

/// Frame record `i` of the catalog has exactly the given fields.
pub open spec fn dsft_frame_matches(d: Seq<u8>, i: int, f: DSFTFrame) -> bool {
    let b = dsft_frame_at(i);
    &&& f.group_name@ == d.subrange(b, b + 12)
    &&& f.sprite_name@ == d.subrange(b + 12, b + 24)
    &&& f.sprite_index@.len() == 8
    &&& forall|k: int| 0 <= k < 8 ==> (#[trigger] f.sprite_index@[k]) as int == as_i16(
        le16(d, b + 24 + 2 * k),
    )
    &&& f.scale as int == crate::bytes::as_i32(le32(d, b + 40))
    &&& f.bits == le16(d, b + 44)
    &&& f.light_radius as int == as_i16(le16(d, b + 46))
    &&& f.palette_id as int == as_i16(le16(d, b + 48))
    &&& f.palette_index as int == as_i16(le16(d, b + 50))
    &&& f.time as int == as_i16(le16(d, b + 52))
    &&& f.time_total as int == as_i16(le16(d, b + 54))
}

/// The sprite frame catalog: all frames and group indices of
/// `icons/dsft.bin`.
pub struct DSFT {
    /// The frame records, in file order.
    pub frames: Vec<DSFTFrame>,
    /// The group start indices, in file order.
    pub groups: Vec<u16>,
}

impl DSFT {
    /// Decode the frame catalog out of an archive set: resolve
    /// `icons/dsft.bin`, strip its compression framing, and read the two
    /// count-prefixed arrays.
    pub fn new(lod_manager: &LodManager) -> (r: Result<DSFT, LodError>)
        ensures
            match resolve_spec(lod_manager@, "icons/dsft.bin"@) {
                None => r == Err::<DSFT, LodError>(LodError::NotFound),
                Some(raw) => {
                    let d = entry_plain_bytes(raw);
                    match r {
                        Ok(t) => {
                            &&& dsft_ok(d)
                            &&& t.frames@.len() == le32(d, 0)
                            &&& t.groups@.len() == le32(d, 4)
                            &&& forall|i: int|
                                0 <= i < t.frames@.len() ==> dsft_frame_matches(
                                    d,
                                    i,
                                    #[trigger] t.frames@[i],
                                )
                            &&& forall|i: int|
                                0 <= i < t.groups@.len() ==> (#[trigger] t.groups@[i]) == le16(
                                    d,
                                    8 + 56 * le32(d, 0) + 2 * i,
                                )
                        },
                        Err(e) => !dsft_ok(d) && e == LodError::Truncated,
                    }
                },
            },
    {
        let raw: &[u8] = match lod_manager.try_get_bytes("icons/dsft.bin") {
            Ok(v) => v,
            Err(e) => {
                return Err(e);
            },
        };
        let data: LodData = LodData::try_from(raw);
        let d: &[u8] = data.data.as_slice();
        let len: usize = d.len();
        if len < 8 {
            return Err(LodError::Truncated);
        }
        let frame_count: u32 = crate::bytes::read_u32_le(d, 0);
        let group_count: u32 = crate::bytes::read_u32_le(d, 4);
        if 8 + 56 * (frame_count as u64) + 2 * (group_count as u64) > len as u64 {
            return Err(LodError::Truncated);
        }
        let nf: usize = frame_count as usize;
        let ng: usize = group_count as usize;
        let mut frames: Vec<DSFTFrame> = Vec::new();
        let mut i: usize = 0;
        while i < nf
            invariant
                i <= nf,
                nf == le32(d@, 0),
                8 + 56 * nf + 2 * ng <= len == d@.len(),
                frames@.len() == i,
                forall|j: int| 0 <= j < i ==> dsft_frame_matches(d@, j, #[trigger] frames@[j]),
            decreases nf - i,
        {
            let b: usize = 8 + 56 * i;
            let mut sprite_index: Vec<i16> = Vec::new();
            let mut k: usize = 0;
            while k < 8
                invariant
                    k <= 8,
                    b + 56 <= d@.len(),
                    d@.len() <= usize::MAX,
                    b == 8 + 56 * i,
                    sprite_index@.len() == k,
                    forall|q: int|
                        0 <= q < k ==> (#[trigger] sprite_index@[q]) as int == as_i16(
                            le16(d@, b + 24 + 2 * q),
                        ),
                decreases 8 - k,
            {
                sprite_index.push(crate::bytes::read_i16_le(d, b + 24 + 2 * k));
                k += 1;
            }
            frames.push(
                DSFTFrame {
                    group_name: crate::bytes::copy_range(d, b, b + 12),
                    sprite_name: crate::bytes::copy_range(d, b + 12, b + 24),
                    sprite_index,
                    scale: crate::bytes::read_i32_le(d, b + 40),
                    bits: crate::bytes::read_u16_le(d, b + 44),
                    light_radius: crate::bytes::read_i16_le(d, b + 46),
                    palette_id: crate::bytes::read_i16_le(d, b + 48),
                    palette_index: crate::bytes::read_i16_le(d, b + 50),
                    time: crate::bytes::read_i16_le(d, b + 52),
                    time_total: crate::bytes::read_i16_le(d, b + 54),
                },
            );
            i += 1;
        }
        let base: usize = 8 + 56 * nf;
        let mut groups: Vec<u16> = Vec::new();
        let mut i: usize = 0;
        while i < ng
            invariant
                i <= ng,
                base == 8 + 56 * (le32(d@, 0)),
                base + 2 * ng <= len == d@.len(),
                groups@.len() == i,
                forall|j: int|
                    0 <= j < i ==> (#[trigger] groups@[j]) == le16(d@, base + 2 * j),
            decreases ng - i,
        {
            groups.push(crate::bytes::read_u16_le(d, base + 2 * i));
            i += 1;
        }
        Ok(DSFT { frames, groups })
    }
}

} // verus!
