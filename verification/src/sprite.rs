//! Sprite resolution: the decoration and frame catalogs combined, mapping
//! a decoration id to a rendered sprite image through a chain of name
//! fallbacks ending at the `pending` placeholder.

use vstd::prelude::*;

use crate::bitmaps_lowered;
use crate::bytes::{as_i16, is_ascii_seq, le16, le32, name_in_block, nul_scan};
use crate::ddeclist::{ddec_item_matches, ddec_ok, same_ddec_item, DDecList, DDecListItem};
use crate::dsft::{dsft_frame_matches, dsft_ok, DSFTFrame, DSFT};
use crate::error::LodError;
use crate::image::RgbaImage;
use crate::lod_data::entry_plain_bytes;
use crate::rendered_sprite;
use crate::resolve_spec;
use crate::sprite_available;
use crate::LodManager;

verus! {

/// Why building the two catalogs fails, if it does: the decoration
/// catalog is read first, so its failure is reported before the frame
/// catalog's.
pub open spec fn catalogs_err(m: Map<Seq<char>, Map<Seq<char>, Seq<u8>>>) -> Option<LodError> {
    match resolve_spec(m, "icons/ddeclist.bin"@) {
        None => Some(LodError::NotFound),
        Some(raw) => if !ddec_ok(entry_plain_bytes(raw)) {
            Some(LodError::Truncated)
        } else {
            match resolve_spec(m, "icons/dsft.bin"@) {
                None => Some(LodError::NotFound),
                Some(raw2) => if !dsft_ok(entry_plain_bytes(raw2)) {
                    Some(LodError::Truncated)
                } else {
                    None
                },
            }
        },
    }
}

/// The lower-cased name of the decoration record at `id`.
pub open spec fn catalog_item_name(items: Seq<DDecListItem>, id: int) -> Seq<char> {
    name_in_block(items[id].name@, 0, 32)
}

/// The decoration record's name block at `id` is ASCII up to its
/// terminator.
pub open spec fn catalog_item_name_ascii(items: Seq<DDecListItem>, id: int) -> bool {
    is_ascii_seq(items[id].name@.subrange(0, nul_scan(items[id].name@, 0, 32)))
}

/// The frame index the decoration record at `id` names.
pub open spec fn catalog_frame_index(items: Seq<DDecListItem>, id: int) -> int {
    as_i16(items[id].sft as int)
}

/// The lower-cased sprite name of the frame record at `fx`.
pub open spec fn catalog_frame_name(frames: Seq<DSFTFrame>, fx: int) -> Seq<char> {
    name_in_block(frames[fx].sprite_name@, 0, 12)
}

/// The frame record's sprite name block at `fx` is ASCII up to its
/// terminator.
pub open spec fn catalog_frame_name_ascii(frames: Seq<DSFTFrame>, fx: int) -> bool {
    is_ascii_seq(frames[fx].sprite_name@.subrange(0, nul_scan(frames[fx].sprite_name@, 0, 12)))
}

/// The name the fallback chain settles on: the decoration's own name,
/// else its frame's sprite name, else the given name, else `pending`.
pub open spec fn chosen_sprite_name(
    m: Map<Seq<char>, Map<Seq<char>, Seq<u8>>>,
    n1: Seq<char>,
    n2: Seq<char>,
    n3: Seq<char>,
) -> Seq<char> {
    if sprite_available(m, n1) {
        n1
    } else if sprite_available(m, n2) {
        n2
    } else if sprite_available(m, n3) {
        n3
    } else {
        "pending"@
    }
}

/// The lookup succeeds: the id and its frame index are in range, the
/// decoration's name block is ASCII, and either the decoration's own
/// sprite is available or the frame's name block is ASCII and one of the
/// remaining candidates is available.
pub open spec fn catalog_lookup_succeeds(
    m: Map<Seq<char>, Map<Seq<char>, Seq<u8>>>,
    items: Seq<DDecListItem>,
    frames: Seq<DSFTFrame>,
    nm: Seq<char>,
    id: int,
) -> bool {
    &&& 0 <= id < items.len()
    &&& 0 <= catalog_frame_index(items, id) < frames.len()
    &&& catalog_item_name_ascii(items, id)
    &&& (sprite_available(m, catalog_item_name(items, id)) || (catalog_frame_name_ascii(
        frames,
        catalog_frame_index(items, id),
    ) && (sprite_available(m, catalog_frame_name(frames, catalog_frame_index(items, id)))
        || sprite_available(m, nm) || sprite_available(m, "pending"@))))
}

/// The two catalogs a sprite lookup needs, decoded once.
pub struct SpriteManager {
    d_declist: DDecList,
    d_sft: DSFT,
}

/// A resolved sprite: its rendered image and the two catalog records it
/// was resolved through.
pub struct Sprite {
    /// The rendered sprite image.
    pub image: RgbaImage,
    /// The decoration record the id named.
    pub d_declist_item: DDecListItem,
    /// The frame record the decoration named.
    pub d_sft_frame: DSFTFrame,
}

impl SpriteManager {
    /// The decoration records the manager holds.
    pub closed spec fn spec_items(&self) -> Seq<DDecListItem> {
        self.d_declist.items@
    }

    /// The frame records the manager holds.
    pub closed spec fn spec_frames(&self) -> Seq<DSFTFrame> {
        self.d_sft.frames@
    }

    /// The group start indices the manager holds.
    pub closed spec fn spec_groups(&self) -> Seq<u16> {
        self.d_sft.groups@
    }

    /// Every stored record's name blocks are whole.
    pub open spec fn wf(&self) -> bool {
        &&& forall|i: int|
            0 <= i < self.spec_items().len() ==> (#[trigger] self.spec_items()[i]).name@.len()
                == 32 && self.spec_items()[i].game_name@.len() == 32
        &&& forall|i: int|
            0 <= i < self.spec_frames().len() ==> (#[trigger] self.spec_frames()[i]).group_name@.len()
                == 12 && self.spec_frames()[i].sprite_name@.len() == 12
    }

    /// Decode both catalogs out of an archive set: the manager holds
    /// exactly the records of `icons/ddeclist.bin` and `icons/dsft.bin`.
    pub fn new(lod_manager: &LodManager) -> (r: Result<SpriteManager, LodError>)
        ensures
            r is Ok <==> catalogs_err(lod_manager@) is None,
            match r {
                Ok(sm) => {
                    &&& sm.wf()
                    &&& ({
                        let dd = entry_plain_bytes(
                            resolve_spec(lod_manager@, "icons/ddeclist.bin"@)->Some_0,
                        );
                        &&& sm.spec_items().len() == le32(dd, 0)
                        &&& forall|i: int|
                            0 <= i < sm.spec_items().len() ==> ddec_item_matches(
                                dd,
                                i,
                                #[trigger] sm.spec_items()[i],
                            )
                    })
                    &&& ({
                        let ds = entry_plain_bytes(
                            resolve_spec(lod_manager@, "icons/dsft.bin"@)->Some_0,
                        );
                        &&& sm.spec_frames().len() == le32(ds, 0)
                        &&& sm.spec_groups().len() == le32(ds, 4)
                        &&& forall|i: int|
                            0 <= i < sm.spec_frames().len() ==> dsft_frame_matches(
                                ds,
                                i,
                                #[trigger] sm.spec_frames()[i],
                            )
                        &&& forall|i: int|
                            0 <= i < sm.spec_groups().len() ==> (#[trigger] sm.spec_groups()[i])
                                == le16(ds, 8 + 56 * le32(ds, 0) + 2 * i)
                    })
                },
                Err(e) => catalogs_err(lod_manager@) == Some(e),
            },
    {
        let d_declist: DDecList = match DDecList::new(lod_manager) {
            Ok(v) => v,
            Err(e) => {
                return Err(e);
            },
        };
        let d_sft: DSFT = match DSFT::new(lod_manager) {
            Ok(v) => v,
            Err(e) => {
                return Err(e);
            },
        };
        let sm = SpriteManager { d_declist, d_sft };
        proof {
            let dd = entry_plain_bytes(resolve_spec(lod_manager@, "icons/ddeclist.bin"@)->Some_0);
            assert forall|i: int| 0 <= i < sm.spec_items().len() implies (
            #[trigger] sm.spec_items()[i]).name@.len() == 32
                && sm.spec_items()[i].game_name@.len() == 32 by {
                assert(ddec_item_matches(dd, i, sm.spec_items()[i]));
            }
            let ds = entry_plain_bytes(resolve_spec(lod_manager@, "icons/dsft.bin"@)->Some_0);
            assert forall|i: int| 0 <= i < sm.spec_frames().len() implies (
            #[trigger] sm.spec_frames()[i]).group_name@.len() == 12
                && sm.spec_frames()[i].sprite_name@.len() == 12 by {
                assert(dsft_frame_matches(ds, i, sm.spec_frames()[i]));
            }
        }
        Ok(sm)
    }

    /// Resolve a sprite by decoration id: try the decoration's own name,
    /// then its frame's sprite name, then the given name, then the
    /// `pending` placeholder; the returned records are copies of the ones
    /// at the id and at its frame index. The lowered-names hypothesis
    /// holds of every archive set built through `Lod::open`.
    pub fn sprite(&self, lod_manager: &LodManager, name: &str, declist_id: u16) -> (r: Option<
        Sprite,
    >)
        requires
            self.wf(),
        ensures
            bitmaps_lowered(lod_manager@) ==> (r is Some <==> catalog_lookup_succeeds(
                lod_manager@,
                self.spec_items(),
                self.spec_frames(),
                name@,
                declist_id as int,
            )),
            match r {
                Some(s) => {
                    &&& declist_id < self.spec_items().len()
                    &&& same_ddec_item(s.d_declist_item, self.spec_items()[declist_id as int])
                    &&& 0 <= catalog_frame_index(self.spec_items(), declist_id as int)
                        < self.spec_frames().len()
                    &&& crate::dsft::same_dsft_frame(
                        s.d_sft_frame,
                        self.spec_frames()[catalog_frame_index(
                            self.spec_items(),
                            declist_id as int,
                        )],
                    )
                    &&& s.image.wf()
                    &&& (bitmaps_lowered(lod_manager@) ==> s.image.data@ == rendered_sprite(
                        lod_manager@,
                        chosen_sprite_name(
                            lod_manager@,
                            catalog_item_name(self.spec_items(), declist_id as int),
                            catalog_frame_name(
                                self.spec_frames(),
                                catalog_frame_index(self.spec_items(), declist_id as int),
                            ),
                            name@,
                        ),
                    ))
                },
                None => true,
            },
    {
        let item: &DDecListItem = match self.d_declist.items.get(declist_id as usize) {
            Some(v) => v,
            None => {
                return None;
            },
        };
        proof {
            assert(*item == self.spec_items()[declist_id as int]);
        }
        let sft_index: i16 = item.sft_index();
        if sft_index < 0 {
            return None;
        }
        let frame: &DSFTFrame = match self.d_sft.frames.get(sft_index as usize) {
            Some(v) => v,
            None => {
                return None;
            },
        };
        proof {
            assert(*frame == self.spec_frames()[sft_index as int]);
        }
        let item_name: String = match item.name() {
            Some(s) => s,
            None => {
                return None;
            },
        };
        let ghost m = lod_manager@;
        let ghost n1 = catalog_item_name(self.spec_items(), declist_id as int);
        let ghost fx = catalog_frame_index(self.spec_items(), declist_id as int);
        let ghost n2 = catalog_frame_name(self.spec_frames(), fx);
        proof {
            assert(item_name@ == n1);
        }
        let image: RgbaImage = match lod_manager.sprite(item_name.as_str()) {
            Some(img) => {
                proof {
                    if bitmaps_lowered(m) {
                        assert(sprite_available(m, n1));
                        assert(chosen_sprite_name(m, n1, n2, name@) == n1);
                    }
                }
                img
            },
            None => {
                let frame_name: String = match frame.sprite_name() {
                    Some(s) => s,
                    None => {
                        return None;
                    },
                };
                proof {
                    assert(frame_name@ == n2);
                }
                match lod_manager.sprite(frame_name.as_str()) {
                    Some(img) => {
                        proof {
                            if bitmaps_lowered(m) {
                                assert(!sprite_available(m, n1));
                                assert(sprite_available(m, n2));
                                assert(chosen_sprite_name(m, n1, n2, name@) == n2);
                            }
                        }
                        img
                    },
                    None => match lod_manager.sprite(name) {
                        Some(img) => {
                            proof {
                                if bitmaps_lowered(m) {
                                    assert(!sprite_available(m, n1));
                                    assert(!sprite_available(m, n2));
                                    assert(sprite_available(m, name@));
                                    assert(chosen_sprite_name(m, n1, n2, name@) == name@);
                                }
                            }
                            img
                        },
                        None => match lod_manager.sprite("pending") {
                            Some(img) => {
                                proof {
                                    if bitmaps_lowered(m) {
                                        assert(!sprite_available(m, n1));
                                        assert(!sprite_available(m, n2));
                                        assert(!sprite_available(m, name@));
                                        assert(sprite_available(m, "pending"@));
                                        assert(chosen_sprite_name(m, n1, n2, name@)
                                            == "pending"@);
                                    }
                                }
                                img
                            },
                            None => {
                                return None;
                            },
                        },
                    },
                }
            },
        };
        Some(Sprite { image, d_declist_item: item.duplicate(), d_sft_frame: frame.duplicate() })
    }
}

} // verus!
