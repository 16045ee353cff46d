//! Palettes: 256 RGB triples stored as fixed-size archive entries named
//! `pal###`, and the id-keyed table of all palettes of one archive.

use vstd::prelude::*;

use crate::assoc::{assoc_map, lemma_assoc_absent, lemma_assoc_agree, lemma_assoc_found};
use crate::error::LodError;
use crate::lod::{names_lowered, Lod};

verus! {

/// Byte size of the header that precedes the color data in a palette entry.
pub const PALETTE_HEADER_SIZE: usize = 48;

/// Byte size of the color data: 256 RGB triples.
pub const PALETTE_SIZE: usize = 768;

/// Exact byte size of a well-formed palette archive entry.
pub const PALETTE_DATA_SIZE: usize = 816;

/// A decoded palette: exactly 256 RGB triples.
pub struct Palette {
    /// The 768 color bytes, red, green, blue for each of the 256 indices.
    pub data: Vec<u8>,
}

/// ASCII lower-casing of one character.
pub open spec fn lower_char(c: char) -> char {
    if 'A' <= c && c <= 'Z' {
        ((c as u8) + 32) as char
    } else {
        c
    }
}

/// An entry name that the palette table scans for: six characters starting
/// with `pal`, case-insensitively.
pub open spec fn is_pal_name(nm: Seq<char>) -> bool {
    &&& nm.len() == 6
    &&& lower_char(nm[0]) == 'p'
    &&& lower_char(nm[1]) == 'a'
    &&& lower_char(nm[2]) == 'l'
}

/// The numeric id spelled by the last three characters of a name, if they
/// are all decimal digits and the name is long enough.
pub open spec fn spec_palette_id(nm: Seq<char>) -> Option<int> {
    if nm.len() < 3 {
        None
    } else {
        let c2 = nm[nm.len() - 3] as int;
        let c1 = nm[nm.len() - 2] as int;
        let c0 = nm[nm.len() - 1] as int;
        if 48 <= c2 <= 57 && 48 <= c1 <= 57 && 48 <= c0 <= 57 {
            Some(100 * (c2 - 48) + 10 * (c1 - 48) + (c0 - 48))
        } else {
            None
        }
    }
}

/// Parse a palette id out of an entry name: its last three characters must
/// be decimal digits.
pub fn extract_palette_id(s: &str) -> (r: Result<u16, LodError>)
    ensures
        match r {
            Ok(id) => spec_palette_id(s@) == Some(id as int),
            Err(e) => spec_palette_id(s@) is None && e == LodError::InvalidId,
        },
{
    let n: usize = vstd::string::StrSliceExecFns::unicode_len(s);
    if n < 3 {
        return Err(LodError::InvalidId);
    }
    let c2: u32 = vstd::string::StrSliceExecFns::get_char(s, n - 3) as u32;
    let c1: u32 = vstd::string::StrSliceExecFns::get_char(s, n - 2) as u32;
    let c0: u32 = vstd::string::StrSliceExecFns::get_char(s, n - 1) as u32;
    if 48 <= c2 && c2 <= 57 && 48 <= c1 && c1 <= 57 && 48 <= c0 && c0 <= 57 {
        Ok((100 * (c2 - 48) + 10 * (c1 - 48) + (c0 - 48)) as u16)
    } else {
        Err(LodError::InvalidId)
    }
}

impl Palette {
    /// Decode a palette entry: it must be exactly the 48-byte header plus
    /// 768 color bytes, and the color bytes are the trailing block.
    pub fn try_from(d: &[u8]) -> (r: Result<Palette, LodError>)
        ensures
            r is Ok <==> d@.len() == PALETTE_DATA_SIZE,
            match r {
                Ok(p) => p.data@ == d@.subrange(48, 816),
                Err(e) => e == LodError::MalformedPalette,
            },
    {
        if d.len() != PALETTE_DATA_SIZE {
            return Err(LodError::MalformedPalette);
        }
        Ok(Palette { data: crate::bytes::copy_range(d, 48, 816) })
    }
}

struct PaletteSlot {
    id: u16,
    palette: Palette,
}

/// The palettes of one archive, keyed by the numeric id in each entry name.
pub struct Palettes {
    slots: Vec<PaletteSlot>,
}

impl View for Palettes {
    type V = Map<u16, Seq<u8>>;

    closed spec fn view(&self) -> Map<u16, Seq<u8>> {
        Palettes::slots_map(self.slots@)
    }
}

/// The decimal digit character for a value 0 through 9.
pub open spec fn digit_char(v: int) -> char {
    ((48 + v) as u8) as char
}

/// The one lower-cased entry name that carries a palette id: `pal`
/// followed by the id's three decimal digits.
pub open spec fn pal_name_of(id: int) -> Seq<char> {
    seq![
        'p',
        'a',
        'l',
        digit_char(id / 100),
        digit_char((id / 10) % 10),
        digit_char(id % 10),
    ]
}

/// Among lower-cased names, the name that matches the palette scan and
/// carries a given id is unique: it is `pal` plus the id's digits.
pub proof fn lemma_pal_name_unique(nm: Seq<char>, id: int)
    requires
        is_pal_name(nm),
        crate::bytes::is_lower_ascii_name(nm),
        spec_palette_id(nm) == Some(id),
    ensures
        nm == pal_name_of(id),
{
    let c2 = nm[3] as int;
    let c1 = nm[4] as int;
    let c0 = nm[5] as int;
    assert(id == 100 * (c2 - 48) + 10 * (c1 - 48) + (c0 - 48));
    assert(id / 100 == c2 - 48 && (id / 10) % 10 == c1 - 48 && id % 10 == c0 - 48) by (
    nonlinear_arith)
        requires
            id == 100 * (c2 - 48) + 10 * (c1 - 48) + (c0 - 48),
            48 <= c2 <= 57,
            48 <= c1 <= 57,
            48 <= c0 <= 57,
    ;
    assert(nm =~= pal_name_of(id)) by {
        assert(nm[0] == 'p' && nm[1] == 'a' && nm[2] == 'l');
        assert(nm[3] == digit_char(id / 100));
        assert(nm[4] == digit_char((id / 10) % 10));
        assert(nm[5] == digit_char(id % 10));
    }
}

/// The palette table an archive denotes: every id named by a `pal###`
/// entry, mapped to that entry's trailing 768 color bytes.
pub open spec fn spec_palette_table(m: Map<Seq<char>, Seq<u8>>) -> Map<u16, Seq<u8>> {
    Map::new(
        |id: u16|
            exists|nm: Seq<char>|
                m.contains_key(nm) && is_pal_name(nm) && spec_palette_id(nm) == Some(id as int),
        |id: u16|
            {
                let nm = choose|nm: Seq<char>|
                    m.contains_key(nm) && is_pal_name(nm) && spec_palette_id(nm) == Some(
                        id as int,
                    );
                m[nm].subrange(48, m[nm].len() as int)
            },
    )
}

/// Every palette a table holds is whole: 768 color bytes.
pub open spec fn palettes_wf(m: Map<u16, Seq<u8>>) -> bool {
    forall|id: u16| #![auto] m.contains_key(id) ==> m[id].len() == 768
}

/// Every `pal###` entry of the archive decodes: it has the exact palette
/// entry size and a numeric id.
pub open spec fn all_palettes_ok(m: Map<Seq<char>, Seq<u8>>) -> bool {
    forall|nm: Seq<char>| #![auto]
        m.contains_key(nm) && is_pal_name(nm) ==> m[nm].len() == PALETTE_DATA_SIZE
            && spec_palette_id(nm) is Some
}

impl Palettes {
    /// Build the palette table of one archive: scan its entry names for
    /// `pal###`, decode each matching entry, and key it by its numeric id.
    pub fn try_from(lod: &Lod) -> (r: Result<Palettes, LodError>)
        ensures
            r is Ok <==> all_palettes_ok(lod@),
            match r {
                Ok(p) => {
                    &&& palettes_wf(p@)
                    &&& (names_lowered(lod@) ==> p@ == spec_palette_table(lod@))
                    &&& forall|nm: Seq<char>| #![auto]
                        lod@.contains_key(nm) && is_pal_name(nm) ==> (
                        spec_palette_id(nm) matches Some(id) && p@.contains_key(id as u16))
                    &&& forall|id: u16| #![auto]
                        p@.contains_key(id) ==> exists|nm: Seq<char>|
                            lod@.contains_key(nm) && is_pal_name(nm) && spec_palette_id(nm)
                                == Some(id as int) && p@[id] == lod@[nm].subrange(
                                48,
                                lod@[nm].len() as int,
                            )
                },
                Err(e) => e == LodError::MalformedPalette || e == LodError::InvalidId,
            },
    {
        let names: Vec<String> = lod.files();
        let mut slots: Vec<PaletteSlot> = Vec::new();
        let n: usize = names.len();
        let mut i: usize = 0;
        while i < n
            invariant
                n == names@.len(),
                i <= n,
                forall|j: int| 0 <= j < n ==> names@[j]@ == lod.spec_names()[j],
                forall|nm: Seq<char>| #![auto]
                    lod@.contains_key(nm) <==> exists|j: int| 0 <= j < n && names@[j]@ == nm,
                forall|j: int| #![auto]
                    0 <= j < i && is_pal_name(names@[j]@) ==> (lod@[names@[j]@].len()
                        == PALETTE_DATA_SIZE && spec_palette_id(names@[j]@) is Some),
                forall|j: int| #![auto]
                    0 <= j < i && is_pal_name(names@[j]@) ==> (
                    spec_palette_id(names@[j]@) matches Some(id) && Self::slots_map(
                        slots@,
                    ).contains_key(id as u16)),
                forall|id: u16| #![auto]
                    Self::slots_map(slots@).contains_key(id) ==> exists|nm: Seq<char>|
                        lod@.contains_key(nm) && is_pal_name(nm) && spec_palette_id(nm) == Some(
                            id as int,
                        ) && Self::slots_map(slots@)[id] == lod@[nm].subrange(
                            48,
                            lod@[nm].len() as int,
                        ),
            decreases n - i,
        {
            let name: &String = &names[i];
            let ghost nm = names@[i as int]@;
            if Self::name_matches(name.as_str()) {
                proof {
                    assert(lod@.contains_key(nm));
                }
                let data: &[u8] = match lod.try_get_bytes(name.as_str()) {
                    Some(v) => v,
                    None => {
                        return Err(LodError::MalformedPalette);
                    },
                };
                let palette: Palette = match Palette::try_from(data) {
                    Ok(p) => p,
                    Err(e) => {
                        proof {
                            assert(lod@[nm].len() != PALETTE_DATA_SIZE);
                            assert(!all_palettes_ok(lod@));
                        }
                        return Err(e);
                    },
                };
                let id: u16 = match extract_palette_id(name.as_str()) {
                    Ok(id) => id,
                    Err(e) => {
                        proof {
                            assert(spec_palette_id(nm) is None);
                            assert(!all_palettes_ok(lod@));
                        }
                        return Err(e);
                    },
                };
                let ghost before = slots@.map_values(|s: PaletteSlot| (s.id, s.palette.data@));
                let ghost oldmap = Self::slots_map(slots@);
                let ghost pdata = palette.data@;
                slots.push(PaletteSlot { id, palette });
                proof {
                    let after = slots@.map_values(|s: PaletteSlot| (s.id, s.palette.data@));
                    lemma_assoc_agree(after, before, before.len() as int);
                    assert(Self::slots_map(slots@) == oldmap.insert(id, pdata));
                    assert(pdata == lod@[nm].subrange(48, lod@[nm].len() as int));
                    assert forall|id2: u16| #![auto]
                        Self::slots_map(slots@).contains_key(id2) implies exists|nm2: Seq<char>|
                        lod@.contains_key(nm2) && is_pal_name(nm2) && spec_palette_id(nm2) == Some(
                            id2 as int,
                        ) && Self::slots_map(slots@)[id2] == lod@[nm2].subrange(
                            48,
                            lod@[nm2].len() as int,
                        ) by {
                        if id2 == id {
                            assert(lod@.contains_key(nm) && is_pal_name(nm) && spec_palette_id(nm)
                                == Some(id2 as int) && Self::slots_map(slots@)[id2]
                                == lod@[nm].subrange(48, lod@[nm].len() as int));
                        } else {
                            assert(oldmap.contains_key(id2));
                            let nm2 = choose|nm2: Seq<char>|
                                lod@.contains_key(nm2) && is_pal_name(nm2) && spec_palette_id(nm2)
                                    == Some(id2 as int) && oldmap[id2] == lod@[nm2].subrange(
                                    48,
                                    lod@[nm2].len() as int,
                                );
                            assert(lod@.contains_key(nm2) && is_pal_name(nm2) && spec_palette_id(
                                nm2,
                            ) == Some(id2 as int) && Self::slots_map(slots@)[id2]
                                == lod@[nm2].subrange(48, lod@[nm2].len() as int));
                        }
                    }
                }
            }
            i += 1;
        }
        let p = Palettes { slots };
        proof {
            assert forall|nm: Seq<char>| #![auto]
                lod@.contains_key(nm) && is_pal_name(nm) implies (lod@[nm].len()
                == PALETTE_DATA_SIZE && spec_palette_id(nm) is Some && (
            spec_palette_id(nm) matches Some(id) && p@.contains_key(id as u16))) by {
                let j = choose|j: int| 0 <= j < n && names@[j]@ == nm;
                assert(is_pal_name(names@[j]@));
            }
            if names_lowered(lod@) {
                let table = spec_palette_table(lod@);
                assert forall|id: u16| #![auto] p@.contains_key(id) implies table.contains_key(
                    id,
                ) && p@[id] == table[id] by {
                    let nm = choose|nm: Seq<char>|
                        lod@.contains_key(nm) && is_pal_name(nm) && spec_palette_id(nm) == Some(
                            id as int,
                        ) && p@[id] == lod@[nm].subrange(48, lod@[nm].len() as int);
                    assert(table.contains_key(id));
                    let nm2 = choose|nm2: Seq<char>|
                        lod@.contains_key(nm2) && is_pal_name(nm2) && spec_palette_id(nm2)
                            == Some(id as int);
                    lemma_pal_name_unique(nm, id as int);
                    lemma_pal_name_unique(nm2, id as int);
                }
                assert forall|id: u16| #![auto] table.contains_key(id) implies p@.contains_key(
                    id,
                ) by {
                    let nm = choose|nm: Seq<char>|
                        lod@.contains_key(nm) && is_pal_name(nm) && spec_palette_id(nm) == Some(
                            id as int,
                        );
                    assert(lod@.contains_key(nm) && is_pal_name(nm));
                }
                assert(p@ =~= table);
            }
        }
        Ok(p)
    }

    /// The map a slot sequence denotes.
    closed spec fn slots_map(s: Seq<PaletteSlot>) -> Map<u16, Seq<u8>> {
        assoc_map(s.map_values(|s: PaletteSlot| (s.id, s.palette.data@)))
    }

    /// Whether a name is six characters starting with `pal`, lower-cased.
    fn name_matches(s: &str) -> (r: bool)
        ensures
            r == is_pal_name(s@),
    {
        let n: usize = vstd::string::StrSliceExecFns::unicode_len(s);
        if n != 6 {
            return false;
        }
        let c0: u32 = vstd::string::StrSliceExecFns::get_char(s, 0) as u32;
        let c1: u32 = vstd::string::StrSliceExecFns::get_char(s, 1) as u32;
        let c2: u32 = vstd::string::StrSliceExecFns::get_char(s, 2) as u32;
        let l0: u32 = if 65 <= c0 && c0 <= 90 {
            c0 + 32
        } else {
            c0
        };
        let l1: u32 = if 65 <= c1 && c1 <= 90 {
            c1 + 32
        } else {
            c1
        };
        let l2: u32 = if 65 <= c2 && c2 <= 90 {
            c2 + 32
        } else {
            c2
        };
        l0 == 112 && l1 == 97 && l2 == 108
    }

    /// The palette stored under an id; a missing id is an expected,
    /// non-error condition.
    pub fn get(&self, id: u16) -> (r: Option<&Palette>)
        ensures
            match r {
                Some(p) => self@.contains_key(id) && p.data@ == self@[id],
                None => !self@.contains_key(id),
            },
    {
        let n: usize = self.slots.len();
        let ghost pairs = self.slots@.map_values(|s: PaletteSlot| (s.id, s.palette.data@));
        let mut i: usize = n;
        while i > 0
            invariant
                i <= n == self.slots@.len(),
                pairs == self.slots@.map_values(|s: PaletteSlot| (s.id, s.palette.data@)),
                forall|j: int| i <= j < n ==> self.slots@[j].id != id,
            decreases i,
        {
            i -= 1;
            if self.slots[i].id == id {
                proof {
                    lemma_assoc_found(pairs, id, i as int, n as int);
                }
                return Some(&self.slots[i].palette);
            }
        }
        proof {
            lemma_assoc_absent(pairs, id, n as int);
        }
        None
    }
}

} // verus!
