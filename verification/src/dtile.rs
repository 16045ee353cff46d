//! The terrain tile catalog (`dtile.bin`) and the tile table derived from
//! it: per-map resolution of the 256 terrain tile indices to tile names, a
//! deduplicated sorted name set, a near-square atlas grid shape, and the
//! atlas coordinates of every tile index.

use vstd::prelude::*;

use crate::bytes::{as_i16, is_ascii_seq, le16, le32, name_in_block, nul_scan, read_name_block};
use crate::error::LodError;
use crate::image::{name_views, RgbaImage};
use crate::lod_data::{entry_plain_bytes, LodData};
use crate::resolve_spec;
use crate::LodManager;

verus! {

/// Byte size of one tile record.
pub const TILE_RECORD_SIZE: usize = 26;

/// One tile catalog record.
pub struct Tile {
    /// The tile name block, 16 bytes, NUL-terminated.
    pub name: Vec<u8>,
    /// Tile id.
    pub id: i16,
    /// Bitmap id.
    pub bitmap: i16,
    /// Tile set id.
    pub tile_set: i16,
    /// Section id.
    pub section: i16,
    /// Behavioral bit flags.
    pub attributes: u16,
}

impl Tile {
    /// The tile burns.
    pub fn is_burn(&self) -> (r: bool)
        ensures
            r == ((self.attributes & 0x0001) != 0),
    {
        (self.attributes & 0x0001) != 0
    }

    /// The tile is water.
    pub fn is_water(&self) -> (r: bool)
        ensures
            r == ((self.attributes & 0x0002) != 0),
    {
        (self.attributes & 0x0002) != 0
    }

    /// The tile blocks movement.
    pub fn is_block(&self) -> (r: bool)
        ensures
            r == ((self.attributes & 0x0004) != 0),
    {
        (self.attributes & 0x0004) != 0
    }

    /// The tile repulses.
    pub fn is_repulse(&self) -> (r: bool)
        ensures
            r == ((self.attributes & 0x0010) != 0),
    {
        (self.attributes & 0x0010) != 0
    }

    /// The tile is flat.
    pub fn is_flat(&self) -> (r: bool)
        ensures
            r == ((self.attributes & 0x0020) != 0),
    {
        (self.attributes & 0x0020) != 0
    }

    /// The tile waves.
    pub fn is_wave(&self) -> (r: bool)
        ensures
            r == ((self.attributes & 0x0040) != 0),
    {
        (self.attributes & 0x0040) != 0
    }

    /// The tile is not drawn.
    pub fn is_no_draw(&self) -> (r: bool)
        ensures
            r == ((self.attributes & 0x0080) != 0),
    {
        (self.attributes & 0x0080) != 0
    }

    /// The tile is a water transition.
    pub fn is_water_transition(&self) -> (r: bool)
        ensures
            r == ((self.attributes & 0x0200) != 0),
    {
        (self.attributes & 0x0200) != 0
    }

    /// The tile is a transition.
    pub fn is_transition(&self) -> (r: bool)
        ensures
            r == ((self.attributes & 0x0400) != 0),
    {
        (self.attributes & 0x0400) != 0
    }

    /// The tile scrolls down.
    pub fn is_scroll_down(&self) -> (r: bool)
        ensures
            r == ((self.attributes & 0x0800) != 0),
    {
        (self.attributes & 0x0800) != 0
    }

    /// The tile scrolls up.
    pub fn is_scroll_up(&self) -> (r: bool)
        ensures
            r == ((self.attributes & 0x1000) != 0),
    {
        (self.attributes & 0x1000) != 0
    }

    /// The tile scrolls left.
    pub fn is_scroll_left(&self) -> (r: bool)
        ensures
            r == ((self.attributes & 0x2000) != 0),
    {
        (self.attributes & 0x2000) != 0
    }

    /// The tile scrolls right.
    pub fn is_scroll_right(&self) -> (r: bool)
        ensures
            r == ((self.attributes & 0x4000) != 0),
    {
        (self.attributes & 0x4000) != 0
    }
}

/// The display name of a tile name block: its lower-cased NUL-terminated
/// text, with the sentinel `pending` standing in for an empty or
/// non-ASCII name.
pub open spec fn tile_display_name(name: Seq<u8>) -> Seq<char> {
    if !is_ascii_seq(name.subrange(0, nul_scan(name, 0, 16))) {
        "pending"@
    } else if name_in_block(name, 0, 16).len() == 0 {
        "pending"@
    } else {
        name_in_block(name, 0, 16)
    }
}

impl Tile {
    /// The tile's display name, with `pending` standing in for an empty
    /// name.
    pub fn name(&self) -> (r: Option<String>)
        requires
            self.name@.len() == 16,
        ensures
            match r {
                Some(s) => s@ == tile_display_name(self.name@) && s@ != ""@,
                None => !is_ascii_seq(self.name@.subrange(0, nul_scan(self.name@, 0, 16))),
            },
    {
        match read_name_block(self.name.as_slice(), 0, 16) {
            Some(s) => {
                if s.as_str().unicode_len() == 0 {
                    proof {
                        reveal_strlit("pending");
                        reveal_strlit("");
                    }
                    Some(<String as vstd::string::StringExecFns>::from_str("pending"))
                } else {
                    proof {
                        reveal_strlit("");
                    }
                    Some(s)
                }
            },
            None => None,
        }
    }
}

/// Start of tile record `i` in the catalog bytes.
pub open spec fn tile_rec_at(i: int) -> int {
    4 + 26 * i
}

/// The whole catalog lies inside the bytes: a leading count and that many
/// whole records.
pub open spec fn dtile_ok(d: Seq<u8>) -> bool {
    &&& d.len() >= 4
    &&& 4 + 26 * le32(d, 0) <= d.len()
}

/// Tile record `i` of the catalog has exactly the given fields.
pub open spec fn tile_matches(d: Seq<u8>, i: int, t: Tile) -> bool {
    let b = tile_rec_at(i);
    &&& t.name@ == d.subrange(b, b + 16)
    &&& t.id as int == as_i16(le16(d, b + 16))
    &&& t.bitmap as int == as_i16(le16(d, b + 18))
    &&& t.tile_set as int == as_i16(le16(d, b + 20))
    &&& t.section as int == as_i16(le16(d, b + 22))
    &&& t.attributes == le16(d, b + 24)
}

/// The raw tile catalog: all records of `icons/dtile.bin`.
pub struct Dtile {
    /// The records, in file order.
    pub tiles: Vec<Tile>,
}

impl Dtile {
    /// Decode the tile catalog out of an archive set: resolve
    /// `icons/dtile.bin`, strip its compression framing, and read the
    /// count-prefixed fixed-size records.
    pub fn new(lod_manager: &LodManager) -> (r: Result<Dtile, LodError>)
        ensures
            match resolve_spec(lod_manager@, "icons/dtile.bin"@) {
                None => r == Err::<Dtile, LodError>(LodError::NotFound),
                Some(raw) => {
                    let d = entry_plain_bytes(raw);
                    match r {
                        Ok(t) => {
                            &&& dtile_ok(d)
                            &&& t.tiles@.len() == le32(d, 0)
                            &&& forall|i: int|
                                0 <= i < t.tiles@.len() ==> tile_matches(
                                    d,
                                    i,
                                    #[trigger] t.tiles@[i],
                                )
                        },
                        Err(e) => !dtile_ok(d) && e == LodError::Truncated,
                    }
                },
            },
    {
        let raw: &[u8] = match lod_manager.try_get_bytes("icons/dtile.bin") {
            Ok(v) => v,
            Err(e) => {
                return Err(e);
            },
        };
        let data: LodData = LodData::try_from(raw);
        let d: &[u8] = data.data.as_slice();
        let len: usize = d.len();
        if len < 4 {
            return Err(LodError::Truncated);
        }
        let count: u32 = crate::bytes::read_u32_le(d, 0);
        if 4 + 26 * (count as u64) > len as u64 {
            return Err(LodError::Truncated);
        }
        let n: usize = count as usize;
        let mut tiles: Vec<Tile> = Vec::new();
        let mut i: usize = 0;
        while i < n
            invariant
                i <= n,
                n == le32(d@, 0),
                4 + 26 * n <= len == d@.len(),
                tiles@.len() == i,
                forall|j: int| 0 <= j < i ==> tile_matches(d@, j, #[trigger] tiles@[j]),
            decreases n - i,
        {
            let b: usize = 4 + 26 * i;
            tiles.push(
                Tile {
                    name: crate::bytes::copy_range(d, b, b + 16),
                    id: crate::bytes::read_i16_le(d, b + 16),
                    bitmap: crate::bytes::read_i16_le(d, b + 18),
                    tile_set: crate::bytes::read_i16_le(d, b + 20),
                    section: crate::bytes::read_i16_le(d, b + 22),
                    attributes: crate::bytes::read_u16_le(d, b + 24),
                },
            );
            i += 1;
        }
        Ok(Dtile { tiles })
    }
}

/// Strict lexicographic order on character sequences, by character value,
/// a proper prefix ordering before its extensions.
pub open spec fn lex_lt(a: Seq<char>, b: Seq<char>) -> bool
    decreases a.len(),
{
    if b.len() == 0 {
        false
    } else if a.len() == 0 {
        true
    } else if a[0] != b[0] {
        (a[0] as int) < (b[0] as int)
    } else {
        lex_lt(a.drop_first(), b.drop_first())
    }
}

/// The tile name order: lexicographic, except that the sentinel `pending`
/// sorts after every other name.
pub open spec fn tile_name_lt(a: Seq<char>, b: Seq<char>) -> bool {
    if a == "pending"@ {
        false
    } else if b == "pending"@ {
        true
    } else {
        lex_lt(a, b)
    }
}

/// A name reserved for roads, excluded from the atlas-packing set.
pub open spec fn is_drr_name(nm: Seq<char>) -> bool {
    nm.len() >= 3 && nm[0] == 'd' && nm[1] == 'r' && nm[2] == 'r'
}

/// Strictly ascending in the tile name order.
pub open spec fn tile_names_sorted(s: Seq<Seq<char>>) -> bool {
    forall|i: int, j: int|
        #![trigger s[i], s[j]]
        0 <= i < j < s.len() ==> tile_name_lt(s[i], s[j])
}

proof fn lemma_lex_lt_irrefl(a: Seq<char>)
    ensures
        !lex_lt(a, a),
    decreases a.len(),
{
    if a.len() > 0 {
        lemma_lex_lt_irrefl(a.drop_first());
    }
}

proof fn lemma_lex_lt_trans(a: Seq<char>, b: Seq<char>, c: Seq<char>)
    requires
        lex_lt(a, b),
        lex_lt(b, c),
    ensures
        lex_lt(a, c),
    decreases a.len(),
{
    if a.len() > 0 && b.len() > 0 && c.len() > 0 && a[0] == b[0] && b[0] == c[0] {
        lemma_lex_lt_trans(a.drop_first(), b.drop_first(), c.drop_first());
    }
}

proof fn lemma_lex_lt_connex(a: Seq<char>, b: Seq<char>)
    requires
        !lex_lt(a, b),
        !lex_lt(b, a),
    ensures
        a == b,
    decreases a.len(),
{
    if b.len() == 0 {
        assert(a.len() == 0);
        assert(a =~= b);
    } else {
        assert(a.len() > 0);
        assert(a[0] == b[0]);
        lemma_lex_lt_connex(a.drop_first(), b.drop_first());
        assert(a =~= b) by {
            assert(a.len() == a.drop_first().len() + 1);
            assert(b.len() == b.drop_first().len() + 1);
            assert(forall|i: int|
                1 <= i < a.len() ==> a[i] == a.drop_first()[i - 1] && b[i] == b.drop_first()[i
                    - 1]);
        }
    }
}

proof fn lemma_tile_name_lt_irrefl(a: Seq<char>)
    ensures
        !tile_name_lt(a, a),
{
    lemma_lex_lt_irrefl(a);
}

proof fn lemma_tile_name_lt_trans(a: Seq<char>, b: Seq<char>, c: Seq<char>)
    requires
        tile_name_lt(a, b),
        tile_name_lt(b, c),
    ensures
        tile_name_lt(a, c),
{
    if b != "pending"@ && c != "pending"@ {
        lemma_lex_lt_trans(a, b, c);
    }
}

proof fn lemma_tile_name_lt_connex(a: Seq<char>, b: Seq<char>)
    requires
        !tile_name_lt(a, b),
        !tile_name_lt(b, a),
    ensures
        a == b,
{
    if a == "pending"@ {
        assert(b == "pending"@);
    } else if b == "pending"@ {
    } else {
        lemma_lex_lt_connex(a, b);
    }
}

/// Strict lexicographic comparison of two strings, by character value.
fn lex_lt_exec(a: &str, b: &str) -> (r: bool)
    ensures
        r == lex_lt(a@, b@),
{
    let la: usize = vstd::string::StrSliceExecFns::unicode_len(a);
    let lb: usize = vstd::string::StrSliceExecFns::unicode_len(b);
    proof {
        assert(a@.skip(0) =~= a@);
        assert(b@.skip(0) =~= b@);
    }
    let mut i: usize = 0;
    while i < la && i < lb
        invariant
            i <= la == a@.len(),
            i <= lb == b@.len(),
            lex_lt(a@, b@) == lex_lt(a@.skip(i as int), b@.skip(i as int)),
        decreases la - i,
    {
        let ca: char = vstd::string::StrSliceExecFns::get_char(a, i);
        let cb: char = vstd::string::StrSliceExecFns::get_char(b, i);
        if ca as u32 != cb as u32 {
            proof {
                assert(a@.skip(i as int)[0] == a@[i as int]);
                assert(b@.skip(i as int)[0] == b@[i as int]);
            }
            return (ca as u32) < (cb as u32);
        }
        proof {
            assert(a@.skip(i as int)[0] == a@[i as int]);
            assert(b@.skip(i as int)[0] == b@[i as int]);
            assert(a@.skip(i as int).drop_first() =~= a@.skip(i + 1));
            assert(b@.skip(i as int).drop_first() =~= b@.skip(i + 1));
        }
        i += 1;
    }
    proof {
        assert(a@.skip(i as int).len() == la - i);
        assert(b@.skip(i as int).len() == lb - i);
    }
    la < lb
}

/// Comparison in the tile name order: `pending` sorts after everything.
fn tile_name_lt_exec(a: &String, b: &String) -> (r: bool)
    ensures
        r == tile_name_lt(a@, b@),
{
    let pend: String = <String as vstd::string::StringExecFns>::from_str("pending");
    if a.eq(&pend) {
        false
    } else if b.eq(&pend) {
        true
    } else {
        lex_lt_exec(a.as_str(), b.as_str())
    }
}

/// Whether a name starts with the reserved `drr` prefix.
fn is_drr_exec(s: &str) -> (r: bool)
    ensures
        r == is_drr_name(s@),
{
    let n: usize = vstd::string::StrSliceExecFns::unicode_len(s);
    if n < 3 {
        return false;
    }
    let c0: char = vstd::string::StrSliceExecFns::get_char(s, 0);
    let c1: char = vstd::string::StrSliceExecFns::get_char(s, 1);
    let c2: char = vstd::string::StrSliceExecFns::get_char(s, 2);
    c0 == 'd' && c1 == 'r' && c2 == 'r'
}

/// The first index at which a sorted name list is not below `nm`, or its
/// length.
fn find_insert_pos(set: &Vec<String>, nm: &String) -> (p: usize)
    ensures
        p <= set@.len(),
        forall|q: int| 0 <= q < p ==> tile_name_lt(name_views(set@)[q], nm@),
        p < set@.len() ==> !tile_name_lt(name_views(set@)[p as int], nm@),
{
    let n: usize = set.len();
    let mut p: usize = 0;
    while p < n
        invariant
            p <= n == set@.len(),
            forall|q: int| 0 <= q < p ==> tile_name_lt(name_views(set@)[q], nm@),
        decreases n - p,
    {
        if !tile_name_lt_exec(&set[p], nm) {
            return p;
        }
        proof {
            assert(name_views(set@)[p as int] == set@[p as int]@);
        }
        p += 1;
    }
    p
}

/// The first index at which the list holds `nm`, or its length.
pub open spec fn first_pos(set: Seq<Seq<char>>, nm: Seq<char>, i: int) -> int
    decreases set.len() - i,
{
    if i < 0 || i >= set.len() {
        set.len() as int
    } else if set[i] == nm {
        i
    } else {
        first_pos(set, nm, i + 1)
    }
}

/// The atlas slot of a name: its first position in the unique set, or the
/// last slot if it is absent.
pub open spec fn pos_or_last(set: Seq<Seq<char>>, nm: Seq<char>) -> int {
    if first_pos(set, nm, 0) < set.len() {
        first_pos(set, nm, 0)
    } else {
        set.len() - 1
    }
}

/// The index of `nm` in the list, or `len - 1` if it is absent.
fn find_pos_or_last(set: &Vec<String>, nm: &String) -> (p: usize)
    requires
        set@.len() >= 1,
    ensures
        p as int == pos_or_last(name_views(set@), nm@),
        p < set@.len(),
{
    let n: usize = set.len();
    let mut i: usize = 0;
    while i < n
        invariant
            i <= n == set@.len(),
            first_pos(name_views(set@), nm@, 0) == first_pos(name_views(set@), nm@, i as int),
        decreases n - i,
    {
        if set[i].eq(nm) {
            proof {
                assert(name_views(set@)[i as int] == set@[i as int]@);
                assert(first_pos(name_views(set@), nm@, i as int) == i);
            }
            return i;
        }
        proof {
            assert(name_views(set@)[i as int] == set@[i as int]@);
        }
        i += 1;
    }
    n - 1
}

/// The deduplicated tile name set: every non-`drr` name of the table,
/// each once, in the tile name order.
pub fn names_set(name_table: &Vec<String>) -> (r: Vec<String>)
    ensures
        tile_names_sorted(name_views(r@)),
        r@.len() <= name_table@.len(),
        forall|nm: Seq<char>| #![auto]
            name_views(r@).contains(nm) <==> (exists|k: int|
                0 <= k < name_table@.len() && name_views(name_table@)[k] == nm && !is_drr_name(
                    nm,
                )),
{
    let n: usize = name_table.len();
    let mut set: Vec<String> = Vec::new();
    let mut k: usize = 0;
    while k < n
        invariant
            k <= n == name_table@.len(),
            set@.len() <= k,
            tile_names_sorted(name_views(set@)),
            forall|nm: Seq<char>| #![auto]
                name_views(set@).contains(nm) <==> (exists|j: int|
                    0 <= j < k && name_views(name_table@)[j] == nm && !is_drr_name(nm)),
        decreases n - k,
    {
        let nm: &String = &name_table[k];
        let ghost nmv = name_table@[k as int]@;
        let ghost old_views = name_views(set@);
        proof {
            assert(name_views(name_table@)[k as int] == nmv);
        }
        if !is_drr_exec(nm.as_str()) {
            let p: usize = find_insert_pos(&set, nm);
            let mut dup: bool = false;
            if p < set.len() {
                if set[p].eq(nm) {
                    dup = true;
                }
            }
            if dup {
                proof {
                    assert(name_views(set@)[p as int] == set@[p as int]@);
                    assert(name_views(set@).contains(nmv));
                    assert forall|nm2: Seq<char>| #![auto]
                        name_views(set@).contains(nm2) implies (exists|j: int|
                        0 <= j < k + 1 && name_views(name_table@)[j] == nm2 && !is_drr_name(
                            nm2,
                        )) by {
                        let j = choose|j: int|
                            0 <= j < k && name_views(name_table@)[j] == nm2 && !is_drr_name(nm2);
                        assert(0 <= j < k + 1 && name_views(name_table@)[j] == nm2);
                    }
                }
            } else {
                proof {
                    if p < set@.len() {
                        assert(name_views(set@)[p as int] == set@[p as int]@);
                        if !tile_name_lt(nmv, name_views(set@)[p as int]) {
                            lemma_tile_name_lt_connex(name_views(set@)[p as int], nmv);
                            assert(false);
                        }
                    }
                }
                set.insert(p, nm.clone());
                proof {
                    old_views.insert_ensures(p as int, nmv);
                    let new_views = name_views(set@);
                    assert(new_views =~= old_views.insert(p as int, nmv)) by {
                        assert(new_views.len() == old_views.len() + 1);
                        assert(forall|x: int|
                            0 <= x < new_views.len() ==> #[trigger] new_views[x] == set@[x]@);
                    }
                    assert forall|i: int, j: int|
                        #![trigger new_views[i], new_views[j]]
                        0 <= i < j < new_views.len() implies tile_name_lt(
                        new_views[i],
                        new_views[j],
                    ) by {
                        if j < p {
                        } else if i < p && j == p {
                            assert(new_views[i] == old_views[i]);
                            assert(new_views[j] == nmv);
                        } else if i < p && j > p {
                            assert(new_views[i] == old_views[i]);
                            assert(new_views[j] == old_views[j - 1]);
                            if j - 1 == i {
                                assert(i == p - 1 && j == p + 1);
                                assert(tile_name_lt(old_views[i], nmv));
                                assert(tile_name_lt(nmv, old_views[p as int]));
                                lemma_tile_name_lt_trans(
                                    old_views[i],
                                    nmv,
                                    old_views[p as int],
                                );
                            }
                        } else if i == p {
                            assert(new_views[i] == nmv);
                            assert(new_views[j] == old_views[j - 1]);
                            assert(tile_name_lt(nmv, old_views[p as int]));
                            if j - 1 > p {
                                assert(tile_name_lt(old_views[p as int], old_views[j - 1]));
                                lemma_tile_name_lt_trans(
                                    nmv,
                                    old_views[p as int],
                                    old_views[j - 1],
                                );
                            }
                        } else {
                            assert(new_views[i] == old_views[i - 1]);
                            assert(new_views[j] == old_views[j - 1]);
                        }
                    }
                    assert forall|nm2: Seq<char>| #![auto]
                        new_views.contains(nm2) implies (exists|j: int|
                        0 <= j < k + 1 && name_views(name_table@)[j] == nm2 && !is_drr_name(
                            nm2,
                        )) by {
                        let x = choose|x: int| 0 <= x < new_views.len() && new_views[x] == nm2;
                        if x == p {
                            assert(name_views(name_table@)[k as int] == nm2);
                        } else {
                            let xo: int = if x < p {
                                x
                            } else {
                                x - 1
                            };
                            assert(old_views[xo] == nm2);
                            assert(old_views.contains(nm2));
                            let j = choose|j: int|
                                0 <= j < k && name_views(name_table@)[j] == nm2 && !is_drr_name(
                                    nm2,
                                );
                            assert(0 <= j < k + 1 && name_views(name_table@)[j] == nm2);
                        }
                    }
                    assert forall|nm2: Seq<char>| #![auto]
                        (exists|j: int|
                            0 <= j < k + 1 && name_views(name_table@)[j] == nm2 && !is_drr_name(
                                nm2,
                            )) implies new_views.contains(nm2) by {
                        let j = choose|j: int|
                            0 <= j < k + 1 && name_views(name_table@)[j] == nm2 && !is_drr_name(
                                nm2,
                            );
                        if j == k {
                            assert(new_views[p as int] == nm2);
                        } else {
                            assert(old_views.contains(nm2));
                            let x = choose|x: int|
                                0 <= x < old_views.len() && old_views[x] == nm2;
                            if x < p {
                                assert(new_views[x] == nm2);
                            } else {
                                assert(new_views[x + 1] == nm2);
                            }
                        }
                    }
                }
            }
        } else {
            proof {
                assert forall|nm2: Seq<char>| #![auto]
                    name_views(set@).contains(nm2) implies (exists|j: int|
                    0 <= j < k + 1 && name_views(name_table@)[j] == nm2 && !is_drr_name(
                        nm2,
                    )) by {
                    let j = choose|j: int|
                        0 <= j < k && name_views(name_table@)[j] == nm2 && !is_drr_name(nm2);
                    assert(0 <= j < k + 1 && name_views(name_table@)[j] == nm2);
                }
            }
        }
        k += 1;
    }
    set
}

/// The derived per-map tile table: the resolved name of each of the 256
/// terrain tile indices, the deduplicated sorted name set, the atlas grid
/// shape, and the atlas coordinates of every tile index.
pub struct TileTable {
    /// Grid shape: (columns, rows).
    pub size: (u8, u8),
    /// The resolved tile name of each of the 256 tile indices.
    pub names_table: Vec<String>,
    /// The deduplicated name set, sorted with `pending` last.
    pub names_set: Vec<String>,
    /// The atlas (column, row) of each of the 256 tile indices.
    pub coordinates_table: Vec<(u8, u8)>,
}

impl TileTable {
    /// The table is internally consistent: the set holds exactly the
    /// non-`drr` names of the name table, sorted and deduplicated; the
    /// grid is `min(n, 10)` columns by `ceil(n / 10)` rows; and each tile
    /// index's coordinates place its name's set position in that grid,
    /// names missing from the set landing in the last slot.
    pub open spec fn wf(&self) -> bool {
        &&& self.names_table@.len() == 256
        &&& self.coordinates_table@.len() == 256
        &&& 1 <= self.names_set@.len() <= 256
        &&& tile_names_sorted(name_views(self.names_set@))
        &&& (forall|nm: Seq<char>| #![auto]
            name_views(self.names_set@).contains(nm) <==> (exists|k: int|
                0 <= k < 256 && name_views(self.names_table@)[k] == nm && !is_drr_name(nm)))
        &&& self.size.0 as int == (if self.names_set@.len() < 10 {
            self.names_set@.len() as int
        } else {
            10
        })
        &&& self.size.1 as int == (self.names_set@.len() + 9) / 10
        &&& forall|i: int| #![auto]
            0 <= i < 256 ==> (self.coordinates_table@[i].0 as int == pos_or_last(
                name_views(self.names_set@),
                name_views(self.names_table@)[i],
            ) % (self.size.0 as int) && self.coordinates_table@[i].1 as int == pos_or_last(
                name_views(self.names_set@),
                name_views(self.names_table@)[i],
            ) / (self.size.0 as int))
    }

    /// The grid shape for `total_elements` tiles in rows of `row_size`:
    /// `min` columns, and as many rows as it takes.
    fn matrix_dimensions(total_elements: usize, row_size: usize) -> (r: (u8, u8))
        requires
            1 <= total_elements <= 256,
            2 <= row_size <= 128,
        ensures
            r.0 as int == (if total_elements < row_size {
                total_elements as int
            } else {
                row_size as int
            }),
            r.1 as int == (total_elements + row_size - 1) / (row_size as int),
    {
        proof {
            assert((total_elements + row_size - 1) / (row_size as int) <= 191) by (
            nonlinear_arith)
                requires
                    1 <= total_elements <= 256,
                    2 <= row_size <= 128,
            ;
        }
        let num_rows: usize = (total_elements + row_size - 1) / row_size;
        let num_cols: usize = if total_elements < row_size {
            total_elements
        } else {
            row_size
        };
        (num_cols as u8, num_rows as u8)
    }

    /// Derive the whole table from the 256 resolved tile names: the
    /// sorted unique set, the grid shape in rows of 10, and the per-index
    /// coordinates.
    pub fn new(names_table: Vec<String>) -> (r: TileTable)
        requires
            names_table@.len() == 256,
            exists|k: int| 0 <= k < 256 && !is_drr_name(#[trigger] name_views(names_table@)[k]),
        ensures
            r.wf(),
            r.names_table@ == names_table@,
    {
        let set: Vec<String> = names_set(&names_table);
        proof {
            let k = choose|k: int| 0 <= k < 256 && !is_drr_name(name_views(names_table@)[k]);
            assert(name_views(set@).contains(name_views(names_table@)[k]));
            let x = choose|x: int|
                0 <= x < name_views(set@).len() && name_views(set@)[x] == name_views(
                    names_table@,
                )[k];
            assert(set@.len() >= 1);
        }
        let size: (u8, u8) = Self::matrix_dimensions(set.len(), 10);
        let mut coords: Vec<(u8, u8)> = Vec::new();
        let mut i: usize = 0;
        while i < 256
            invariant
                i <= 256,
                names_table@.len() == 256,
                1 <= set@.len() <= 256,
                size.0 as int == (if set@.len() < 10 {
                    set@.len() as int
                } else {
                    10
                }),
                coords@.len() == i,
                forall|j: int| #![auto]
                    0 <= j < i ==> (coords@[j].0 as int == pos_or_last(
                        name_views(set@),
                        name_views(names_table@)[j],
                    ) % (size.0 as int) && coords@[j].1 as int == pos_or_last(
                        name_views(set@),
                        name_views(names_table@)[j],
                    ) / (size.0 as int)),
            decreases 256 - i,
        {
            let pos: usize = find_pos_or_last(&set, &names_table[i]);
            let cols: usize = size.0 as usize;
            let cx: usize = pos % cols;
            let cy: usize = pos / cols;
            coords.push((cx as u8, cy as u8));
            proof {
                assert(name_views(names_table@)[i as int] == names_table@[i as int]@);
            }
            i += 1;
        }
        TileTable { size, names_table, names_set: set, coordinates_table: coords }
    }

    /// The grid shape: (columns, rows).
    pub fn size(&self) -> (r: (u8, u8))
        ensures
            r == self.size,
    {
        self.size
    }

    /// The resolved tile name of a terrain tile index.
    pub fn name(&self, tile_index: u8) -> (r: &str)
        requires
            self.wf(),
        ensures
            r@ == name_views(self.names_table@)[tile_index as int],
    {
        proof {
            assert(name_views(self.names_table@)[tile_index as int]
                == self.names_table@[tile_index as int]@);
        }
        self.names_table[tile_index as usize].as_str()
    }

    /// The atlas (column, row) of a terrain tile index.
    pub fn coordinate(&self, tile_index: u8) -> (r: (u8, u8))
        requires
            self.wf(),
        ensures
            r == self.coordinates_table@[tile_index as int],
    {
        self.coordinates_table[tile_index as usize]
    }

    /// Build the pixel atlas of this table's unique name set: each name's
    /// bitmap looked up under the `bitmaps` namespace, tiled row-major in
    /// the table's grid shape.
    pub fn atlas_image(&self, lod_manager: &LodManager) -> (r: Result<RgbaImage, LodError>)
        requires
            self.wf(),
        ensures
            r is Ok <==> crate::image::atlas_err(
                lod_manager@,
                name_views(self.names_set@),
                0,
            ) is None,
            match r {
                Ok(a) => {
                    &&& a.wf()
                    &&& a.width == 128 * (self.size.0 as int)
                    &&& a.height == 128 * (self.size.1 as int)
                    &&& a.data@ == Seq::new(
                        (4 * (a.width * a.height)) as nat,
                        |k: int|
                            crate::image::atlas_byte(
                                crate::image::atlas_tiles(
                                    lod_manager@,
                                    name_views(self.names_set@),
                                ),
                                self.size.0 as int,
                                k,
                            ),
                    )
                },
                Err(e) => crate::image::atlas_err(lod_manager@, name_views(self.names_set@), 0)
                    == Some(e),
            },
    {
        let n: usize = self.names_set.len();
        let cols: usize = self.size.0 as usize;
        proof {
            assert((n + cols - 1) / (cols as int) <= n) by (nonlinear_arith)
                requires
                    1 <= cols,
                    1 <= n,
            ;
            assert((128 * cols) * (128 * crate::image::grid_rows(n as int, cols as int)) <= 1280
                * 32768) by (nonlinear_arith)
                requires
                    128 * cols <= 1280,
                    0 <= 128 * crate::image::grid_rows(n as int, cols as int) <= 32768,
            ;
            if n < 10 {
                assert((n + n - 1) / (n as int) == 1) by (nonlinear_arith)
                    requires
                        1 <= n < 10,
                ;
            }
        }
        crate::image::get_atlas(lod_manager, &self.names_set, cols)
    }
}

/// The catalog index a terrain tile index draws its name from: banded
/// rules against fixed numeric ranges, three bands shifted by the map's
/// remap vector, one fixed band, and identity elsewhere.
pub open spec fn source_index(td: Seq<u16>, i: int) -> int {
    if 90 <= i < 125 {
        i - 90 + td[1]
    } else if 126 <= i < 161 {
        i
    } else if 162 <= i < 197 {
        i - 162 + td[5]
    } else if i >= 198 {
        i - 198 + td[7]
    } else {
        i
    }
}

/// The resolved display names of all 256 terrain tile indices.
pub open spec fn table_names(tiles: Seq<Tile>, td: Seq<u16>) -> Seq<Seq<char>> {
    Seq::new(256, |i: int| tile_display_name(tiles[source_index(td, i)].name@))
}

impl Dtile {
    /// Every stored tile record has a whole 16-byte name block.
    pub open spec fn wf(&self) -> bool {
        forall|i: int| 0 <= i < self.tiles@.len() ==> (#[trigger] self.tiles@[i]).name@.len()
            == 16
    }

    /// Derive a map's tile table from this catalog and the map's 8-entry
    /// tile-group remap vector. `None` if a remapped index falls outside
    /// the catalog, or if no tile resolves to an atlas-packable name.
    pub fn table(&self, tile_data: &Vec<u16>) -> (r: Option<TileTable>)
        requires
            self.wf(),
            tile_data@.len() == 8,
        ensures
            r is Some <==> ((forall|i: int|
                0 <= i < 256 ==> source_index(tile_data@, i) < self.tiles@.len()) && (exists|
                k: int,
            |
                0 <= k < 256 && !is_drr_name(
                    #[trigger] table_names(self.tiles@, tile_data@)[k],
                ))),
            match r {
                Some(t) => {
                    &&& t.wf()
                    &&& name_views(t.names_table@) == table_names(self.tiles@, tile_data@)
                },
                None => true,
            },
    {
        let mut names: Vec<String> = Vec::new();
        let mut i: usize = 0;
        while i < 256
            invariant
                i <= 256,
                self.wf(),
                tile_data@.len() == 8,
                names@.len() == i,
                forall|j: int| 0 <= j < i ==> source_index(tile_data@, j) < self.tiles@.len(),
                forall|j: int|
                    0 <= j < i ==> (#[trigger] names@[j])@ == table_names(
                        self.tiles@,
                        tile_data@,
                    )[j],
            decreases 256 - i,
        {
            let idx32: u32 = if 90 <= i && i < 125 {
                i as u32 - 90 + tile_data[1] as u32
            } else if 126 <= i && i < 161 {
                i as u32
            } else if 162 <= i && i < 197 {
                i as u32 - 162 + tile_data[5] as u32
            } else if i >= 198 {
                i as u32 - 198 + tile_data[7] as u32
            } else {
                i as u32
            };
            if idx32 as usize >= self.tiles.len() {
                proof {
                    assert(source_index(tile_data@, i as int) >= self.tiles@.len());
                }
                return None;
            }
            let tile: &Tile = &self.tiles[idx32 as usize];
            let nm: String = match tile.name() {
                Some(s) => s,
                None => <String as vstd::string::StringExecFns>::from_str("pending"),
            };
            proof {
                assert(nm@ == tile_display_name(self.tiles@[idx32 as int].name@));
                assert(table_names(self.tiles@, tile_data@)[i as int] == tile_display_name(
                    self.tiles@[source_index(tile_data@, i as int)].name@,
                ));
            }
            names.push(nm);
            i += 1;
        }
        let mut any: bool = false;
        let mut k: usize = 0;
        while k < 256
            invariant
                k <= 256,
                names@.len() == 256,
                forall|j: int|
                    0 <= j < 256 ==> (#[trigger] names@[j])@ == table_names(
                        self.tiles@,
                        tile_data@,
                    )[j],
                any <==> (exists|j: int|
                    0 <= j < k && !is_drr_name(#[trigger] table_names(self.tiles@, tile_data@)[j])),
            decreases 256 - k,
        {
            if !is_drr_exec(names[k].as_str()) {
                proof {
                    assert(!is_drr_name(table_names(self.tiles@, tile_data@)[k as int]));
                }
                any = true;
            }
            k += 1;
        }
        if !any {
            return None;
        }
        proof {
            assert forall|j: int| 0 <= j < 256 implies name_views(names@)[j] == table_names(
                self.tiles@,
                tile_data@,
            )[j] by {
                assert(name_views(names@)[j] == names@[j]@);
            }
            let j = choose|j: int|
                0 <= j < 256 && !is_drr_name(#[trigger] table_names(self.tiles@, tile_data@)[j]);
            assert(!is_drr_name(name_views(names@)[j]));
        }
        let t: TileTable = TileTable::new(names);
        proof {
            assert(name_views(t.names_table@) =~= table_names(self.tiles@, tile_data@));
        }
        Some(t)
    }
}

/// Two strictly sorted name lists that hold the same names are the same
/// list: the sorted unique set is a function of its membership alone.
pub proof fn lemma_sorted_set_unique(s1: Seq<Seq<char>>, s2: Seq<Seq<char>>)
    requires
        tile_names_sorted(s1),
        tile_names_sorted(s2),
        forall|nm: Seq<char>| #![auto] s1.contains(nm) <==> s2.contains(nm),
    ensures
        s1 == s2,
    decreases s1.len(),
{
    if s1.len() == 0 {
        if s2.len() > 0 {
            assert(s2.contains(s2[0]));
            assert(s1.contains(s2[0]));
        }
        assert(s1 =~= s2);
    } else {
        assert(s1.contains(s1[0]));
        assert(s2.contains(s1[0]));
        let j = choose|j: int| 0 <= j < s2.len() && s2[j] == s1[0];
        assert(s2.contains(s2[0]));
        assert(s1.contains(s2[0]));
        let k = choose|k: int| 0 <= k < s1.len() && s1[k] == s2[0];
        if j > 0 {
            assert(tile_name_lt(s2[0], s2[j]));
        }
        if k > 0 {
            assert(tile_name_lt(s1[0], s1[k]));
            lemma_tile_name_lt_trans(s1[0], s2[0], s1[0]);
            lemma_tile_name_lt_irrefl(s1[0]);
        }
        assert(s1[0] == s2[0]) by {
            if j > 0 && k == 0 {
                lemma_tile_name_lt_irrefl(s2[0]);
            }
        }
        let t1 = s1.drop_first();
        let t2 = s2.drop_first();
        assert forall|nm: Seq<char>| #![auto] t1.contains(nm) implies t2.contains(nm) by {
            let x = choose|x: int| 0 <= x < t1.len() && t1[x] == nm;
            assert(s1[x + 1] == nm);
            assert(s1.contains(nm));
            assert(s2.contains(nm));
            let y = choose|y: int| 0 <= y < s2.len() && s2[y] == nm;
            assert(tile_name_lt(s1[0], s1[x + 1]));
            if y == 0 {
                lemma_tile_name_lt_irrefl(s1[0]);
            }
            assert(t2[y - 1] == nm);
        }
        assert forall|nm: Seq<char>| #![auto] t2.contains(nm) implies t1.contains(nm) by {
            let x = choose|x: int| 0 <= x < t2.len() && t2[x] == nm;
            assert(s2[x + 1] == nm);
            assert(s2.contains(nm));
            assert(s1.contains(nm));
            let y = choose|y: int| 0 <= y < s1.len() && s1[y] == nm;
            assert(tile_name_lt(s2[0], s2[x + 1]));
            if y == 0 {
                lemma_tile_name_lt_irrefl(s2[0]);
            }
            assert(t1[y - 1] == nm);
        }
        assert(tile_names_sorted(t1)) by {
            assert(forall|i: int, j2: int|
                #![trigger t1[i], t1[j2]]
                0 <= i < j2 < t1.len() ==> t1[i] == s1[i + 1] && t1[j2] == s1[j2 + 1]);
        }
        assert(tile_names_sorted(t2)) by {
            assert(forall|i: int, j2: int|
                #![trigger t2[i], t2[j2]]
                0 <= i < j2 < t2.len() ==> t2[i] == s2[i + 1] && t2[j2] == s2[j2 + 1]);
        }
        lemma_sorted_set_unique(t1, t2);
        assert(s1 =~= s2) by {
            assert(forall|x: int| 1 <= x < s1.len() ==> s1[x] == t1[x - 1] && s2[x] == t2[x - 1]);
        }
    }
}

/// The unique-name set is determined by the name table alone: two tables
/// derived from the same 256 resolved names hold the same set, in the
/// same order.
pub proof fn lemma_names_set_deterministic(t1: &TileTable, t2: &TileTable)
    requires
        t1.wf(),
        t2.wf(),
        name_views(t1.names_table@) == name_views(t2.names_table@),
    ensures
        name_views(t1.names_set@) == name_views(t2.names_set@),
{
    lemma_sorted_set_unique(name_views(t1.names_set@), name_views(t2.names_set@));
}

/// If the sentinel `pending` is in the unique-name set at all, it is the
/// last entry: everything else sorts before it.
pub proof fn lemma_pending_sorts_last(t: &TileTable)
    requires
        t.wf(),
        name_views(t.names_set@).contains("pending"@),
    ensures
        name_views(t.names_set@).last() == "pending"@,
{
    let s = name_views(t.names_set@);
    let i = choose|i: int| 0 <= i < s.len() && s[i] == "pending"@;
    if i < s.len() - 1 {
        assert(tile_name_lt(s[i], s[s.len() - 1]));
    }
}

} // verus!
