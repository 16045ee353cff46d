//! The LOD archive container: a magic tag, a game-version token, and a
//! fixed-offset directory of named, offset-indexed entries whose bytes are
//! copied out and keyed by lower-cased entry name.

use vstd::prelude::*;

use crate::assoc::{assoc_map, lemma_assoc_absent, lemma_assoc_dom, lemma_assoc_found};
use crate::bytes::{
    as_i32, eq_bytes, is_ascii_seq, is_lower_ascii_name, le32, lemma_name_in_block_lowered,
    name_in_block, nul_scan, read_i32_le, read_name_block,
};
use crate::error::LodError;
use vstd::string::StringExecFns;

verus! {

/// Byte offset of the directory inside the archive file.
pub const DIRECTORY_OFFSET: usize = 256;

/// Size of one directory record.
pub const RECORD_SIZE: usize = 32;

/// Length of the name block inside a directory record.
pub const RECORD_NAME_SIZE: usize = 16;

/// The game version an archive declares in its header token.
#[derive(Clone, Copy, Debug, PartialEq, Eq, Structural)]
pub enum Version {
    MM6,
    MM7,
    MM8,
}

/// The archive starts with the NUL-terminated magic tag "LOD".
pub open spec fn magic_ok(d: Seq<u8>) -> bool {
    &&& d.len() >= 4
    &&& d[0] == 76u8
    &&& d[1] == 79u8
    &&& d[2] == 68u8
    &&& d[3] == 0u8
}

/// The version token: the bytes after the magic tag's terminator, up to the
/// next NUL.
pub open spec fn version_token(d: Seq<u8>) -> Seq<u8> {
    d.subrange(4, nul_scan(d, 4, d.len() as int))
}

/// The game version a token names, if any. The byte sequences spell the
/// six accepted tokens: `GameMMVI` or `MMVI`, `GameMMVII` or `MMVII`, and
/// `GameMMVIII` or `MMVIII`.
pub open spec fn spec_version(t: Seq<u8>) -> Option<Version> {
    if t == seq![71u8, 97u8, 109u8, 101u8, 77u8, 77u8, 86u8, 73u8] || t == seq![
        77u8,
        77u8,
        86u8,
        73u8,
    ] {
        Some(Version::MM6)
    } else if t == seq![71u8, 97u8, 109u8, 101u8, 77u8, 77u8, 86u8, 73u8, 73u8] || t == seq![
        77u8,
        77u8,
        86u8,
        73u8,
        73u8,
    ] {
        Some(Version::MM7)
    } else if t == seq![71u8, 97u8, 109u8, 101u8, 77u8, 77u8, 86u8, 73u8, 73u8, 73u8] || t == seq![
        77u8,
        77u8,
        86u8,
        73u8,
        73u8,
        73u8,
    ] {
        Some(Version::MM8)
    } else {
        None
    }
}

/// Start of directory record `k`.
pub open spec fn rec_at(k: int) -> int {
    256 + 32 * k
}

/// The entry count held by the first (master) directory record.
pub open spec fn dir_count(d: Seq<u8>) -> int {
    as_i32(le32(d, 284))
}

/// The directory's base offset, held by the master record; entry offsets in
/// the records after the first are relative to it.
pub open spec fn dir_base(d: Seq<u8>) -> int {
    as_i32(le32(d, 272))
}

/// The directory itself lies inside the file: a nonnegative count and
/// `count + 1` whole records.
pub open spec fn dir_ok(d: Seq<u8>) -> bool {
    &&& d.len() >= 288
    &&& dir_count(d) >= 0
    &&& 256 + 32 * (dir_count(d) + 1) <= d.len()
}

/// The lower-cased name of directory entry `k`.
pub open spec fn entry_name(d: Seq<u8>, k: int) -> Seq<char> {
    name_in_block(d, rec_at(k), 16)
}

/// The name bytes of entry `k` are ASCII.
pub open spec fn entry_name_ascii(d: Seq<u8>, k: int) -> bool {
    is_ascii_seq(d.subrange(rec_at(k), nul_scan(d, rec_at(k), rec_at(k) + 16)))
}

/// The absolute file offset of entry `k`'s bytes: the master record's own
/// offset is the directory base; every later record is relative to it.
pub open spec fn entry_offset(d: Seq<u8>, k: int) -> int {
    if k == 0 {
        dir_base(d)
    } else {
        as_i32(le32(d, rec_at(k) + 16)) + dir_base(d)
    }
}

/// The declared byte count of entry `k`.
pub open spec fn entry_size(d: Seq<u8>, k: int) -> int {
    as_i32(le32(d, rec_at(k) + 20))
}

/// Entry `k`'s byte segment lies inside the file.
pub open spec fn entry_seg_ok(d: Seq<u8>, k: int) -> bool {
    &&& 0 <= entry_offset(d, k)
    &&& 0 <= entry_size(d, k)
    &&& entry_offset(d, k) + entry_size(d, k) <= d.len()
}

/// The bytes of entry `k`.
pub open spec fn entry_data(d: Seq<u8>, k: int) -> Seq<u8> {
    d.subrange(entry_offset(d, k), entry_offset(d, k) + entry_size(d, k))
}

/// Every directory entry name is ASCII.
pub open spec fn names_ok(d: Seq<u8>) -> bool {
    forall|k: int| 0 <= k <= dir_count(d) ==> entry_name_ascii(d, k)
}

/// Every directory entry segment lies inside the file.
pub open spec fn segs_ok(d: Seq<u8>) -> bool {
    forall|k: int| 0 <= k <= dir_count(d) ==> entry_seg_ok(d, k)
}

/// The directory as a (name, bytes) pair sequence, in record order.
pub open spec fn dir_pairs(d: Seq<u8>, n: int) -> Seq<(Seq<char>, Seq<u8>)> {
    Seq::new(n as nat, |k: int| (entry_name(d, k), entry_data(d, k)))
}

/// The name-keyed content of a well-formed archive: later records with the
/// same name shadow earlier ones.
pub open spec fn archive_map(d: Seq<u8>) -> Map<Seq<char>, Seq<u8>> {
    assoc_map(dir_pairs(d, dir_count(d) + 1))
}

/// Every name the map is keyed by is lower-cased: it holds no upper-case
/// ASCII letter.
pub open spec fn names_lowered(m: Map<Seq<char>, Seq<u8>>) -> bool {
    forall|nm: Seq<char>| #[trigger] m.contains_key(nm) ==> is_lower_ascii_name(nm)
}

/// Why `Lod::open` fails on the given bytes, if it does. The stages are
/// ordered: a bad magic tag is reported before anything else, and the
/// directory is not read at all unless magic and version are good.
pub open spec fn open_err(d: Seq<u8>) -> Option<LodError> {
    if !magic_ok(d) {
        Some(LodError::InvalidFormat)
    } else if spec_version(version_token(d)) is None {
        Some(LodError::UnsupportedVersion)
    } else if !dir_ok(d) {
        Some(LodError::Truncated)
    } else if !names_ok(d) {
        Some(LodError::InvalidFormat)
    } else if !segs_ok(d) {
        Some(LodError::Truncated)
    } else {
        None
    }
}

/// One stored archive entry: a lower-cased name and its bytes.
pub struct LodEntry {
    /// The lower-cased entry name.
    pub name: String,
    /// The entry's bytes, copied out of the archive file.
    pub data: Vec<u8>,
}

/// An open archive: its game version and its fully materialized entries,
/// keyed by lower-cased name.
pub struct Lod {
    /// The game version the header token named.
    pub version: Version,
    entries: Vec<LodEntry>,
}

/// The (name, bytes) pairs of the stored entries, in directory order.
pub open spec fn lod_pairs(s: Seq<LodEntry>) -> Seq<(Seq<char>, Seq<u8>)> {
    s.map_values(|e: LodEntry| (e.name@, e.data@))
}

impl View for Lod {
    type V = Map<Seq<char>, Seq<u8>>;

    closed spec fn view(&self) -> Map<Seq<char>, Seq<u8>> {
        assoc_map(lod_pairs(self.entries@))
    }
}

impl Version {
    /// Decode a version token. Each game version has a long and a short
    /// spelling; anything else is unsupported.
    pub fn try_from(tok: &[u8]) -> (r: Result<Version, LodError>)
        ensures
            match spec_version(tok@) {
                Some(v) => r == Ok::<Version, LodError>(v),
                None => r == Err::<Version, LodError>(LodError::UnsupportedVersion),
            },
    {
        let game6: Vec<u8> = vec![71u8, 97u8, 109u8, 101u8, 77u8, 77u8, 86u8, 73u8];
        let short6: Vec<u8> = vec![77u8, 77u8, 86u8, 73u8];
        let game7: Vec<u8> = vec![71u8, 97u8, 109u8, 101u8, 77u8, 77u8, 86u8, 73u8, 73u8];
        let short7: Vec<u8> = vec![77u8, 77u8, 86u8, 73u8, 73u8];
        let game8: Vec<u8> = vec![71u8, 97u8, 109u8, 101u8, 77u8, 77u8, 86u8, 73u8, 73u8, 73u8];
        let short8: Vec<u8> = vec![77u8, 77u8, 86u8, 73u8, 73u8, 73u8];
        if eq_bytes(tok, game6.as_slice()) || eq_bytes(tok, short6.as_slice()) {
            Ok(Version::MM6)
        } else if eq_bytes(tok, game7.as_slice()) || eq_bytes(tok, short7.as_slice()) {
            Ok(Version::MM7)
        } else if eq_bytes(tok, game8.as_slice()) || eq_bytes(tok, short8.as_slice()) {
            Ok(Version::MM8)
        } else {
            Err(LodError::UnsupportedVersion)
        }
    }
}

impl Lod {
    /// The game version the archive's header token named.
    pub closed spec fn spec_game_version(&self) -> Version {
        self.version
    }

    /// The stored entry names, in directory order.
    pub closed spec fn spec_names(&self) -> Seq<Seq<char>> {
        self.entries@.map_values(|e: LodEntry| e.name@)
    }

    /// Open an archive from its file bytes: validate the magic tag and the
    /// version token, then read the whole directory and copy out every
    /// entry's bytes, keyed by lower-cased name.
    pub fn open(d: &[u8]) -> (r: Result<Lod, LodError>)
        ensures
            match r {
                Ok(l) => {
                    &&& open_err(d@) is None
                    &&& l@ == archive_map(d@)
                    &&& names_lowered(l@)
                    &&& Some(l.spec_game_version()) == spec_version(version_token(d@))
                },
                Err(e) => open_err(d@) == Some(e),
            },
    {
        let len: usize = d.len();
        if len < 4 || d[0] != 76 || d[1] != 79 || d[2] != 68 || d[3] != 0 {
            return Err(LodError::InvalidFormat);
        }
        let v_end: usize = crate::bytes::scan_nul(d, 4, len);
        let token: &[u8] = &d[4..v_end];
        proof {
            assert(token@ =~= version_token(d@));
        }
        let version: Version = Version::try_from(token)?;

        if len < 288 {
            return Err(LodError::Truncated);
        }
        let count: i32 = read_i32_le(d, 284);
        let base: i32 = read_i32_le(d, 272);
        if count < 0 {
            return Err(LodError::Truncated);
        }
        let need: u64 = 256 + 32 * (count as u64 + 1);
        if need > len as u64 {
            return Err(LodError::Truncated);
        }
        let n: usize = count as usize + 1;

        let mut names: Vec<String> = Vec::new();
        let mut k: usize = 0;
        while k < n
            invariant
                magic_ok(d@),
                spec_version(version_token(d@)) is Some,
                n == dir_count(d@) + 1,
                dir_ok(d@),
                len == d@.len(),
                names@.len() == k,
                k <= n,
                forall|j: int| 0 <= j < k ==> entry_name_ascii(d@, j),
                forall|j: int| 0 <= j < k ==> names@[j]@ == entry_name(d@, j),
            decreases n - k,
        {
            let rec: usize = 256 + 32 * k;
            match read_name_block(d, rec, 16) {
                Some(s) => {
                    names.push(s);
                },
                None => {
                    proof {
                        assert(!entry_name_ascii(d@, k as int));
                        assert(!names_ok(d@));
                    }
                    return Err(LodError::InvalidFormat);
                },
            }
            k += 1;
        }

        let mut entries: Vec<LodEntry> = Vec::new();
        let mut k: usize = 0;
        while k < n
            invariant
                magic_ok(d@),
                spec_version(version_token(d@)) is Some,
                n == dir_count(d@) + 1,
                dir_ok(d@),
                names_ok(d@),
                base == dir_base(d@),
                len == d@.len(),
                names@.len() == n,
                entries@.len() == k,
                k <= n,
                forall|j: int| 0 <= j < n ==> names@[j]@ == entry_name(d@, j),
                forall|j: int| 0 <= j < k ==> entry_seg_ok(d@, j),
                forall|j: int| 0 <= j < k ==> entries@[j].name@ == entry_name(d@, j),
                forall|j: int| 0 <= j < k ==> entries@[j].data@ == entry_data(d@, j),
            decreases n - k,
        {
            let rec: usize = 256 + 32 * k;
            let off: i64 = if k == 0 {
                base as i64
            } else {
                read_i32_le(d, rec + 16) as i64 + base as i64
            };
            let sz: i64 = read_i32_le(d, rec + 20) as i64;
            if off < 0 || sz < 0 || (off as u64 + sz as u64 > len as u64) {
                proof {
                    assert(!entry_seg_ok(d@, k as int));
                    assert(!segs_ok(d@));
                }
                return Err(LodError::Truncated);
            }
            let data: Vec<u8> = crate::bytes::copy_range(d, off as usize, (off + sz) as usize);
            let name: String = names[k].clone();
            entries.push(LodEntry { name, data });
            k += 1;
        }

        let lod = Lod { version, entries };
        proof {
            assert(lod_pairs(lod.entries@) =~= dir_pairs(d@, n as int));
            let pairs = dir_pairs(d@, n as int);
            crate::assoc::lemma_assoc_dom(pairs, n as int);
            assert forall|nm: Seq<char>| #[trigger] lod@.contains_key(nm) implies
                is_lower_ascii_name(nm) by {
                let k = choose|k: int| 0 <= k < n && pairs[k].0 == nm;
                lemma_name_in_block_lowered(d@, rec_at(k), 16);
            }
        }
        Ok(lod)
    }

    /// The lower-cased names of all stored entries, in directory order: a
    /// name is in the archive exactly when this list holds it.
    pub fn files(&self) -> (r: Vec<String>)
        ensures
            r@.len() == self.spec_names().len(),
            forall|j: int| 0 <= j < r@.len() ==> r@[j]@ == self.spec_names()[j],
            forall|nm: Seq<char>| #![auto]
                self@.contains_key(nm) <==> exists|j: int| 0 <= j < r@.len() && r@[j]@ == nm,
    {
        let mut out: Vec<String> = Vec::new();
        let n: usize = self.entries.len();
        let mut i: usize = 0;
        while i < n
            invariant
                i <= n == self.entries@.len(),
                out@.len() == i,
                forall|j: int| 0 <= j < i ==> out@[j]@ == self.entries@[j].name@,
            decreases n - i,
        {
            out.push(self.entries[i].name.clone());
            i += 1;
        }
        proof {
            let pairs = lod_pairs(self.entries@);
            let m = self.entries@.len() as int;
            lemma_assoc_dom(pairs, m);
            assert forall|nm: Seq<char>| #![auto]
                self@.contains_key(nm) implies exists|j: int|
                0 <= j < out@.len() && out@[j]@ == nm by {
                let j = choose|j: int| 0 <= j < m && pairs[j].0 == nm;
                assert(out@[j]@ == nm);
            }
            assert forall|nm: Seq<char>| #![auto]
                (exists|j: int| 0 <= j < out@.len() && out@[j]@ == nm) implies self@.contains_key(
                nm,
            ) by {
                let j = choose|j: int| 0 <= j < out@.len() && out@[j]@ == nm;
                assert(pairs[j].0 == nm);
            }
        }
        out
    }

    /// The bytes stored under a lower-cased entry name, if the archive
    /// holds it.
    pub fn try_get_bytes(&self, name: &str) -> (r: Option<&[u8]>)
        ensures
            match r {
                Some(v) => self@.contains_key(name@) && v@ == self@[name@],
                None => !self@.contains_key(name@),
            },
    {
        let key: String = String::from_str(name);
        let n: usize = self.entries.len();
        let mut i: usize = n;
        while i > 0
            invariant
                i <= n == self.entries@.len(),
                key@ == name@,
                forall|j: int| i <= j < n ==> self.entries@[j].name@ != name@,
            decreases i,
        {
            i -= 1;
            if self.entries[i].name == key {
                proof {
                    lemma_assoc_found(lod_pairs(self.entries@), name@, i as int, n as int);
                }
                return Some(self.entries[i].data.as_slice());
            }
        }
        proof {
            lemma_assoc_absent(lod_pairs(self.entries@), name@, n as int);
        }
        None
    }

    /// The bytes stored under an entry name; same as `try_get_bytes`.
    pub fn get_raw(&self, name: &str) -> (r: Option<&[u8]>)
        ensures
            match r {
                Some(v) => self@.contains_key(name@) && v@ == self@[name@],
                None => !self@.contains_key(name@),
            },
    {
        self.try_get_bytes(name)
    }
}

} // verus!
