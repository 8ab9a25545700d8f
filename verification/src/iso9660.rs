//! A minimal ISO 9660 reader, just enough to find `SYSTEM.CNF` at the root of
//! a PS2 disc image: the Primary Volume Descriptor, the root directory's
//! extent, and its records. It works on bytes already read; numeric fields are
//! stored both-endian and the little-endian half is read.
use vstd::prelude::*;
use vstd::utf8::{decode_utf8, valid_utf8};
use crate::game_id::{boot2_id, parse_boot2_game_id, GameId};
use crate::text::{lines, before_first, chars_of, eq_ignore_case, eq_ignore_case_exec, find_char_from, slice_vec};

verus! {

/// Logical sector size of ISO 9660 (2048 bytes).
pub const SECTOR_SIZE: usize = 2048;

/// Fixed sector of the Primary Volume Descriptor.
pub const PVD_LBA: u32 = 16;

/// A decoded directory record (a file or a subdirectory).
#[derive(Debug, Clone, PartialEq, Eq)]
pub struct DirRecord {
    /// Name as recorded on disc (may hold a `;1` version suffix).
    pub name: String,
    /// Sector where the data starts.
    pub extent_lba: u32,
    /// Size of the data in bytes.
    pub size: u32,
    /// `true` for a subdirectory.
    pub is_dir: bool,
}

/// View of a directory record.
pub struct DirRecordView {
    pub name: Seq<char>,
    pub extent_lba: u32,
    pub size: u32,
    pub is_dir: bool,
}

impl View for DirRecord {
    type V = DirRecordView;

    open spec fn view(&self) -> DirRecordView {
        DirRecordView {
            name: self.name@,
            extent_lba: self.extent_lba,
            size: self.size,
            is_dir: self.is_dir,
        }
    }
}

/// The text `String::from_utf8_lossy` makes of these bytes.
pub uninterp spec fn utf8_lossy(bytes: Seq<u8>) -> Seq<char>;

/// Calls `String::from_utf8_lossy`. Claimed: the result is `utf8_lossy` of
/// the bytes, and for valid UTF-8 it is exactly the decoded text. What it
/// makes of invalid sequences (replacement characters) is not spelled out.
#[verifier::external_body]
pub(crate) fn from_utf8_lossy(bytes: &[u8]) -> (r: String)
    ensures
        r@ == utf8_lossy(bytes@),
        valid_utf8(bytes@) ==> r@ == decode_utf8(bytes@),
{
    String::from_utf8_lossy(bytes).into_owned()
}

/// Little-endian `u32` at `at`.
pub open spec fn le_u32(b: Seq<u8>, at: int) -> u32 {
    (b[at] as nat + b[at + 1] as nat * 256 + b[at + 2] as nat * 65536 + b[at + 3] as nat
        * 16777216) as u32
}

/// The four bytes of `v`, least significant first (`u32::to_le_bytes`).
pub open spec fn holds_le_bytes(b: Seq<u8>, at: int, v: u32) -> bool {
    &&& 0 <= at && at + 4 <= b.len()
    &&& b[at] as nat == v as nat % 256
    &&& b[at + 1] as nat == (v as nat / 256) % 256
    &&& b[at + 2] as nat == (v as nat / 65536) % 256
    &&& b[at + 3] as nat == v as nat / 16777216
}

/// Reading a little-endian `u32` gives back every value written that way:
/// all four bytes count, the last one as the most significant.
pub proof fn law_le_u32_reads_back(b: Seq<u8>, at: int, v: u32)
    requires
        holds_le_bytes(b, at, v),
    ensures
        le_u32(b, at) == v,
{
    let n = v as nat;
    let (b0, b1, b2, b3) = (b[at] as nat, b[at + 1] as nat, b[at + 2] as nat, b[at + 3] as nat);
    assert(b0 + b1 * 256 + b2 * 65536 + b3 * 16777216 == n) by (nonlinear_arith)
        requires
            b0 == n % 256,
            b1 == (n / 256) % 256,
            b2 == (n / 65536) % 256,
            b3 == n / 16777216,
            n < 0x1_0000_0000,
    ;
}

/// A well-formed directory record whose bytes 2..6 and 10..14 hold the
/// little-endian extent and size is read with exactly that extent and size.
pub proof fn law_dir_record_fields(rec: Seq<u8>, extent: u32, size: u32)
    requires
        rec.len() >= 34,
        34 <= rec[0] <= rec.len(),
        33 + rec[32] <= rec[0],
        holds_le_bytes(rec, 2, extent),
        holds_le_bytes(rec, 10, size),
    ensures
        dir_record(rec) matches Some(d) && d.extent_lba == extent && d.size == size,
{
    law_le_u32_reads_back(rec, 2, extent);
    law_le_u32_reads_back(rec, 10, size);
}

/// Special names: a single byte 0 is `.` (the directory itself), a single
/// byte 1 is `..` (its parent); anything else is read as text.
pub open spec fn decode_name(raw: Seq<u8>) -> Seq<char> {
    if raw.len() == 1 && raw[0] == 0 {
        seq!['.']
    } else if raw.len() == 1 && raw[0] == 1 {
        seq!['.', '.']
    } else {
        utf8_lossy(raw)
    }
}

/// The record that starts at the beginning of `rec`, if it is well formed:
/// at least 34 bytes, a length byte between 34 and the bytes available, and a
/// name that fits in that length.
pub open spec fn dir_record(rec: Seq<u8>) -> Option<DirRecordView> {
    if rec.len() < 34 {
        None
    } else {
        let len = rec[0] as int;
        let name_len = rec[32] as int;
        if len < 34 || len > rec.len() || 33 + name_len > len {
            None
        } else {
            Some(
                DirRecordView {
                    name: decode_name(rec.subrange(33, 33 + name_len)),
                    extent_lba: le_u32(rec, 2),
                    size: le_u32(rec, 10),
                    is_dir: rec[25] & 0x02 != 0,
                },
            )
        }
    }
}

fn le_u32_at(b: &[u8], at: usize) -> (r: u32)
    requires
        at + 4 <= b@.len(),
    ensures
        r == le_u32(b@, at as int),
{
    (b[at] as u32) + (b[at + 1] as u32) * 256 + (b[at + 2] as u32) * 65536 + (b[at + 3] as u32)
        * 16777216
}

fn decode_name_at(data: &[u8], lo: usize, hi: usize) -> (r: String)
    requires
        lo <= hi <= data@.len(),
    ensures
        r@ == decode_name(data@.subrange(lo as int, hi as int)),
{
    if hi - lo == 1 && data[lo] == 0 {
        let s = String::new();
        let mut s = s;
        crate::text::push_char(&mut s, '.');
        assert(s@ =~= seq!['.']);
        s
    } else if hi - lo == 1 && data[lo] == 1 {
        let mut s = String::new();
        crate::text::push_char(&mut s, '.');
        crate::text::push_char(&mut s, '.');
        assert(s@ =~= seq!['.', '.']);
        s
    } else {
        let mut raw: Vec<u8> = Vec::new();
        let mut i = lo;
        while i < hi
            invariant
                lo <= i <= hi <= data@.len(),
                raw@ == data@.subrange(lo as int, i as int),
            decreases hi - i,
        {
            raw.push(data[i]);
            assert(data@.subrange(lo as int, i as int).push(data@[i as int]) =~= data@.subrange(
                lo as int,
                i + 1,
            ));
            i = i + 1;
        }
        from_utf8_lossy(raw.as_slice())
    }
}

/// Decodes the record held in `data[lo..hi]`.
fn parse_dir_record_at(data: &[u8], lo: usize, hi: usize) -> (r: Option<DirRecord>)
    requires
        lo <= hi <= data@.len(),
    ensures
        match r {
            Some(d) => dir_record(data@.subrange(lo as int, hi as int)) == Some(d@),
            None => dir_record(data@.subrange(lo as int, hi as int)) is None,
        },
{
    let ghost rec = data@.subrange(lo as int, hi as int);
    if hi - lo < 34 {
        return None;
    }
    let len = data[lo] as usize;
    assert(len == rec[0]);
    if len < 34 || len > hi - lo {
        return None;
    }
    let extent_lba = le_u32_at(data, lo + 2);
    let size = le_u32_at(data, lo + 10);
    let is_dir = data[lo + 25] & 0x02 != 0;
    let name_len = data[lo + 32] as usize;
    assert(name_len == rec[32]);
    if 33 + name_len > len {
        return None;
    }
    let name = decode_name_at(data, lo + 33, lo + 33 + name_len);
    assert(rec.subrange(33, 33 + name_len) =~= data@.subrange(
        lo + 33,
        lo + 33 + name_len,
    ));
    assert(rec[2] == data@[lo + 2] && rec[3] == data@[lo + 3] && rec[4] == data@[lo + 4] && rec[5]
        == data@[lo + 5]);
    assert(rec[10] == data@[lo + 10] && rec[11] == data@[lo + 11] && rec[12] == data@[lo + 12]
        && rec[13] == data@[lo + 13]);
    assert(rec[25] == data@[lo + 25]);
    Some(DirRecord { name, extent_lba, size, is_dir })
}

/// Decodes one directory record starting at the beginning of `rec`; `None`
/// when it is malformed or too short.
pub fn parse_dir_record(rec: &[u8]) -> (r: Option<DirRecord>)
    ensures
        match r {
            Some(d) => dir_record(rec@) == Some(d@),
            None => dir_record(rec@) is None,
        },
{
    assert(rec@.subrange(0, rec@.len() as int) =~= rec@);
    parse_dir_record_at(rec, 0, rec.len())
}

/// The volume descriptor is a primary one: type 1 and the signature `CD001`.
pub open spec fn is_primary_descriptor(pvd: Seq<u8>) -> bool {
    &&& pvd.len() >= 190
    &&& pvd[0] == 1
    &&& pvd[1] == 67 && pvd[2] == 68 && pvd[3] == 48 && pvd[4] == 48 && pvd[5] == 49
}

/// Reads the root directory record embedded in the Primary Volume Descriptor
/// (34 bytes at offset 156), after checking the signature.
pub fn parse_root_record(pvd: &[u8]) -> (r: Option<DirRecord>)
    ensures
        match r {
            Some(d) => is_primary_descriptor(pvd@) && dir_record(pvd@.subrange(156, 190)) == Some(
                d@,
            ),
            None => !is_primary_descriptor(pvd@) || dir_record(pvd@.subrange(156, 190)) is None,
        },
{
    if pvd.len() < 190 || pvd[0] != 1 || pvd[1] != 67 || pvd[2] != 68 || pvd[3] != 48 || pvd[4]
        != 48 || pvd[5] != 49 {
        return None;
    }
    parse_dir_record_at(pvd, 156, 190)
}

/// The records of a directory extent, from `pos` on. A length byte of 0 is
/// padding up to the next sector (records never cross a sector boundary); a
/// record running past the end stops the scan; a malformed one is skipped.
pub open spec fn records_from(data: Seq<u8>, pos: int) -> Seq<DirRecordView>
    decreases data.len() - pos,
{
    if pos < 0 || pos >= data.len() {
        seq![]
    } else {
        let len = data[pos] as int;
        if len == 0 {
            let next = (pos / 2048 + 1) * 2048;
            if next >= data.len() {
                seq![]
            } else {
                records_from(data, next)
            }
        } else if pos + len > data.len() {
            seq![]
        } else {
            let here = match dir_record(data.subrange(pos, pos + len)) {
                Some(r) => seq![r],
                None => seq![],
            };
            here + records_from(data, pos + len)
        }
    }
}

/// All the records of a directory extent (see [`records_from`]).
pub fn parse_dir_records(data: &[u8]) -> (r: Vec<DirRecord>)
    requires
        data@.len() <= usize::MAX - SECTOR_SIZE,
    ensures
        r@.map_values(|d: DirRecord| d@) == records_from(data@, 0),
{
    let mut out: Vec<DirRecord> = Vec::new();
    let mut pos: usize = 0;
    while pos < data.len()
        invariant
            data@.len() <= usize::MAX - SECTOR_SIZE,
            out@.map_values(|d: DirRecord| d@) + records_from(data@, pos as int) == records_from(
                data@,
                0,
            ),
        decreases data@.len() - pos,
    {
        let ghost before = out@.map_values(|d: DirRecord| d@);
        let len = data[pos] as usize;
        if len == 0 {
            assert(pos < (pos / 2048 + 1) * 2048 <= pos + 2048) by (nonlinear_arith);
            let next = (pos / SECTOR_SIZE + 1) * SECTOR_SIZE;
            if next >= data.len() {
                assert(records_from(data@, pos as int) =~= Seq::<DirRecordView>::empty());
                assert(records_from(data@, data@.len() as int) =~= Seq::<DirRecordView>::empty());
                pos = data.len();
            } else {
                pos = next;
            }
            continue;
        }
        if pos + len > data.len() {
            assert(records_from(data@, pos as int) =~= Seq::<DirRecordView>::empty());
            assert(records_from(data@, data@.len() as int) =~= Seq::<DirRecordView>::empty());
            pos = data.len();
            continue;
        }
        match parse_dir_record_at(data, pos, pos + len) {
            Some(rec) => {
                out.push(rec);
                assert(out@.map_values(|d: DirRecord| d@) =~= before.push(rec@));
                assert(before.push(rec@) + records_from(data@, (pos + len) as int) =~= before + (
                seq![rec@] + records_from(data@, (pos + len) as int)));
            },
            None => {
                assert(out@.map_values(|d: DirRecord| d@) =~= before);
                assert(Seq::<DirRecordView>::empty() + records_from(data@, (pos + len) as int)
                    =~= records_from(data@, (pos + len) as int));
            },
        }
        pos = pos + len;
    }
    assert(records_from(data@, pos as int) =~= Seq::<DirRecordView>::empty());
    assert(out@.map_values(|d: DirRecord| d@) + Seq::<DirRecordView>::empty() =~= out@.map_values(
        |d: DirRecord| d@,
    ));
    out
}

/// A record name matches the wanted name, ignoring the `;version` suffix and
/// ASCII case.
pub open spec fn name_matches_spec(record_name: Seq<char>, wanted: Seq<char>) -> bool {
    eq_ignore_case(before_first(record_name, ';'), wanted)
}

/// Compares a record's name with the wanted one, ignoring the `;1` version
/// suffix and ASCII case.
pub fn name_matches(record_name: &str, wanted: &str) -> (r: bool)
    ensures
        r == name_matches_spec(record_name@, wanted@),
{
    let n = chars_of(record_name);
    let w = chars_of(wanted);
    let semi = find_char_from(&n, 0, ';');
    assert(n@.subrange(0, n@.len() as int) =~= n@);
    let base = slice_vec(&n, 0, semi);
    eq_ignore_case_exec(&base, &w)
}

/// The record is a file whose name matches.
pub open spec fn is_wanted_file(r: DirRecord, wanted: Seq<char>) -> bool {
    !r.is_dir && name_matches_spec(r.name@, wanted)
}

/// Finds a file (never a directory) by name among scanned records: the first
/// one whose name matches.
pub fn find_file<'a>(records: &'a [DirRecord], wanted: &str) -> (r: Option<&'a DirRecord>)
    ensures
        match r {
            Some(d) => exists|i: int|
                0 <= i < records@.len() && *d == records@[i] && is_wanted_file(
                    records@[i],
                    wanted@,
                ) && forall|j: int| 0 <= j < i ==> !is_wanted_file(#[trigger] records@[j], wanted@),
            None => forall|j: int|
                0 <= j < records@.len() ==> !is_wanted_file(#[trigger] records@[j], wanted@),
        },
{
    let mut i: usize = 0;
    while i < records.len()
        invariant
            0 <= i <= records@.len(),
            forall|j: int| 0 <= j < i ==> !is_wanted_file(#[trigger] records@[j], wanted@),
        decreases records@.len() - i,
    {
        let r = &records[i];
        if !r.is_dir && name_matches(r.name.as_str(), wanted) {
            assert(is_wanted_file(records@[i as int], wanted@));
            return Some(r);
        }
        i = i + 1;
    }
    None
}

/// The record (as a view) is a file whose name matches.
pub open spec fn is_wanted_view(v: DirRecordView, wanted: Seq<char>) -> bool {
    !v.is_dir && name_matches_spec(v.name, wanted)
}

/// Where `SYSTEM.CNF` lies, given the bytes of the root directory's extent:
/// the sector and size of the first file record of that name.
pub fn system_cnf_extent(root_dir: &[u8]) -> (r: Option<(u32, u32)>)
    requires
        root_dir@.len() <= usize::MAX - SECTOR_SIZE,
    ensures
        match r {
            Some((lba, size)) => exists|i: int|
                0 <= i < records_from(root_dir@, 0).len() && is_wanted_view(
                    records_from(root_dir@, 0)[i],
                    "SYSTEM.CNF"@,
                ) && records_from(root_dir@, 0)[i].extent_lba == lba && records_from(
                    root_dir@,
                    0,
                )[i].size == size && forall|j: int|
                    0 <= j < i ==> !is_wanted_view(
                        #[trigger] records_from(root_dir@, 0)[j],
                        "SYSTEM.CNF"@,
                    ),
            None => forall|j: int|
                0 <= j < records_from(root_dir@, 0).len() ==> !is_wanted_view(
                    #[trigger] records_from(root_dir@, 0)[j],
                    "SYSTEM.CNF"@,
                ),
        },
{
    let records = parse_dir_records(root_dir);
    let ghost views = records@.map_values(|d: DirRecord| d@);
    assert(views == records_from(root_dir@, 0));
    assert forall|j: int| 0 <= j < records@.len() implies #[trigger] views[j] == records@[j]@ by {}
    match find_file(&records, "SYSTEM.CNF") {
        Some(d) => {
            proof {
                let i = choose|i: int|
                    0 <= i < records@.len() && *d == records@[i] && is_wanted_file(
                        records@[i],
                        "SYSTEM.CNF"@,
                    ) && forall|j: int|
                        0 <= j < i ==> !is_wanted_file(#[trigger] records@[j], "SYSTEM.CNF"@);
                assert(views[i] == records@[i]@);
                assert forall|j: int| 0 <= j < i implies !is_wanted_view(
                    #[trigger] records_from(root_dir@, 0)[j],
                    "SYSTEM.CNF"@,
                ) by {
                    assert(views[j] == records@[j]@);
                    assert(!is_wanted_file(records@[j], "SYSTEM.CNF"@));
                }
            }
            Some((d.extent_lba, d.size))
        },
        None => {
            proof {
                assert forall|j: int| 0 <= j < records_from(root_dir@, 0).len() implies !is_wanted_view(
                    #[trigger] records_from(root_dir@, 0)[j],
                    "SYSTEM.CNF"@,
                ) by {
                    assert(views[j] == records@[j]@);
                    assert(!is_wanted_file(records@[j], "SYSTEM.CNF"@));
                }
            }
            None
        },
    }
}

/// The game id named by the bytes of a `SYSTEM.CNF`, read as text (invalid
/// UTF-8 replaced).
pub fn game_id_from_system_cnf(cnf: &[u8]) -> (r: Option<GameId>)
    ensures
        r matches Some(id) ==> boot2_id(lines(utf8_lossy(cnf@))) == Some(id@),
        r is None ==> boot2_id(lines(utf8_lossy(cnf@))) is None,
{
    let text = from_utf8_lossy(cnf);
    parse_boot2_game_id(text.as_str())
}

} // verus!
