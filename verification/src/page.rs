//! Decoding of one page: locating the page-start marker, validating the
//! header, and extracting the variable-length records that follow.
//!
//! The decompressed archive is treated as one immutable byte buffer with
//! explicit integer offsets, so every bounds check is visible. Each record
//! is a null-terminated path, an 8-byte little-endian event identifier, a
//! 4-byte little-endian flag bitmask, and an 8-byte trailing node-id field
//! that is skipped. A record whose fixed trailing fields would cross the
//! buffer end is discarded, not partially decoded.

use vstd::prelude::*;
use vstd::bytes::{spec_u32_from_le_bytes, spec_u64_from_le_bytes, u32_from_le_bytes, u64_from_le_bytes};
use vstd::slice::slice_subrange;

use crate::errors::ParseError;
use crate::flags::EventFlag;
use crate::header::{PageHeader, Version, is_v1_marker, header_valid, spec_stream_size};

verus! {

/// The raw fields of one record: path bytes (terminator excluded), event
/// identifier, flag bits.
pub type RawEntry = (Seq<u8>, u64, u32);

/// One decoded filesystem change record.
pub struct Entry {
    pub full_path: String,
    pub event_id: u64,
    pub flags: EventFlag,
}

/// One contiguous framed record block of the decompressed stream.
pub struct Page {
    pub header: PageHeader,
    pub entries: Vec<Entry>,
}

/// What lossy UTF-8 decoding makes of a byte sequence.
pub uninterp spec fn lossy_utf8(bytes: Seq<u8>) -> Seq<char>;

/// Relies on String::from_utf8_lossy: the text depends on the bytes alone;
/// invalid sequences come back replaced, never as an error.
#[verifier::external_body]
fn lossy_string(bytes: &[u8]) -> (r: String)
    ensures
        r@ == lossy_utf8(bytes@),
{
    String::from_utf8_lossy(bytes).into_owned()
}

/// A page-start marker of either version stands at `i`: the ASCII bytes
/// `1SLD` or `2SLD`.
pub open spec fn marker_at(mem: Seq<u8>, i: int) -> bool {
    &&& 0 <= i
    &&& i + 4 <= mem.len()
    &&& mem[i] == 0x31 || mem[i] == 0x32
    &&& mem[i + 1] == 0x53
    &&& mem[i + 2] == 0x4c
    &&& mem[i + 3] == 0x44
}

/// Offset of the first page-start marker at or after `off`; `mem.len()`
/// when none remains.
pub open spec fn find_marker(mem: Seq<u8>, off: int) -> int
    decreases mem.len() - off,
{
    if off < 0 || off + 4 > mem.len() {
        mem.len() as int
    } else if marker_at(mem, off) {
        off
    } else {
        find_marker(mem, off + 1)
    }
}

/// Offset of the null byte that terminates the path starting at `off`;
/// `mem.len()` when no null remains.
pub open spec fn find_nul(mem: Seq<u8>, off: int) -> int
    decreases mem.len() - off,
{
    if off < 0 || off >= mem.len() {
        mem.len() as int
    } else if mem[off] == 0 {
        off
    } else {
        find_nul(mem, off + 1)
    }
}

/// The terminator search never lands before where it started nor past
/// the buffer end.
pub proof fn lemma_find_nul_bounds(mem: Seq<u8>, off: int)
    requires
        0 <= off <= mem.len(),
    ensures
        off <= find_nul(mem, off) <= mem.len(),
    decreases mem.len() - off,
{
    if off < mem.len() && mem[off] != 0 {
        lemma_find_nul_bounds(mem, off + 1);
    }
}

/// The records the entry loop yields from `mem` starting at `off`: it runs
/// while the offset is below both the declared stream end and the true
/// buffer end; a path without a terminator, or a record whose trailing 20
/// fixed bytes would cross the buffer end, stops the loop with the partial
/// record discarded.
pub open spec fn entries_from(mem: Seq<u8>, off: int, stream_end: int) -> Seq<RawEntry>
    decreases mem.len() - off,
        via entries_from_decreases
{
    if 0 <= off && off < stream_end && off < mem.len() {
        let nul = find_nul(mem, off);
        if nul == mem.len() {
            Seq::empty()
        } else if nul + 21 > mem.len() {
            Seq::empty()
        } else {
            seq![
                (
                    mem.subrange(off, nul),
                    spec_u64_from_le_bytes(mem.subrange(nul + 1, nul + 9)),
                    spec_u32_from_le_bytes(mem.subrange(nul + 9, nul + 13)),
                ),
            ] + entries_from(mem, nul + 21, stream_end)
        }
    } else {
        Seq::empty()
    }
}

#[via_fn]
proof fn entries_from_decreases(mem: Seq<u8>, off: int, stream_end: int) {
    if 0 <= off && off < stream_end && off < mem.len() {
        lemma_find_nul_bounds(mem, off);
    }
}

/// The offset the entry loop reaches: the buffer end when the terminator
/// runs out, the start of a discarded partial record, or the first offset
/// at or past the stream end.
pub open spec fn consumed_from(mem: Seq<u8>, off: int, stream_end: int) -> int
    decreases mem.len() - off,
        via consumed_from_decreases
{
    if 0 <= off && off < stream_end && off < mem.len() {
        let nul = find_nul(mem, off);
        if nul == mem.len() {
            mem.len() as int
        } else if nul + 21 > mem.len() {
            off
        } else {
            consumed_from(mem, nul + 21, stream_end)
        }
    } else {
        off
    }
}

#[via_fn]
proof fn consumed_from_decreases(mem: Seq<u8>, off: int, stream_end: int) {
    if 0 <= off && off < stream_end && off < mem.len() {
        lemma_find_nul_bounds(mem, off);
    }
}

/// The entry loop never lands before where it started nor past the buffer
/// end.
pub proof fn lemma_consumed_bounds(mem: Seq<u8>, off: int, stream_end: int)
    requires
        0 <= off <= mem.len(),
    ensures
        off <= consumed_from(mem, off, stream_end) <= mem.len(),
    decreases mem.len() - off,
{
    if 0 <= off && off < stream_end && off < mem.len() {
        let nul = find_nul(mem, off);
        lemma_find_nul_bounds(mem, off);
        if nul < mem.len() && nul + 21 <= mem.len() {
            lemma_consumed_bounds(mem, nul + 21, stream_end);
        }
    }
}

/// An executable entry carries the fields of a raw record, its path text
/// being the lossy UTF-8 decoding of the path bytes.
pub open spec fn entry_matches(e: Entry, raw: RawEntry) -> bool {
    &&& e.full_path@ == lossy_utf8(raw.0)
    &&& e.event_id == raw.1
    &&& e.flags.bits == raw.2
}

/// Decoded entries carry the raw records one for one, in order.
pub open spec fn entries_match(es: Seq<Entry>, raws: Seq<RawEntry>) -> bool {
    &&& es.len() == raws.len()
    &&& forall|i: int| 0 <= i < es.len() ==> entry_matches(es[i], #[trigger] raws[i])
}

/// The marker search stays within the buffer; a hit never lies before
/// where the search began.
pub proof fn lemma_find_marker_bounds(mem: Seq<u8>, off: int)
    requires
        0 <= off,
    ensures
        0 <= find_marker(mem, off) <= mem.len(),
        find_marker(mem, off) < mem.len() ==> off <= find_marker(mem, off),
    decreases mem.len() - off,
{
    if !(off < 0 || off + 4 > mem.len()) && !marker_at(mem, off) {
        lemma_find_marker_bounds(mem, off + 1);
    }
}

/// The first marker of `mem` leads to a page: it is present, the header
/// at it is well-formed, and it is not the legacy marker.
pub open spec fn page_ok(mem: Seq<u8>) -> bool {
    let mo = find_marker(mem, 0);
    let s = mem.subrange(mo, mem.len() as int);
    &&& mo < mem.len()
    &&& header_valid(s)
    &&& !is_v1_marker(s)
}

/// The stream length the page at the first marker declares.
pub open spec fn page_stream_size(mem: Seq<u8>) -> u32
    recommends
        page_ok(mem),
{
    spec_stream_size(mem.subrange(find_marker(mem, 0), mem.len() as int))
}

/// The raw records of the page at the first marker.
pub open spec fn page_raw_entries(mem: Seq<u8>) -> Seq<RawEntry>
    recommends
        page_ok(mem),
{
    let s = mem.subrange(find_marker(mem, 0), mem.len() as int);
    entries_from(s, 12, spec_stream_size(s) as int)
}

/// The bytes a successful page decode consumes from the front of `mem`.
pub open spec fn page_consumed(mem: Seq<u8>) -> int
    recommends
        page_ok(mem),
{
    let mo = find_marker(mem, 0);
    let s = mem.subrange(mo, mem.len() as int);
    mo + consumed_from(s, 12, spec_stream_size(s) as int)
}

/// A successful page decode consumes at least the header's fixed size and
/// never more than the buffer holds.
pub proof fn lemma_page_consumed_bounds(mem: Seq<u8>)
    requires
        page_ok(mem),
    ensures
        12 <= page_consumed(mem) <= mem.len(),
{
    let mo = find_marker(mem, 0);
    let s = mem.subrange(mo, mem.len() as int);
    lemma_find_marker_bounds(mem, 0);
    lemma_consumed_bounds(s, 12, spec_stream_size(s) as int);
}

/// Everything `Page::new` promises, as one predicate of the input bytes
/// alone: which outcome comes back and, on success, the header fields, the
/// decoded records, and the bytes consumed.
pub open spec fn page_new_post(mem: Seq<u8>, r: Result<(Page, usize), ParseError>) -> bool {
    let mo = find_marker(mem, 0);
    let s = mem.subrange(mo, mem.len() as int);
    if mo == mem.len() {
        r matches Err(e) && e is NoPageFound
    } else if !header_valid(s) {
        r matches Err(e) && e is InvalidHeader
    } else if is_v1_marker(s) {
        r matches Err(e) && e is UnsupportedVersion
    } else {
        r matches Ok(p) && {
            let (page, consumed) = p;
            &&& page.header.version is V2
            &&& page.header.stream_size == spec_stream_size(s)
            &&& entries_match(page.entries@, entries_from(s, 12, spec_stream_size(s) as int))
            &&& consumed == mo + consumed_from(s, 12, spec_stream_size(s) as int)
        }
    }
}

impl Page {
    /// Decode one page from the front of `mem` (everything remaining in
    /// the archive), yielding the page and the number of bytes consumed so
    /// the caller can advance past it; or fail with `NoPageFound` when no
    /// marker remains, `InvalidHeader` when the header at the first marker
    /// is malformed, or `UnsupportedVersion` at a legacy-format page.
    pub fn new(mem: &[u8]) -> (r: Result<(Page, usize), ParseError>)
        ensures
            page_new_post(mem@, r),
    {
        let n = mem.len();

        // find page magic
        let mut mo: usize = 0;
        let mut found = false;
        while !found && n - mo >= 4
            invariant
                mo <= n,
                n == mem@.len(),
                !found ==> find_marker(mem@, 0) == find_marker(mem@, mo as int),
                found ==> mo + 4 <= n && find_marker(mem@, 0) == mo as int,
            decreases n - mo + (if found { 0int } else { 1int }),
        {
            if (mem[mo] == 0x31 || mem[mo] == 0x32) && mem[mo + 1] == 0x53
                && mem[mo + 2] == 0x4c && mem[mo + 3] == 0x44 {
                proof {
                    assert(marker_at(mem@, mo as int));
                }
                found = true;
            } else {
                proof {
                    assert(!marker_at(mem@, mo as int));
                    assert(find_marker(mem@, mo as int) == find_marker(mem@, mo as int + 1));
                }
                mo += 1;
            }
        }
        if !found {
            proof {
                assert(find_marker(mem@, mo as int) == mem@.len());
            }
            return Err(ParseError::NoPageFound);
        }

        // parse header
        let sub = slice_subrange(mem, mo, n);
        let subn = sub.len();
        let header = match PageHeader::new(sub) {
            Ok(h) => h,
            Err(e) => {
                return Err(e);
            },
        };
        if matches!(header.version, Version::V1) {
            return Err(ParseError::UnsupportedVersion);
        }

        // parse entries by length
        let stream_size = header.stream_size as usize;
        let ghost se = header.stream_size as int;
        let mut rel: usize = 12;
        let mut entries: Vec<Entry> = Vec::new();
        let ghost mut raws: Seq<RawEntry> = Seq::empty();
        let mut done = false;
        while !done && rel < stream_size && rel < subn
            invariant
                12 <= rel <= subn,
                subn == sub@.len(),
                stream_size == se,
                entries_match(entries@, raws),
                entries_from(sub@, 12, se) == raws + entries_from(sub@, rel as int, se),
                consumed_from(sub@, 12, se) == consumed_from(sub@, rel as int, se),
                done ==> entries_from(sub@, rel as int, se) == Seq::<RawEntry>::empty()
                    && consumed_from(sub@, rel as int, se) == rel as int,
            decreases subn - rel + (if done { 0int } else { 1int }),
        {
            // find the path terminator
            let mut j = rel;
            let mut has_nul = false;
            while !has_nul && j < subn
                invariant
                    rel <= j <= subn,
                    subn == sub@.len(),
                    !has_nul ==> find_nul(sub@, rel as int) == find_nul(sub@, j as int),
                    has_nul ==> j < subn && sub@[j as int] == 0
                        && find_nul(sub@, rel as int) == j as int,
                decreases subn - j + (if has_nul { 0int } else { 1int }),
            {
                if sub[j] == 0 {
                    has_nul = true;
                } else {
                    proof {
                        assert(find_nul(sub@, j as int) == find_nul(sub@, j as int + 1));
                    }
                    j += 1;
                }
            }

            if !has_nul {
                // no terminator remains: the page's usable data ends here
                proof {
                    assert(find_nul(sub@, rel as int) == sub@.len());
                    assert(entries_from(sub@, rel as int, se) =~= Seq::<RawEntry>::empty());
                }
                rel = subn;
                proof {
                    assert(entries_from(sub@, rel as int, se) =~= Seq::<RawEntry>::empty());
                    assert(consumed_from(sub@, rel as int, se) == rel as int);
                }
                done = true;
            } else {
                let nul = j;
                if subn - nul < 21 {
                    // the fixed trailing fields would cross the buffer end:
                    // discard this partial record and stop
                    proof {
                        assert(entries_from(sub@, rel as int, se)
                            =~= Seq::<RawEntry>::empty());
                        assert(consumed_from(sub@, rel as int, se) == rel as int);
                    }
                    done = true;
                } else {
                    // full path, then event id, flags, and the skipped node id
                    let full_path = lossy_string(slice_subrange(sub, rel, nul));
                    let event_id = u64_from_le_bytes(slice_subrange(sub, nul + 1, nul + 9));
                    let fl = u32_from_le_bytes(slice_subrange(sub, nul + 9, nul + 13));
                    entries.push(Entry {
                        full_path,
                        event_id,
                        flags: EventFlag::from_bits(fl),
                    });
                    proof {
                        let raw: RawEntry = (
                            sub@.subrange(rel as int, nul as int),
                            spec_u64_from_le_bytes(sub@.subrange(nul as int + 1, nul as int + 9)),
                            spec_u32_from_le_bytes(sub@.subrange(nul as int + 9, nul as int + 13)),
                        );
                        assert(entries_from(sub@, rel as int, se)
                            == seq![raw] + entries_from(sub@, nul as int + 21, se));
                        assert(consumed_from(sub@, rel as int, se)
                            == consumed_from(sub@, nul as int + 21, se));
                        assert((raws + seq![raw]) + entries_from(sub@, nul as int + 21, se)
                            =~= raws + (seq![raw] + entries_from(sub@, nul as int + 21, se)));
                        raws = raws + seq![raw];
                    }
                    rel = nul + 21;
                }
            }
        }

        proof {
            if !done {
                assert(entries_from(sub@, rel as int, se) == Seq::<RawEntry>::empty());
                assert(consumed_from(sub@, rel as int, se) == rel as int);
            }
            assert(raws + Seq::<RawEntry>::empty() =~= raws);
            assert(entries_match(entries@, entries_from(sub@, 12, se)));
        }

        Ok((Page { header, entries }, mo + rel))
    }
}

} // verus!
