//! Properties the decoder is held to beyond the per-function contracts:
//! a synthetic well-formed page decodes back to exactly the records it
//! was built from, and decoding is a pure function of the buffer.

use vstd::prelude::*;
use vstd::bytes::{
    lemma_auto_spec_u32_to_from_le_bytes, lemma_auto_spec_u64_to_from_le_bytes,
    spec_u32_to_le_bytes, spec_u64_to_le_bytes,
};

use crate::archive::{archive_pages, page_matches, pages_match};
use crate::errors::ParseError;
use crate::page::{
    Page, RawEntry, consumed_from, entries_from, entry_matches, find_marker, find_nul,
    lemma_find_marker_bounds, marker_at, page_consumed, page_new_post, page_ok, page_raw_entries,
    page_stream_size,
};

verus! {

/// The byte encoding of one record: the path, its terminator, the
/// little-endian event identifier and flag bitmask, and an all-zero
/// node-id field.
pub open spec fn encode_entry(e: RawEntry) -> Seq<u8> {
    e.0 + seq![0u8] + spec_u64_to_le_bytes(e.1) + spec_u32_to_le_bytes(e.2) + Seq::new(
        8,
        |i: int| 0u8,
    )
}

/// The records from the `i`th on, encoded one after another.
pub open spec fn encode_entries(es: Seq<RawEntry>, i: int) -> Seq<u8>
    decreases es.len() - i,
{
    if 0 <= i < es.len() {
        encode_entry(es[i]) + encode_entries(es, i + 1)
    } else {
        Seq::empty()
    }
}

/// A whole synthetic page: the supported marker, four reserved zero
/// bytes, the little-endian total length, then the records.
pub open spec fn encode_page(es: Seq<RawEntry>) -> Seq<u8> {
    let body = encode_entries(es, 0);
    seq![0x32u8, 0x53u8, 0x4cu8, 0x44u8] + Seq::new(4, |i: int| 0u8) + spec_u32_to_le_bytes(
        (12 + body.len()) as u32,
    ) + body
}

/// A record fit for encoding: its path holds no terminator byte.
pub open spec fn entry_encodable(e: RawEntry) -> bool {
    forall|i: int| 0 <= i < e.0.len() ==> e.0[i] != 0
}

/// The terminator search lands exactly on a known null preceded by no
/// other.
proof fn lemma_find_nul_at(mem: Seq<u8>, off: int, k: int)
    requires
        0 <= off <= k < mem.len(),
        mem[k] == 0,
        forall|j: int| off <= j < k ==> mem[j] != 0,
    ensures
        find_nul(mem, off) == k,
    decreases k - off,
{
    if off < k {
        lemma_find_nul_at(mem, off + 1, k);
    }
}

/// When the bytes from `off` on are exactly the encodings of the records
/// from the `i`th on, and the stream end is the buffer end, the entry
/// loop decodes exactly those records and consumes everything.
proof fn lemma_entries_from_encoding(mem: Seq<u8>, es: Seq<RawEntry>, i: int, off: int)
    requires
        forall|k: int| 0 <= k < es.len() ==> entry_encodable(#[trigger] es[k]),
        0 <= i <= es.len(),
        0 <= off <= mem.len(),
        mem.subrange(off, mem.len() as int) == encode_entries(es, i),
    ensures
        entries_from(mem, off, mem.len() as int) == es.skip(i),
        consumed_from(mem, off, mem.len() as int) == mem.len(),
    decreases es.len() - i,
{
    lemma_auto_spec_u64_to_from_le_bytes();
    lemma_auto_spec_u32_to_from_le_bytes();
    let n = mem.len() as int;
    if i == es.len() {
        assert(encode_entries(es, i).len() == 0);
        assert(off == n);
        assert(entries_from(mem, off, n) =~= es.skip(i));
    } else {
        let e = es[i];
        let plen = e.0.len() as int;
        let enc = encode_entries(es, i);
        assert(enc == encode_entry(e) + encode_entries(es, i + 1));
        assert(encode_entry(e).len() == plen + 21);
        assert(n - off == enc.len());

        // each byte of the record as the encoding gives it
        assert forall|j: int| 0 <= j < enc.len() implies mem[off + j] == enc[j] by {
            assert(mem.subrange(off, n)[j] == mem[off + j]);
        }

        // the terminator stands right after the path
        assert(entry_encodable(e));
        assert forall|j: int| off <= j < off + plen implies mem[j] != 0 by {
            assert(enc[j - off] == e.0[j - off]);
        }
        assert(enc[plen] == 0);
        assert(mem[off + plen] == 0);
        lemma_find_nul_at(mem, off, off + plen);
        let nul = off + plen;
        assert(find_nul(mem, off) == nul);
        assert(nul + 21 <= n);

        // the decoded fields are the encoded ones
        assert(mem.subrange(off, nul) =~= e.0);
        assert forall|j: int| 0 <= j < 8 implies mem.subrange(nul + 1, nul + 9)[j]
            == spec_u64_to_le_bytes(e.1)[j] by {
            assert(enc[plen + 1 + j] == spec_u64_to_le_bytes(e.1)[j]);
        }
        assert(mem.subrange(nul + 1, nul + 9) =~= spec_u64_to_le_bytes(e.1));
        assert forall|j: int| 0 <= j < 4 implies mem.subrange(nul + 9, nul + 13)[j]
            == spec_u32_to_le_bytes(e.2)[j] by {
            assert(enc[plen + 9 + j] == spec_u32_to_le_bytes(e.2)[j]);
        }
        assert(mem.subrange(nul + 9, nul + 13) =~= spec_u32_to_le_bytes(e.2));

        // the rest of the buffer is the rest of the records
        assert(mem.subrange(nul + 21, n) =~= encode_entries(es, i + 1)) by {
            assert forall|j: int| 0 <= j < n - (nul + 21) implies #[trigger] mem.subrange(
                nul + 21,
                n,
            )[j] == encode_entries(es, i + 1)[j] by {
                assert(enc[plen + 21 + j] == encode_entries(es, i + 1)[j]);
                assert(mem[nul + 21 + j] == enc[plen + 21 + j]);
            }
        }
        lemma_entries_from_encoding(mem, es, i + 1, nul + 21);

        // one decoded record, then the rest
        assert(off < n);
        let raw: RawEntry = (
            mem.subrange(off, nul),
            vstd::bytes::spec_u64_from_le_bytes(mem.subrange(nul + 1, nul + 9)),
            vstd::bytes::spec_u32_from_le_bytes(mem.subrange(nul + 9, nul + 13)),
        );
        assert(raw == e);
        assert(entries_from(mem, off, n) == seq![raw] + entries_from(mem, nul + 21, n));
        assert(es.skip(i) =~= seq![e] + es.skip(i + 1));
        assert(entries_from(mem, off, n) =~= es.skip(i));
        assert(consumed_from(mem, off, n) == consumed_from(mem, nul + 21, n));
    }
}

/// Round trip: a synthetic page built from well-formed records — the
/// supported marker, a header declaring the true total length, and the
/// records one after another — decodes to exactly those records, and the
/// decode consumes exactly the encoded length.
pub proof fn lemma_page_round_trip(es: Seq<RawEntry>)
    requires
        forall|k: int| 0 <= k < es.len() ==> entry_encodable(#[trigger] es[k]),
        12 + encode_entries(es, 0).len() <= u32::MAX,
    ensures
        page_ok(encode_page(es)),
        page_raw_entries(encode_page(es)) == es,
        page_stream_size(encode_page(es)) == encode_page(es).len(),
        page_consumed(encode_page(es)) == encode_page(es).len(),
{
    lemma_auto_spec_u32_to_from_le_bytes();
    let body = encode_entries(es, 0);
    let total = (12 + body.len()) as u32;
    let enc = encode_page(es);
    let n = enc.len() as int;
    assert(spec_u32_to_le_bytes(total).len() == 4);
    assert(n == 12 + body.len());

    // the marker stands at the very front
    assert(enc[0] == 0x32 && enc[1] == 0x53 && enc[2] == 0x4c && enc[3] == 0x44);
    assert(marker_at(enc, 0));
    assert(find_marker(enc, 0) == 0);
    let s = enc.subrange(0, n);
    assert(s =~= enc);

    // the header declares the true total length
    assert(enc.subrange(8, 12) =~= spec_u32_to_le_bytes(total));
    assert(crate::header::spec_stream_size(enc) == total);
    assert(crate::header::header_valid(enc));
    assert(!crate::header::is_v1_marker(enc));
    assert(page_ok(enc));

    // the records decode back unchanged
    assert(enc.subrange(12, n) =~= body);
    lemma_entries_from_encoding(enc, es, 0, 12);
    assert(es.skip(0) =~= es);
    assert(page_raw_entries(enc) == es);
    assert(page_consumed(enc) == n);
}

/// Decoding is a pure function of the buffer, with no hidden state: any
/// two results the page decoder's contract admits for the same bytes
/// agree — the same outcome and error kind, the same header fields and
/// consumed count, and entries equal field by field.
pub proof fn lemma_page_decode_deterministic(
    mem: Seq<u8>,
    r1: Result<(Page, usize), ParseError>,
    r2: Result<(Page, usize), ParseError>,
)
    requires
        page_new_post(mem, r1),
        page_new_post(mem, r2),
    ensures
        r1 is Ok <==> r2 is Ok,
        r1 matches Err(e1) ==> (r2 matches Err(e2) ==> e1 == e2),
        r1 matches Ok(a) ==> (r2 matches Ok(b) ==> {
            let (p1, c1) = a;
            let (p2, c2) = b;
            &&& c1 == c2
            &&& p1.header == p2.header
            &&& p1.entries@.len() == p2.entries@.len()
            &&& forall|i: int|
                0 <= i < p1.entries@.len() ==> {
                    &&& #[trigger] p1.entries@[i].full_path@ == p2.entries@[i].full_path@
                    &&& p1.entries@[i].event_id == p2.entries@[i].event_id
                    &&& p1.entries@[i].flags == p2.entries@[i].flags
                }
        }),
{
    lemma_find_marker_bounds(mem, 0);
    match (r1, r2) {
        (Ok(a), Ok(b)) => {
            let (p1, c1) = a;
            let (p2, c2) = b;
            let raws = page_raw_entries(mem);
            assert(p1.header.stream_size == page_stream_size(mem));
            assert(p2.header.stream_size == page_stream_size(mem));
            assert forall|i: int| 0 <= i < p1.entries@.len() implies {
                &&& #[trigger] p1.entries@[i].full_path@ == p2.entries@[i].full_path@
                &&& p1.entries@[i].event_id == p2.entries@[i].event_id
                &&& p1.entries@[i].flags == p2.entries@[i].flags
            } by {
                assert(entry_matches(p1.entries@[i], raws[i]));
                assert(entry_matches(p2.entries@[i], raws[i]));
            }
        },
        _ => {},
    }
}

/// The archive scan too is a pure function of the decompressed buffer:
/// any two page sequences the archive decoder's contract admits for the
/// same bytes agree page by page and field by field.
pub proof fn lemma_archive_scan_deterministic(buf: Seq<u8>, ps1: Seq<Page>, ps2: Seq<Page>)
    requires
        pages_match(ps1, archive_pages(buf, 0)),
        pages_match(ps2, archive_pages(buf, 0)),
    ensures
        ps1.len() == ps2.len(),
        forall|i: int|
            0 <= i < ps1.len() ==> #[trigger] ps1[i].header == ps2[i].header
                && ps1[i].entries@.len() == ps2[i].entries@.len(),
        forall|i: int, j: int|
            0 <= i < ps1.len() && 0 <= j < ps1[i].entries@.len() ==> {
                &&& #[trigger] ps1[i].entries@[j].full_path@ == ps2[i].entries@[j].full_path@
                &&& ps1[i].entries@[j].event_id == ps2[i].entries@[j].event_id
                &&& ps1[i].entries@[j].flags == ps2[i].entries@[j].flags
            },
{
    let ms = archive_pages(buf, 0);
    assert forall|i: int| 0 <= i < ps1.len() implies #[trigger] ps1[i].header == ps2[i].header
        && ps1[i].entries@.len() == ps2[i].entries@.len() by {
        assert(page_matches(ps1[i], ms[i]));
        assert(page_matches(ps2[i], ms[i]));
    }
    assert forall|i: int, j: int|
        0 <= i < ps1.len() && 0 <= j < ps1[i].entries@.len() implies {
        &&& #[trigger] ps1[i].entries@[j].full_path@ == ps2[i].entries@[j].full_path@
        &&& ps1[i].entries@[j].event_id == ps2[i].entries@[j].event_id
        &&& ps1[i].entries@[j].flags == ps2[i].entries@[j].flags
    } by {
        assert(page_matches(ps1[i], ms[i]));
        assert(page_matches(ps2[i], ms[i]));
        assert(entry_matches(ps1[i].entries@[j], ms[i].1[j]));
        assert(entry_matches(ps2[i].entries@[j], ms[i].1[j]));
    }
}

} // verus!
