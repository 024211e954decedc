//! Decoding of one whole archive: decompress the source bytes, then decode
//! pages one after another — each advancing the scan by the bytes it
//! consumed — until the buffer is exhausted or a page fails to decode.
//! Pages decoded before a failure are kept; nothing after it is attempted.

use vstd::prelude::*;
use vstd::slice::slice_subrange;

use crate::errors::ParseError;
use crate::page::{
    Page, RawEntry, entries_match, lemma_page_consumed_bounds, page_consumed, page_new_post,
    page_ok, page_raw_entries, page_stream_size,
};

verus! {

/// One decoded source file: its pages in decode order (which is file
/// order), with the file's name and filesystem timestamps (epoch seconds),
/// taken from metadata rather than file content.
pub struct Archive {
    pub pages: Vec<Page>,
    pub filename: String,
    pub mtime: u64,
    pub ctime: u64,
}

/// What multi-member gzip inflation makes of a byte sequence: the
/// decompressed bytes, or nothing when the stream is not valid gzip.
pub uninterp spec fn gunzip_of(data: Seq<u8>) -> Option<Seq<u8>>;

/// Relies on flate2's read::MultiGzDecoder over an in-memory byte slice:
/// whether inflation succeeds, and what it yields, depend on the bytes
/// alone; concatenated gzip members are decoded in full.
#[verifier::external_body]
fn gunzip(data: &[u8]) -> (r: Result<Vec<u8>, String>)
    ensures
        r is Ok <==> gunzip_of(data@) is Some,
        r matches Ok(buf) ==> gunzip_of(data@) matches Some(b) && buf@ == b,
{
    let mut decoder = flate2::read::MultiGzDecoder::new(data);
    let mut buf = Vec::new();
    match std::io::Read::read_to_end(&mut decoder, &mut buf) {
        Ok(_) => Ok(buf),
        Err(e) => Err(format!("{}", e)),
    }
}

/// The model of one decoded page: its declared stream length and its raw
/// records.
pub type RawPage = (u32, Seq<RawEntry>);

/// An executable page carries a model page's fields; only the supported
/// version ever decodes.
pub open spec fn page_matches(p: Page, m: RawPage) -> bool {
    &&& p.header.version is V2
    &&& p.header.stream_size == m.0
    &&& entries_match(p.entries@, m.1)
}

pub open spec fn pages_match(ps: Seq<Page>, ms: Seq<RawPage>) -> bool {
    &&& ps.len() == ms.len()
    &&& forall|i: int| 0 <= i < ps.len() ==> page_matches(ps[i], #[trigger] ms[i])
}

/// The pages an archive scan yields from `buf` starting at `off`: repeated
/// page decodes, each advancing by the bytes it consumed, stopping at
/// buffer exhaustion or at the first page that fails to decode.
pub open spec fn archive_pages(buf: Seq<u8>, off: int) -> Seq<RawPage>
    decreases buf.len() - off,
{
    if 0 <= off && off < buf.len() {
        let s = buf.subrange(off, buf.len() as int);
        if page_ok(s) {
            let c = page_consumed(s);
            let next = if c < 12 {
                off + 12
            } else {
                off + c
            };
            let bounded = if next > buf.len() {
                buf.len() as int
            } else {
                next
            };
            seq![(page_stream_size(s), page_raw_entries(s))] + archive_pages(buf, bounded)
        } else {
            Seq::empty()
        }
    } else {
        Seq::empty()
    }
}

impl Archive {
    /// Build one decoded archive from its compressed bytes, together with
    /// the source file's name and timestamps. Decompression failure is
    /// fatal for this archive; a page-level failure only ends the scan,
    /// keeping the pages decoded before it. An archive of zero pages is
    /// still a valid result.
    pub fn new(filename: String, mtime: u64, ctime: u64, compressed: &[u8]) -> (r: Result<
        Archive,
        ParseError,
    >)
        ensures
            r is Ok <==> gunzip_of(compressed@) is Some,
            r matches Ok(a) ==> gunzip_of(compressed@) matches Some(buf) && {
                &&& a.filename@ == filename@
                &&& a.mtime == mtime
                &&& a.ctime == ctime
                &&& pages_match(a.pages@, archive_pages(buf, 0))
            },
            r matches Err(e) ==> e is IoError,
    {
        // uncompress
        let buf = match gunzip(compressed) {
            Ok(b) => b,
            Err(m) => {
                return Err(ParseError::IoError(m));
            },
        };
        let n = buf.len();

        // parse all pages
        let mut pages: Vec<Page> = Vec::new();
        let ghost mut models: Seq<RawPage> = Seq::empty();
        let mut offset: usize = 0;
        let mut done = false;
        while !done && offset < n
            invariant
                offset <= n,
                n == buf@.len(),
                pages_match(pages@, models),
                archive_pages(buf@, 0) == models + archive_pages(buf@, offset as int),
                done ==> archive_pages(buf@, offset as int) == Seq::<RawPage>::empty(),
            decreases n - offset + (if done { 0int } else { 1int }),
        {
            let tail = slice_subrange(buf.as_slice(), offset, n);
            match Page::new(tail) {
                Ok((page, consumed)) => {
                    proof {
                        crate::page::lemma_find_marker_bounds(tail@, 0);
                        assert(page_ok(tail@));
                        lemma_page_consumed_bounds(tail@);
                        let m: RawPage = (page_stream_size(tail@), page_raw_entries(tail@));
                        assert(archive_pages(buf@, offset as int) == seq![m] + archive_pages(
                            buf@,
                            offset + page_consumed(tail@),
                        ));
                        assert((models + seq![m]) + archive_pages(
                            buf@,
                            offset + page_consumed(tail@),
                        ) =~= models + (seq![m] + archive_pages(
                            buf@,
                            offset + page_consumed(tail@),
                        )));
                        models = models + seq![m];
                    }
                    offset += consumed;
                    pages.push(page);
                },
                Err(_) => {
                    // a failed page ends this archive's scan; what was
                    // decoded so far is kept
                    proof {
                        assert(!page_ok(tail@));
                        assert(archive_pages(buf@, offset as int) == Seq::<RawPage>::empty());
                    }
                    done = true;
                },
            }
        }

        proof {
            assert(archive_pages(buf@, offset as int) == Seq::<RawPage>::empty());
            assert(models + Seq::<RawPage>::empty() =~= models);
        }

        Ok(Archive { pages, filename, mtime, ctime })
    }
}

} // verus!
