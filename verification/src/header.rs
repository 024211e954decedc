//! The fixed-size header that precedes each page's entry stream.
//!
//! A page begins with a 4-byte ASCII marker (`"1SLD"` for the legacy
//! format, `"2SLD"` for the supported one), 4 reserved bytes, and a 4-byte
//! little-endian stream length. Validating that declared length against the
//! bytes actually available — never trusting the file's self-reported size —
//! is the primary defense against out-of-bounds reads from truncated or
//! adversarial input.

use vstd::prelude::*;
use vstd::bytes::{spec_u32_from_le_bytes, u32_from_le_bytes};
use vstd::slice::slice_subrange;

use crate::errors::ParseError;

verus! {

/// The format version a page header declares.
#[derive(Clone, Copy, PartialEq, Eq, Structural, Debug)]
pub enum Version {
    Unkown,
    V1,
    V2,
}

/// The buffer opens with the legacy page marker, the ASCII bytes `1SLD`.
pub open spec fn is_v1_marker(mem: Seq<u8>) -> bool {
    &&& mem.len() >= 4
    &&& mem[0] == 0x31
    &&& mem[1] == 0x53
    &&& mem[2] == 0x4c
    &&& mem[3] == 0x44
}

/// The buffer opens with the supported page marker, the ASCII bytes `2SLD`.
pub open spec fn is_v2_marker(mem: Seq<u8>) -> bool {
    &&& mem.len() >= 4
    &&& mem[0] == 0x32
    &&& mem[1] == 0x53
    &&& mem[2] == 0x4c
    &&& mem[3] == 0x44
}

/// The stream length a header declares: little-endian bytes 8..12.
pub open spec fn spec_stream_size(mem: Seq<u8>) -> u32
    recommends
        mem.len() >= 12,
{
    spec_u32_from_le_bytes(mem.subrange(8, 12))
}

/// A well-formed header: the full fixed size is present, the marker is one
/// of the two recognized ones, and the declared stream length does not
/// exceed the bytes available.
pub open spec fn header_valid(mem: Seq<u8>) -> bool {
    &&& mem.len() >= 12
    &&& is_v1_marker(mem) || is_v2_marker(mem)
    &&& spec_stream_size(mem) as int <= mem.len()
}

/// The decoded fixed-size prefix of a page.
#[derive(Clone, Copy, PartialEq, Eq, Structural, Debug)]
pub struct PageHeader {
    pub version: Version,
    pub stream_size: u32,
}

impl PageHeader {
    /// The fixed byte size of a page header.
    pub fn len() -> (r: usize)
        ensures
            r == 12,
    {
        12
    }

    /// Read a header from the front of `mem`: a pure, side-effect-free
    /// read that consumes no cursor.
    ///
    /// Succeeds exactly on well-formed headers; in particular a header
    /// whose declared length exceeds the bytes available is rejected even
    /// when its marker is valid, and a buffer shorter than the fixed
    /// header size always fails.
    pub fn new(mem: &[u8]) -> (r: Result<PageHeader, ParseError>)
        ensures
            r is Ok <==> header_valid(mem@),
            r matches Ok(h) ==> {
                &&& h.stream_size == spec_stream_size(mem@)
                &&& h.stream_size as int <= mem@.len()
                &&& (h.version is V1 <==> is_v1_marker(mem@))
                &&& (h.version is V2 <==> is_v2_marker(mem@))
            },
            r matches Err(e) ==> e is InvalidHeader,
    {
        if mem.len() < 12 {
            return Err(ParseError::InvalidHeader);
        }

        let version: Version = if mem[0] == 0x31 && mem[1] == 0x53 && mem[2] == 0x4c
            && mem[3] == 0x44 {
            Version::V1
        } else if mem[0] == 0x32 && mem[1] == 0x53 && mem[2] == 0x4c && mem[3] == 0x44 {
            Version::V2
        } else {
            return Err(ParseError::InvalidHeader);
        };

        let size = u32_from_le_bytes(slice_subrange(mem, 8, 12));
        if size as usize > mem.len() {
            return Err(ParseError::InvalidHeader);
        }

        Ok(PageHeader { version, stream_size: size })
    }
}

} // verus!
