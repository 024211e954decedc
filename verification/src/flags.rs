//! The bit vocabulary of filesystem change records. A record's flags field
//! is an open bitmask: bits outside the known vocabulary are preserved as
//! raw bits, never rejected.

use vstd::prelude::*;
use vstd::string::*;

verus! {

pub const FSE_NONE: u32 = 0x00000000;
pub const FSE_CREATE_FILE: u32 = 0x00000001;
pub const FSE_DELETE: u32 = 0x00000002;
pub const FSE_STAT_CHANGED: u32 = 0x00000004;
pub const FSE_RENAME: u32 = 0x00000008;
pub const FSE_CONTENT_MODIFIED: u32 = 0x00000010;
pub const FSE_EXCHANGE: u32 = 0x00000020;
pub const FSE_FINDER_INFO_CHANGED: u32 = 0x00000040;
pub const FSE_CREATE_DIR: u32 = 0x00000080;
pub const FSE_CHOWN: u32 = 0x00000100;
pub const FSE_XATTR_MODIFIED: u32 = 0x00000200;
pub const FSE_XATTR_REMOVED: u32 = 0x00000400;
pub const FSE_DOCID_CREATED: u32 = 0x00000800;
pub const FSE_DOCID_CHANGED: u32 = 0x00001000;
pub const FSE_UNMOUNT_PENDING: u32 = 0x00002000;
pub const FSE_CLONE: u32 = 0x00004000;
pub const FSE_MODE_CLONE: u32 = 0x00010000;
pub const FSE_TRUNCATED_PATH: u32 = 0x00020000;
pub const FSE_REMOTE_DIR_EVENT: u32 = 0x00040000;
pub const FSE_MODE_LAST_HLINK: u32 = 0x00080000;
pub const FSE_MODE_HLINK: u32 = 0x00100000;
pub const FSE_IS_SYMLINK: u32 = 0x00400000;
pub const FSE_IS_FILE: u32 = 0x00800000;
pub const FSE_IS_DIR: u32 = 0x01000000;
pub const FSE_MOUNT: u32 = 0x02000000;
pub const FSE_UNMOUNT: u32 = 0x04000000;
pub const FSE_END_TRANSACTION: u32 = 0x20000000;

/// An event's flag bitmask, kept verbatim from the record it was decoded
/// from, including any bits outside the known vocabulary.
#[derive(Clone, Copy, PartialEq, Eq, Structural, Debug)]
pub struct EventFlag {
    pub bits: u32,
}

impl EventFlag {
    /// Wrap a raw bitmask, keeping every bit as it stands.
    pub fn from_bits(bits: u32) -> (r: EventFlag)
        ensures
            r.bits == bits,
    {
        EventFlag { bits }
    }

    /// The raw bitmask.
    pub fn bits(&self) -> (r: u32)
        ensures
            r == self.bits,
    {
        self.bits
    }

    /// Whether every bit of `mask` is set.
    pub fn contains(&self, mask: u32) -> (r: bool)
        ensures
            r == (self.bits & mask == mask),
    {
        self.bits & mask == mask
    }

    /// Whether no bit at all is set.
    pub fn is_empty(&self) -> (r: bool)
        ensures
            r == (self.bits == 0),
    {
        self.bits == 0
    }
}

/// Every bit of the known vocabulary.
pub const FSE_KNOWN_MASK: u32 = 0x27df7fff;

/// The known flag bits, lowest first, each with its name.
pub open spec fn known_flags() -> Seq<(u32, Seq<char>)> {
    seq![
        (0x00000001u32, "FSE_CREATE_FILE"@),
        (0x00000002u32, "FSE_DELETE"@),
        (0x00000004u32, "FSE_STAT_CHANGED"@),
        (0x00000008u32, "FSE_RENAME"@),
        (0x00000010u32, "FSE_CONTENT_MODIFIED"@),
        (0x00000020u32, "FSE_EXCHANGE"@),
        (0x00000040u32, "FSE_FINDER_INFO_CHANGED"@),
        (0x00000080u32, "FSE_CREATE_DIR"@),
        (0x00000100u32, "FSE_CHOWN"@),
        (0x00000200u32, "FSE_XATTR_MODIFIED"@),
        (0x00000400u32, "FSE_XATTR_REMOVED"@),
        (0x00000800u32, "FSE_DOCID_CREATED"@),
        (0x00001000u32, "FSE_DOCID_CHANGED"@),
        (0x00002000u32, "FSE_UNMOUNT_PENDING"@),
        (0x00004000u32, "FSE_CLONE"@),
        (0x00010000u32, "FSE_MODE_CLONE"@),
        (0x00020000u32, "FSE_TRUNCATED_PATH"@),
        (0x00040000u32, "FSE_REMOTE_DIR_EVENT"@),
        (0x00080000u32, "FSE_MODE_LAST_HLINK"@),
        (0x00100000u32, "FSE_MODE_HLINK"@),
        (0x00400000u32, "FSE_IS_SYMLINK"@),
        (0x00800000u32, "FSE_IS_FILE"@),
        (0x01000000u32, "FSE_IS_DIR"@),
        (0x02000000u32, "FSE_MOUNT"@),
        (0x04000000u32, "FSE_UNMOUNT"@),
        (0x20000000u32, "FSE_END_TRANSACTION"@),
    ]
}

/// Two rendering pieces joined with `" | "` when both are nonempty.
pub open spec fn joined(a: Seq<char>, b: Seq<char>) -> Seq<char> {
    if a.len() == 0 {
        b
    } else if b.len() == 0 {
        a
    } else {
        a + " | "@ + b
    }
}

pub proof fn lemma_joined_assoc(a: Seq<char>, b: Seq<char>, c: Seq<char>)
    ensures
        joined(a, joined(b, c)) == joined(joined(a, b), c),
{
    assert(joined(a, joined(b, c)) =~= joined(joined(a, b), c));
}

/// The names of the set bits among the vocabulary entries `fs`, in order,
/// joined by `" | "`.
pub open spec fn desc_over(bits: u32, fs: Seq<(u32, Seq<char>)>) -> Seq<char>
    decreases fs.len(),
{
    if fs.len() == 0 {
        Seq::empty()
    } else {
        let rest = desc_over(bits, fs.drop_first());
        if bits & fs.first().0 == fs.first().0 {
            joined(fs.first().1, rest)
        } else {
            rest
        }
    }
}

/// The lowercase hexadecimal digit of a nibble.
pub open spec fn hex_digit(n: u32) -> char {
    if n == 0 {
        '0'
    } else if n == 1 {
        '1'
    } else if n == 2 {
        '2'
    } else if n == 3 {
        '3'
    } else if n == 4 {
        '4'
    } else if n == 5 {
        '5'
    } else if n == 6 {
        '6'
    } else if n == 7 {
        '7'
    } else if n == 8 {
        '8'
    } else if n == 9 {
        '9'
    } else if n == 10 {
        'a'
    } else if n == 11 {
        'b'
    } else if n == 12 {
        'c'
    } else if n == 13 {
        'd'
    } else if n == 14 {
        'e'
    } else {
        'f'
    }
}

/// The eight-digit lowercase hexadecimal rendering of a 32-bit value.
pub open spec fn hex32(v: u32) -> Seq<char> {
    seq![
        hex_digit((v >> 28) & 0xf),
        hex_digit((v >> 24) & 0xf),
        hex_digit((v >> 20) & 0xf),
        hex_digit((v >> 16) & 0xf),
        hex_digit((v >> 12) & 0xf),
        hex_digit((v >> 8) & 0xf),
        hex_digit((v >> 4) & 0xf),
        hex_digit(v & 0xf),
    ]
}

/// The full rendering of a flags value: the names of its known bits in
/// vocabulary order joined by `" | "`, then any bits outside the known
/// vocabulary as one hexadecimal constant; `"FSE_NONE"` when no bit at
/// all is set.
pub open spec fn spec_flags_desc(bits: u32) -> Seq<char> {
    if bits == 0 {
        "FSE_NONE"@
    } else {
        let unknown = bits & !FSE_KNOWN_MASK;
        if unknown == 0 {
            desc_over(bits, known_flags())
        } else {
            joined(desc_over(bits, known_flags()), "0x"@ + hex32(unknown))
        }
    }
}

proof fn lemma_nibble(x: u32)
    ensures
        x & 0xf < 16,
{
    assert(x & 0xf < 16) by (bit_vector);
}

/// One lowercase hexadecimal digit as text.
fn hex_digit_str(n: u32) -> (r: &'static str)
    requires
        n < 16,
    ensures
        r@ == seq![hex_digit(n)],
{
    if n == 0 {
        proof {
            reveal_strlit("0");
        }
        assert("0"@ =~= seq![hex_digit(n)]);
        "0"
    } else if n == 1 {
        proof {
            reveal_strlit("1");
        }
        assert("1"@ =~= seq![hex_digit(n)]);
        "1"
    } else if n == 2 {
        proof {
            reveal_strlit("2");
        }
        assert("2"@ =~= seq![hex_digit(n)]);
        "2"
    } else if n == 3 {
        proof {
            reveal_strlit("3");
        }
        assert("3"@ =~= seq![hex_digit(n)]);
        "3"
    } else if n == 4 {
        proof {
            reveal_strlit("4");
        }
        assert("4"@ =~= seq![hex_digit(n)]);
        "4"
    } else if n == 5 {
        proof {
            reveal_strlit("5");
        }
        assert("5"@ =~= seq![hex_digit(n)]);
        "5"
    } else if n == 6 {
        proof {
            reveal_strlit("6");
        }
        assert("6"@ =~= seq![hex_digit(n)]);
        "6"
    } else if n == 7 {
        proof {
            reveal_strlit("7");
        }
        assert("7"@ =~= seq![hex_digit(n)]);
        "7"
    } else if n == 8 {
        proof {
            reveal_strlit("8");
        }
        assert("8"@ =~= seq![hex_digit(n)]);
        "8"
    } else if n == 9 {
        proof {
            reveal_strlit("9");
        }
        assert("9"@ =~= seq![hex_digit(n)]);
        "9"
    } else if n == 10 {
        proof {
            reveal_strlit("a");
        }
        assert("a"@ =~= seq![hex_digit(n)]);
        "a"
    } else if n == 11 {
        proof {
            reveal_strlit("b");
        }
        assert("b"@ =~= seq![hex_digit(n)]);
        "b"
    } else if n == 12 {
        proof {
            reveal_strlit("c");
        }
        assert("c"@ =~= seq![hex_digit(n)]);
        "c"
    } else if n == 13 {
        proof {
            reveal_strlit("d");
        }
        assert("d"@ =~= seq![hex_digit(n)]);
        "d"
    } else if n == 14 {
        proof {
            reveal_strlit("e");
        }
        assert("e"@ =~= seq![hex_digit(n)]);
        "e"
    } else {
        proof {
            reveal_strlit("f");
        }
        assert("f"@ =~= seq![hex_digit(n)]);
        "f"
    }
}

/// Append the eight hex digits of `v`.
fn append_hex32(res: &mut String, v: u32)
    ensures
        final(res)@ == old(res)@ + hex32(v),
{
    proof {
        lemma_nibble(v >> 28);
        lemma_nibble(v >> 24);
        lemma_nibble(v >> 20);
        lemma_nibble(v >> 16);
        lemma_nibble(v >> 12);
        lemma_nibble(v >> 8);
        lemma_nibble(v >> 4);
        lemma_nibble(v);
    }
    res.append(hex_digit_str((v >> 28) & 0xf));
    res.append(hex_digit_str((v >> 24) & 0xf));
    res.append(hex_digit_str((v >> 20) & 0xf));
    res.append(hex_digit_str((v >> 16) & 0xf));
    res.append(hex_digit_str((v >> 12) & 0xf));
    res.append(hex_digit_str((v >> 8) & 0xf));
    res.append(hex_digit_str((v >> 4) & 0xf));
    res.append(hex_digit_str(v & 0xf));
    proof {
        assert(final(res)@ =~= old(res)@ + hex32(v));
    }
}

/// Append one vocabulary entry's name when its bit is set, with the
/// separator where something already stands.
fn append_flag(res: &mut String, bits: u32, mask: u32, name: &str, Ghost(i): Ghost<int>)
    requires
        0 <= i < known_flags().len(),
        mask == known_flags()[i].0,
        name@ == known_flags()[i].1,
        name@.len() > 0,
        joined(old(res)@, desc_over(bits, known_flags().skip(i))) == desc_over(
            bits,
            known_flags(),
        ),
    ensures
        joined(final(res)@, desc_over(bits, known_flags().skip(i + 1))) == desc_over(
            bits,
            known_flags(),
        ),
{
    proof {
        let fs = known_flags();
        assert(fs.skip(i).first() == fs[i]);
        assert(fs.skip(i).drop_first() =~= fs.skip(i + 1));
    }
    if bits & mask == mask {
        if !res.as_str().is_empty() {
            res.append(" | ");
        }
        res.append(name);
        proof {
            lemma_joined_assoc(old(res)@, name@, desc_over(bits, known_flags().skip(i + 1)));
            assert(final(res)@ =~= joined(old(res)@, name@));
        }
    }
}

impl EventFlag {
    /// A human-readable rendering of the bitmask: the known set bits by
    /// name, any unknown remainder as one hexadecimal constant.
    pub fn describe(&self) -> (r: String)
        ensures
            r@ == spec_flags_desc(self.bits),
    {
        let bits = self.bits;
        if bits == 0 {
            return String::from_str("FSE_NONE");
        }
        let mut res = String::new();
        proof {
            reveal_strlit("FSE_CREATE_FILE");
            reveal_strlit("FSE_DELETE");
            reveal_strlit("FSE_STAT_CHANGED");
            reveal_strlit("FSE_RENAME");
            reveal_strlit("FSE_CONTENT_MODIFIED");
            reveal_strlit("FSE_EXCHANGE");
            reveal_strlit("FSE_FINDER_INFO_CHANGED");
            reveal_strlit("FSE_CREATE_DIR");
            reveal_strlit("FSE_CHOWN");
            reveal_strlit("FSE_XATTR_MODIFIED");
            reveal_strlit("FSE_XATTR_REMOVED");
            reveal_strlit("FSE_DOCID_CREATED");
            reveal_strlit("FSE_DOCID_CHANGED");
            reveal_strlit("FSE_UNMOUNT_PENDING");
            reveal_strlit("FSE_CLONE");
            reveal_strlit("FSE_MODE_CLONE");
            reveal_strlit("FSE_TRUNCATED_PATH");
            reveal_strlit("FSE_REMOTE_DIR_EVENT");
            reveal_strlit("FSE_MODE_LAST_HLINK");
            reveal_strlit("FSE_MODE_HLINK");
            reveal_strlit("FSE_IS_SYMLINK");
            reveal_strlit("FSE_IS_FILE");
            reveal_strlit("FSE_IS_DIR");
            reveal_strlit("FSE_MOUNT");
            reveal_strlit("FSE_UNMOUNT");
            reveal_strlit("FSE_END_TRANSACTION");
            assert(known_flags().skip(0) =~= known_flags());
        }
        append_flag(&mut res, bits, FSE_CREATE_FILE, "FSE_CREATE_FILE", Ghost(0));
        append_flag(&mut res, bits, FSE_DELETE, "FSE_DELETE", Ghost(1));
        append_flag(&mut res, bits, FSE_STAT_CHANGED, "FSE_STAT_CHANGED", Ghost(2));
        append_flag(&mut res, bits, FSE_RENAME, "FSE_RENAME", Ghost(3));
        append_flag(&mut res, bits, FSE_CONTENT_MODIFIED, "FSE_CONTENT_MODIFIED", Ghost(4));
        append_flag(&mut res, bits, FSE_EXCHANGE, "FSE_EXCHANGE", Ghost(5));
        append_flag(&mut res, bits, FSE_FINDER_INFO_CHANGED, "FSE_FINDER_INFO_CHANGED", Ghost(6));
        append_flag(&mut res, bits, FSE_CREATE_DIR, "FSE_CREATE_DIR", Ghost(7));
        append_flag(&mut res, bits, FSE_CHOWN, "FSE_CHOWN", Ghost(8));
        append_flag(&mut res, bits, FSE_XATTR_MODIFIED, "FSE_XATTR_MODIFIED", Ghost(9));
        append_flag(&mut res, bits, FSE_XATTR_REMOVED, "FSE_XATTR_REMOVED", Ghost(10));
        append_flag(&mut res, bits, FSE_DOCID_CREATED, "FSE_DOCID_CREATED", Ghost(11));
        append_flag(&mut res, bits, FSE_DOCID_CHANGED, "FSE_DOCID_CHANGED", Ghost(12));
        append_flag(&mut res, bits, FSE_UNMOUNT_PENDING, "FSE_UNMOUNT_PENDING", Ghost(13));
        append_flag(&mut res, bits, FSE_CLONE, "FSE_CLONE", Ghost(14));
        append_flag(&mut res, bits, FSE_MODE_CLONE, "FSE_MODE_CLONE", Ghost(15));
        append_flag(&mut res, bits, FSE_TRUNCATED_PATH, "FSE_TRUNCATED_PATH", Ghost(16));
        append_flag(&mut res, bits, FSE_REMOTE_DIR_EVENT, "FSE_REMOTE_DIR_EVENT", Ghost(17));
        append_flag(&mut res, bits, FSE_MODE_LAST_HLINK, "FSE_MODE_LAST_HLINK", Ghost(18));
        append_flag(&mut res, bits, FSE_MODE_HLINK, "FSE_MODE_HLINK", Ghost(19));
        append_flag(&mut res, bits, FSE_IS_SYMLINK, "FSE_IS_SYMLINK", Ghost(20));
        append_flag(&mut res, bits, FSE_IS_FILE, "FSE_IS_FILE", Ghost(21));
        append_flag(&mut res, bits, FSE_IS_DIR, "FSE_IS_DIR", Ghost(22));
        append_flag(&mut res, bits, FSE_MOUNT, "FSE_MOUNT", Ghost(23));
        append_flag(&mut res, bits, FSE_UNMOUNT, "FSE_UNMOUNT", Ghost(24));
        append_flag(&mut res, bits, FSE_END_TRANSACTION, "FSE_END_TRANSACTION", Ghost(25));
        proof {
            assert(known_flags().skip(26) =~= Seq::<(u32, Seq<char>)>::empty());
        }
        let unknown = bits & !FSE_KNOWN_MASK;
        if unknown != 0 {
            if !res.as_str().is_empty() {
                res.append(" | ");
            }
            let ghost before = res@;
            res.append("0x");
            append_hex32(&mut res, unknown);
            proof {
                assert(res@ =~= before + ("0x"@ + hex32(unknown)));
            }
        }
        res
    }
}

} // verus!
