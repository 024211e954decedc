//! The decision half of archive discovery: which directory entries count
//! as candidate archive files. Reading the directory itself is I/O and
//! stays with the caller; it hands in each entry's file name and whether
//! the entry is a regular file.

use vstd::prelude::*;
use vstd::string::*;

verus! {

/// A lowercase hexadecimal digit.
pub open spec fn is_hex_lower(c: char) -> bool {
    (0x30 <= c as u32 && c as u32 <= 0x39) || (0x61 <= c as u32 && c as u32 <= 0x66)
}

/// A candidate archive file name: exactly 16 lowercase hexadecimal
/// characters, the daemon's naming convention for an event-id range.
pub open spec fn spec_is_archive_name(s: Seq<char>) -> bool {
    s.len() == 16 && forall|i: int| 0 <= i < s.len() ==> is_hex_lower(#[trigger] s[i])
}

/// Whether a file name has the shape of an archive name.
pub fn is_archive_name(name: &str) -> (r: bool)
    ensures
        r == spec_is_archive_name(name@),
{
    let n = name.unicode_len();
    if n != 16 {
        return false;
    }
    let mut i: usize = 0;
    while i < 16
        invariant
            name@.len() == 16,
            i <= 16,
            forall|j: int| 0 <= j < i ==> is_hex_lower(#[trigger] name@[j]),
        decreases 16 - i,
    {
        let c = name.get_char(i);
        let u = c as u32;
        if !((0x30 <= u && u <= 0x39) || (0x61 <= u && u <= 0x66)) {
            return false;
        }
        i += 1;
    }
    true
}

/// The names kept from a directory listing: those of regular files whose
/// name has the archive shape.
pub open spec fn spec_selected(entries: Seq<(String, bool)>) -> Seq<Seq<char>>
    decreases entries.len(),
{
    if entries.len() == 0 {
        Seq::empty()
    } else {
        let e = entries.first();
        let rest = spec_selected(entries.drop_first());
        if e.1 && spec_is_archive_name(e.0@) {
            seq![e.0@] + rest
        } else {
            rest
        }
    }
}

/// Pick the candidate archives out of one directory listing, each entry
/// given as its file name and whether it is a regular file. An empty
/// listing — as an unreadable directory yields — gives an empty result.
pub fn select_archives(entries: &Vec<(String, bool)>) -> (r: Vec<String>)
    ensures
        r@.map_values(|s: String| s@) == spec_selected(entries@),
{
    let n = entries.len();
    let mut r: Vec<String> = Vec::new();
    let mut i: usize = 0;
    proof {
        assert(entries@.skip(0) =~= entries@);
        assert(r@.map_values(|s: String| s@) + spec_selected(entries@) =~= spec_selected(
            entries@,
        ));
    }
    while i < n
        invariant
            i <= n,
            n == entries@.len(),
            spec_selected(entries@) == r@.map_values(|s: String| s@) + spec_selected(
                entries@.skip(i as int),
            ),
        decreases n - i,
    {
        let keep = entries[i].1 && is_archive_name(entries[i].0.as_str());
        proof {
            let tail = entries@.skip(i as int);
            assert(tail.first() == entries@[i as int]);
            assert(tail.drop_first() =~= entries@.skip(i as int + 1));
            assert(spec_selected(tail) == if entries@[i as int].1 && spec_is_archive_name(
                entries@[i as int].0@,
            ) {
                seq![entries@[i as int].0@] + spec_selected(entries@.skip(i as int + 1))
            } else {
                spec_selected(entries@.skip(i as int + 1))
            });
        }
        if keep {
            let name = entries[i].0.clone();
            proof {
                assert(r@.push(entries@[i as int].0).map_values(|s: String| s@) =~= r@.map_values(
                    |s: String| s@,
                ).push(entries@[i as int].0@));
                assert((r@.map_values(|s: String| s@) + seq![entries@[i as int].0@])
                    + spec_selected(entries@.skip(i as int + 1)) =~= r@.map_values(
                    |s: String| s@,
                ) + (seq![entries@[i as int].0@] + spec_selected(entries@.skip(i as int + 1))));
                assert(r@.map_values(|s: String| s@).push(entries@[i as int].0@) =~= r@.map_values(
                    |s: String| s@,
                ) + seq![entries@[i as int].0@]);
            }
            r.push(name);
        }
        i += 1;
    }
    proof {
        assert(entries@.skip(n as int) =~= Seq::<(String, bool)>::empty());
        assert(r@.map_values(|s: String| s@) + Seq::<Seq<char>>::empty() =~= r@.map_values(
            |s: String| s@,
        ));
    }
    r
}

} // verus!
