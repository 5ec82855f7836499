//! Copying text into a buffer that C code reads.
use vstd::prelude::*;
use vstd::utf8::*;

use crate::text::{byte_len, cuts, whole_slice};

verus! {

/// Why a text was not copied.
#[derive(Clone, Copy, Debug, PartialEq, Eq, Structural)]
pub enum CopyError {
    /// The text is too long, and cut to the length that fits it would end inside
    /// of a character.
    SplitCharacter,
    /// What was to be copied holds a nul byte, first at this position.
    InteriorNul(usize),
    /// There is no buffer.
    NullDestination,
}

/// The number of bytes to copy of `src` so that a nul terminator still fits.
pub open spec fn copied_size(src: Seq<char>, dest_size: int) -> int {
    if byte_len(src) <= dest_size - 1 {
        byte_len(src)
    } else {
        dest_size - 1
    }
}

/// The bytes to copy of `src`.
pub open spec fn copied_bytes(src: Seq<char>, dest_size: int) -> Seq<u8> {
    encode_utf8(src).take(copied_size(src, dest_size))
}

/// What a buffer that held `before` holds after `src` was copied into it: the
/// bytes to copy, the nul terminator, and what stood behind.
pub open spec fn written(src: Seq<char>, before: Seq<u8>, dest_size: int) -> Seq<u8> {
    copied_bytes(src, dest_size) + seq![0u8] + before.skip(copied_size(src, dest_size) + 1)
}

/// Copies from `src` into `dest` at most `dest_size` - 1 bytes and writes a nul
/// terminator either after `src` or at the end of `dest_size`. Nothing is
/// written on an error.
pub fn copy_and_truncate_string(src: &str, dest: Option<&mut [u8]>, dest_size: usize) -> (copied:
    Result<(), CopyError>)
    requires
        dest_size > 0,
        dest matches Some(buffer) ==> dest_size <= buffer@.len(),
    ensures
        copied == if !cuts(src@, copied_size(src@, dest_size as int)) {
            Err(CopyError::SplitCharacter)
        } else {
            match copied_bytes(src@, dest_size as int).index_of_first(0u8) {
                Some(at) => Err(CopyError::InteriorNul(at as usize)),
                None => if dest is None {
                    Err(CopyError::NullDestination)
                } else {
                    Ok(())
                },
            }
        },
        dest matches Some(buffer) ==> final(buffer)@ == if copied is Ok {
            written(src@, buffer@, dest_size as int)
        } else {
            buffer@
        },
{
    let bytes = src.as_bytes();
    // Leave room for the nul terminator.
    let size: usize = if bytes.len() < dest_size {
        bytes.len()
    } else {
        dest_size - 1
    };
    if !src.is_char_boundary(size) {
        return Err(CopyError::SplitCharacter);
    }
    let ghost part = copied_bytes(src@, dest_size as int);
    for i in 0..size
        invariant
            bytes@ == encode_utf8(src@),
            part == copied_bytes(src@, dest_size as int),
            size == copied_size(src@, dest_size as int) <= bytes@.len(),
            cuts(src@, size as int),
            forall|j: int| 0 <= j < i ==> bytes@[j] != 0,
    {
        if bytes[i] == 0 {
            proof {
                part.index_of_first_ensures(0u8);
                assert(part[i as int] == 0);
                assert(part.contains(0u8));
            }
            return Err(CopyError::InteriorNul(i));
        }
    }
    proof {
        part.index_of_first_ensures(0u8);
    }
    match dest {
        None => Err(CopyError::NullDestination),
        Some(buffer) => {
            let ghost before = buffer@;
            for i in 0..size
                invariant
                    bytes@ == encode_utf8(src@),
                    size <= bytes@.len(),
                    size < buffer@.len(),
                    buffer@.len() == before.len(),
                    buffer@ == bytes@.take(i as int) + before.skip(i as int),
            {
                buffer[i] = bytes[i];
                proof {
                    assert(buffer@ =~= bytes@.take(i + 1) + before.skip(i + 1));
                }
            }
            buffer[size] = 0;
            proof {
                assert(buffer@ =~= written(src@, before, dest_size as int));
            }
            Ok(())
        },
    }
}

/// A copy keeps the buffer's length, ends in the first nul byte of it, and
/// changes nothing from `dest_size` on.
pub proof fn copies_are_terminated_and_in_bounds(src: Seq<char>, before: Seq<u8>, dest_size: int)
    requires
        0 < dest_size <= before.len(),
        copied_bytes(src, dest_size).index_of_first(0u8) is None,
    ensures
        written(src, before, dest_size).len() == before.len(),
        written(src, before, dest_size).index_of_first(0u8) == Some(copied_size(src, dest_size)),
        copied_size(src, dest_size) < dest_size,
        forall|i: int|
            dest_size <= i < before.len() ==> #[trigger] written(src, before, dest_size)[i]
                == before[i],
{
    let part = copied_bytes(src, dest_size);
    let after = written(src, before, dest_size);
    part.index_of_first_ensures(0u8);
    after.index_of_first_ensures(0u8);
    assert(after[part.len() as int] == 0);
    assert(after.contains(0u8));
    assert forall|i: int| 0 <= i < part.len() implies after[i] != 0 by {
        assert(after[i] == part[i]);
    }
}

/// A text that fits the buffer together with its terminator is copied whole.
pub proof fn short_text_is_copied_whole(src: Seq<char>, dest_size: int)
    requires
        byte_len(src) < dest_size,
    ensures
        cuts(src, copied_size(src, dest_size)),
        copied_bytes(src, dest_size) == encode_utf8(src),
{
    whole_slice(src);
    assert(encode_utf8(src).take(byte_len(src)) =~= encode_utf8(src));
}

/// A text that does not fit fills the buffer up to `dest_size`: its first
/// `dest_size` - 1 bytes are copied, none of them is lost, and the terminator is
/// the last byte.
pub proof fn long_text_fills_the_buffer(src: Seq<char>, before: Seq<u8>, dest_size: int)
    requires
        0 < dest_size <= before.len(),
        dest_size <= encode_utf8(src).len(),
    ensures
        copied_size(src, dest_size) == dest_size - 1,
        forall|i: int|
            0 <= i < dest_size - 1 ==> #[trigger] written(src, before, dest_size)[i]
                == encode_utf8(src)[i],
        written(src, before, dest_size)[dest_size - 1] == 0,
{
}

/// Every byte of the buffer after a copy: the text's own bytes in their places
/// as far as they fit, then one nul byte, and everything behind that as it was.
pub proof fn every_byte_of_a_copy(src: Seq<char>, before: Seq<u8>, dest_size: int, i: int)
    requires
        0 < dest_size <= before.len(),
        0 <= i < before.len(),
    ensures
        written(src, before, dest_size).len() == before.len(),
        i < encode_utf8(src).len() && i < dest_size - 1 ==> written(src, before, dest_size)[i]
            == encode_utf8(src)[i],
        i == encode_utf8(src).len() && i < dest_size ==> written(src, before, dest_size)[i] == 0,
        i == dest_size - 1 && i <= encode_utf8(src).len() ==> written(src, before, dest_size)[i]
            == 0,
        i > encode_utf8(src).len() || i >= dest_size ==> written(src, before, dest_size)[i]
            == before[i],
{
}

/// What is examined for nul bytes before a copy is the longest beginning of the
/// text's bytes that leaves room for the terminator.
pub proof fn as_much_as_fits_is_copied(src: Seq<char>, dest_size: int)
    requires
        0 < dest_size,
    ensures
        copied_bytes(src, dest_size).is_prefix_of(encode_utf8(src)),
        copied_bytes(src, dest_size).len() < dest_size,
        copied_bytes(src, dest_size) == encode_utf8(src) || copied_bytes(src, dest_size).len()
            == dest_size - 1,
        copied_bytes(src, dest_size).len() == copied_size(src, dest_size),
{
    assert(encode_utf8(src).take(encode_utf8(src).len() as int) =~= encode_utf8(src));
}

/// A buffer that holds a text whole stays the same, but for what it held before,
/// if it is made larger: more room changes nothing of the copy.
pub proof fn more_room_changes_nothing(src: Seq<char>, size: int, larger: int)
    requires
        encode_utf8(src).len() < size <= larger,
    ensures
        copied_bytes(src, size) == copied_bytes(src, larger),
{
}

} // verus!
