//! Consecutive numbered lines from a start line on.
use crate::read_file::lines::{display_of, format_line, numbered, numbered_chars};
use crate::read_file::ReadFileError;
use crate::text::string_from_chars;
use vstd::prelude::*;

verus! {

/// The first line that a slice read shows, 0-based.
pub open spec fn slice_first(offset: usize) -> int {
    if offset == 0 {
        0
    } else {
        offset - 1
    }
}

/// The numbered lines that a slice read of `lines` shows.
pub open spec fn slice_lines(lines: Seq<Vec<u8>>, offset: usize, limit: usize) -> Seq<Seq<char>> {
    let first = slice_first(offset);
    let count = if limit < lines.len() - first {
        limit as int
    } else {
        lines.len() - first
    };
    Seq::new(count as nat, |k: int| numbered((first + k + 1) as nat, display_of(lines[first + k]@)))
}

/// Up to `limit` numbered lines from line `offset` on; refused when the
/// file has fewer than `offset` lines.
pub fn read(lines: &Vec<Vec<u8>>, offset: usize, limit: usize) -> (r: Result<Vec<String>, ReadFileError>)
    ensures
        lines@.len() < offset ==> r matches Err(ReadFileError::OffsetExceedsLength),
        lines@.len() >= offset ==> (r matches Ok(v) && v@.map_values(|s: String| s@) == slice_lines(
            lines@,
            offset,
            limit,
        )),
{
    if lines.len() < offset {
        return Err(ReadFileError::OffsetExceedsLength);
    }
    let first: usize = if offset == 0 {
        0
    } else {
        offset - 1
    };
    let available = lines.len() - first;
    let count = if limit < available {
        limit
    } else {
        available
    };
    let mut collected: Vec<String> = Vec::new();
    let n = lines.len();
    let mut k: usize = 0;
    while k < count
        invariant
            k <= count,
            n == lines@.len(),
            first + count <= lines@.len(),
            first == slice_first(offset),
            count == if limit < lines@.len() - first {
                limit as int
            } else {
                lines@.len() - first
            },
            collected@.len() == k,
            forall|i: int|
                0 <= i < k ==> #[trigger] collected@[i]@ == numbered(
                    (first + i + 1) as nat,
                    display_of(lines@[first + i]@),
                ),
        decreases count - k,
    {
        let display = format_line(lines[first + k].as_slice());
        let line = numbered_chars(first + k + 1, display.as_slice());
        collected.push(string_from_chars(line.as_slice()));
        k = k + 1;
    }
    assert(collected@.map_values(|s: String| s@) =~= slice_lines(lines@, offset, limit));
    Ok(collected)
}

} // verus!
