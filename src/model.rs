//! The meaning of a FASTQ file as a sequence of lines: which line breaks which
//! rule, and the verdict of a whole file.
use vstd::prelude::*;

use crate::alphabet::all_bases;
use crate::digest::xxh3_128_of;
use crate::error::{ErrorKind, FormatRule};

verus! {

/// The byte that opens a header line.
pub const HEADER_MARKER: u8 = 0x40;

/// The byte that opens a separator line.
pub const SEPARATOR_MARKER: u8 = 0x2b;

/// The line is not empty and its first byte is `m`.
pub open spec fn starts_with_byte(line: Seq<u8>, m: u8) -> bool {
    line.len() > 0 && line[0] == m
}

/// The signatures of the header lines among the first `n` lines.
pub open spec fn header_digests(lines: Seq<Seq<u8>>, n: int) -> Set<u128>
    decreases n,
{
    if n <= 0 {
        Set::empty()
    } else if (n - 1) % 4 == 0 {
        header_digests(lines, n - 1).insert(xxh3_128_of(lines[n - 1]))
    } else {
        header_digests(lines, n - 1)
    }
}

/// The rule that line `i` (0-based) breaks, judged by its position in the
/// record cycle and the lines before it.
pub open spec fn line_fault(lines: Seq<Seq<u8>>, i: int) -> Option<ErrorKind> {
    let line = lines[i];
    if i % 4 == 0 {
        if !starts_with_byte(line, HEADER_MARKER) {
            Some(ErrorKind::Format(FormatRule::HeaderMarker))
        } else if header_digests(lines, i).contains(xxh3_128_of(line)) {
            Some(ErrorKind::Duplicate)
        } else {
            None
        }
    } else if i % 4 == 1 {
        if all_bases(line) {
            None
        } else {
            Some(ErrorKind::Format(FormatRule::InvalidBase))
        }
    } else if i % 4 == 2 {
        if starts_with_byte(line, SEPARATOR_MARKER) {
            None
        } else {
            Some(ErrorKind::Format(FormatRule::SeparatorMarker))
        }
    } else {
        if line.len() == lines[i - 2].len() {
            None
        } else {
            Some(ErrorKind::Format(FormatRule::QualityLength))
        }
    }
}

/// The first fault among the first `n` lines, with its 1-based line number.
pub open spec fn first_fault(lines: Seq<Seq<u8>>, n: int) -> Option<(ErrorKind, int)>
    decreases n,
{
    if n <= 0 {
        None
    } else {
        match first_fault(lines, n - 1) {
            Some(f) => Some(f),
            None => match line_fault(lines, n - 1) {
                Some(k) => Some((k, n)),
                None => None,
            },
        }
    }
}

/// The verdict on a whole file: `None` when it is valid, else the failure's
/// kind and its line number (the line count for a truncated file, zero for an
/// empty one). Line faults come first, in order; then emptiness; then
/// truncation.
pub open spec fn verdict(lines: Seq<Seq<u8>>) -> Option<(ErrorKind, int)> {
    match first_fault(lines, lines.len() as int) {
        Some(f) => Some(f),
        None => if lines.len() == 0 {
            Some((ErrorKind::Empty, 0))
        } else if lines.len() % 4 != 0 {
            Some((ErrorKind::Truncated, lines.len() as int))
        } else {
            None
        },
    }
}

} // verus!

verus! {

/// A line feed, which ends a line.
pub const NEWLINE: u8 = 0x0a;

/// The bytes stripped from the end of a line: line feed and carriage return.
pub open spec fn is_terminator(b: u8) -> bool {
    b == NEWLINE || b == 0x0du8
}

/// The line with every trailing line feed and carriage return removed.
pub open spec fn strip_terminators(s: Seq<u8>) -> Seq<u8>
    decreases s.len(),
{
    if s.len() > 0 && is_terminator(s.last()) {
        strip_terminators(s.drop_last())
    } else {
        s
    }
}

/// The lines of `data` from byte `i` on, where the current line began at byte
/// `start`: each ends just after a line feed, or at the end of the data when
/// bytes remain there; terminators are then stripped.
pub open spec fn lines_from(data: Seq<u8>, i: int, start: int) -> Seq<Seq<u8>>
    decreases data.len() - i,
{
    if i >= data.len() {
        if start < data.len() {
            seq![strip_terminators(data.subrange(start, data.len() as int))]
        } else {
            Seq::empty()
        }
    } else if data[i] == NEWLINE {
        seq![strip_terminators(data.subrange(start, i + 1))] + lines_from(data, i + 1, i + 1)
    } else {
        lines_from(data, i + 1, start)
    }
}

/// The lines of a file's content, as a line reader yields them.
pub open spec fn lines_of(data: Seq<u8>) -> Seq<Seq<u8>> {
    lines_from(data, 0, 0)
}

/// `e` reports the failure `f` of the file named `name` whose lines are `lines`.
pub open spec fn describes(
    e: crate::error::ValidationError,
    name: Seq<char>,
    lines: Seq<Seq<u8>>,
    f: (ErrorKind, int),
) -> bool {
    &&& e.kind == f.0
    &&& e.file_name@ == name
    &&& e.line == (if f.0 == ErrorKind::Empty {
        None
    } else {
        Some(f.1 as u64)
    })
    &&& e.content@ == (if f.0.shows_content() {
        lines[f.1 - 1]
    } else {
        Seq::empty()
    })
}

/// Extending the lines leaves what is said of the first `n` unchanged.
pub proof fn lemma_prefix_stable(lines: Seq<Seq<u8>>, ext: Seq<Seq<u8>>, n: int)
    requires
        0 <= n <= lines.len() <= ext.len(),
        forall|i: int| 0 <= i < lines.len() ==> ext[i] == lines[i],
    ensures
        header_digests(ext, n) == header_digests(lines, n),
        first_fault(ext, n) == first_fault(lines, n),
    decreases n,
{
    if n > 0 {
        lemma_prefix_stable(lines, ext, n - 1);
        assert(line_fault(ext, n - 1) == line_fault(lines, n - 1));
    }
}

/// The seen signatures only grow as lines are added.
pub proof fn lemma_header_digests_grow(lines: Seq<Seq<u8>>, n: int, m: int)
    requires
        0 <= n <= m,
    ensures
        header_digests(lines, n).subset_of(header_digests(lines, m)),
    decreases m - n,
{
    if m > n {
        lemma_header_digests_grow(lines, n, m - 1);
    }
}

/// Once a fault is found among the first `n` lines, it stays the first fault.
pub proof fn lemma_first_fault_kept(lines: Seq<Seq<u8>>, n: int, m: int)
    requires
        0 <= n <= m,
        first_fault(lines, n) is Some,
    ensures
        first_fault(lines, m) == first_fault(lines, n),
    decreases m - n,
{
    if m > n {
        lemma_first_fault_kept(lines, n, m - 1);
    }
}

} // verus!
