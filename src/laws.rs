//! What holds of every file: valid files pass, and each kind of violation is
//! reported where it first occurs.
use vstd::prelude::*;

use crate::alphabet::all_bases;
use crate::content::validation_outcome;
use crate::digest::xxh3_128_of;
use crate::error::{ErrorKind, FormatRule, ValidationError};
use crate::model::{
    first_fault, header_digests, lemma_first_fault_kept, lemma_header_digests_grow, line_fault,
    lines_of, starts_with_byte, verdict, HEADER_MARKER, SEPARATOR_MARKER,
};

verus! {

/// The lines form whole, well-formed records: at least one; headers open with
/// `@`; sequences hold bases only; separators open with `+`; each quality line
/// is as long as its sequence line; no header occurs twice.
pub open spec fn is_valid_fastq(lines: Seq<Seq<u8>>) -> bool {
    &&& lines.len() > 0
    &&& lines.len() % 4 == 0
    &&& forall|i: int|
        0 <= i < lines.len() && i % 4 == 0 ==> starts_with_byte(#[trigger] lines[i], HEADER_MARKER)
    &&& forall|i: int| 0 <= i < lines.len() && i % 4 == 1 ==> all_bases(#[trigger] lines[i])
    &&& forall|i: int|
        0 <= i < lines.len() && i % 4 == 2 ==> starts_with_byte(
            #[trigger] lines[i],
            SEPARATOR_MARKER,
        )
    &&& forall|i: int|
        0 <= i < lines.len() && i % 4 == 3 ==> (#[trigger] lines[i]).len() == lines[i - 2].len()
    &&& forall|i: int, j: int|
        0 <= i < j < lines.len() && i % 4 == 0 && j % 4 == 0 ==> #[trigger] lines[i]
            != #[trigger] lines[j]
}

/// Distinct headers have distinct signatures.
pub open spec fn header_digests_distinct(lines: Seq<Seq<u8>>) -> bool {
    forall|i: int, j: int|
        0 <= i < j < lines.len() && i % 4 == 0 && j % 4 == 0 && lines[i] != lines[j]
            ==> xxh3_128_of(#[trigger] lines[i]) != xxh3_128_of(#[trigger] lines[j])
}

proof fn lemma_header_digests_members(lines: Seq<Seq<u8>>, n: int, x: u128)
    requires
        header_digests(lines, n).contains(x),
    ensures
        exists|j: int| 0 <= j < n && j % 4 == 0 && xxh3_128_of(#[trigger] lines[j]) == x,
    decreases n,
{
    if n > 0 {
        if (n - 1) % 4 == 0 && xxh3_128_of(lines[n - 1]) == x {
        } else {
            lemma_header_digests_members(lines, n - 1, x);
            let j = choose|j: int| 0 <= j < n - 1 && j % 4 == 0 && xxh3_128_of(#[trigger] lines[j]) == x;
            assert(0 <= j < n && j % 4 == 0 && xxh3_128_of(lines[j]) == x);
        }
    }
}

proof fn lemma_no_fault(lines: Seq<Seq<u8>>, n: int)
    requires
        forall|i: int| 0 <= i < n ==> #[trigger] line_fault(lines, i) is None,
    ensures
        first_fault(lines, n) is None,
    decreases n,
{
    if n > 0 {
        lemma_no_fault(lines, n - 1);
    }
}

proof fn lemma_clean_prefix(lines: Seq<Seq<u8>>, n: int, i: int)
    requires
        0 <= i < n,
        first_fault(lines, n) is None,
    ensures
        line_fault(lines, i) is None,
    decreases n,
{
    if i < n - 1 {
        lemma_clean_prefix(lines, n - 1, i);
    }
}

proof fn lemma_fault_at(lines: Seq<Seq<u8>>, i: int, k: ErrorKind)
    requires
        0 <= i < lines.len(),
        first_fault(lines, i) is None,
        line_fault(lines, i) == Some(k),
    ensures
        verdict(lines) == Some((k, i + 1)),
{
    lemma_first_fault_kept(lines, i + 1, lines.len() as int);
}

/// A valid file passes, provided its distinct headers have distinct
/// signatures (two distinct headers of equal digest are taken for duplicates).
pub proof fn lemma_valid_file_passes(data: Seq<u8>)
    requires
        is_valid_fastq(lines_of(data)),
        header_digests_distinct(lines_of(data)),
    ensures
        verdict(lines_of(data)) is None,
{
    let lines = lines_of(data);
    assert forall|i: int| 0 <= i < lines.len() implies #[trigger] line_fault(lines, i) is None by {
        if i % 4 == 0 {
            if header_digests(lines, i).contains(xxh3_128_of(lines[i])) {
                lemma_header_digests_members(lines, i, xxh3_128_of(lines[i]));
                let j = choose|j: int|
                    0 <= j < i && j % 4 == 0 && xxh3_128_of(#[trigger] lines[j]) == xxh3_128_of(
                        lines[i],
                    );
                assert(lines[j] != lines[i]);
            }
        }
    }
    lemma_no_fault(lines, lines.len() as int);
}

/// A file whose lines all obey their rules but whose line count is not a
/// multiple of four is reported truncated, with its line count.
pub proof fn lemma_truncated_file(data: Seq<u8>)
    requires
        lines_of(data).len() % 4 != 0,
        first_fault(lines_of(data), lines_of(data).len() as int) is None,
    ensures
        verdict(lines_of(data)) == Some((ErrorKind::Truncated, lines_of(data).len() as int)),
{
}

/// A file without lines is reported empty.
pub proof fn lemma_empty_file(data: Seq<u8>)
    requires
        lines_of(data).len() == 0,
    ensures
        verdict(lines_of(data)) == Some((ErrorKind::Empty, 0int)),
{
}

/// When header line `j` repeats header line `i` byte for byte and no line
/// before `j` breaks a rule, the duplicate is reported at line `j`.
pub proof fn lemma_duplicate_header(data: Seq<u8>, i: int, j: int)
    requires
        0 <= i < j < lines_of(data).len(),
        i % 4 == 0,
        j % 4 == 0,
        lines_of(data)[i] == lines_of(data)[j],
        first_fault(lines_of(data), j) is None,
    ensures
        verdict(lines_of(data)) == Some((ErrorKind::Duplicate, j + 1)),
{
    let lines = lines_of(data);
    lemma_clean_prefix(lines, j, i);
    lemma_header_digests_grow(lines, i + 1, j);
    assert(header_digests(lines, j).contains(xxh3_128_of(lines[j])));
    lemma_fault_at(lines, j, ErrorKind::Duplicate);
}

/// A sequence line holding a byte outside the alphabet, with no line before it
/// breaking a rule, is reported as a format failure at that line.
pub proof fn lemma_invalid_base(data: Seq<u8>, i: int)
    requires
        0 <= i < lines_of(data).len(),
        i % 4 == 1,
        !all_bases(lines_of(data)[i]),
        first_fault(lines_of(data), i) is None,
    ensures
        verdict(lines_of(data)) == Some((ErrorKind::Format(FormatRule::InvalidBase), i + 1)),
{
    lemma_fault_at(lines_of(data), i, ErrorKind::Format(FormatRule::InvalidBase));
}

/// A quality line whose length differs from its sequence line's, with no line
/// before it breaking a rule, is reported as a format failure at that line.
pub proof fn lemma_quality_length(data: Seq<u8>, i: int)
    requires
        0 <= i < lines_of(data).len(),
        i % 4 == 3,
        lines_of(data)[i].len() != lines_of(data)[i - 2].len(),
        first_fault(lines_of(data), i) is None,
    ensures
        verdict(lines_of(data)) == Some((ErrorKind::Format(FormatRule::QualityLength), i + 1)),
{
    lemma_fault_at(lines_of(data), i, ErrorKind::Format(FormatRule::QualityLength));
}

/// Two validations of one file agree: both pass, or both fail with equal
/// kind, file name, line and offending bytes.
pub proof fn lemma_validation_repeatable(
    name: Seq<char>,
    data: Seq<u8>,
    r1: Result<(), ValidationError>,
    r2: Result<(), ValidationError>,
)
    requires
        validation_outcome(r1, name, data),
        validation_outcome(r2, name, data),
    ensures
        r1 is Ok <==> r2 is Ok,
        r1 is Err ==> {
            let e1 = r1->Err_0;
            let e2 = r2->Err_0;
            &&& e1.kind == e2.kind
            &&& e1.file_name@ == e2.file_name@
            &&& e1.line == e2.line
            &&& e1.content@ == e2.content@
        },
{
}

} // verus!
