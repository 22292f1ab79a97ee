//! Validation of a file's whole content held in memory.
use vstd::prelude::*;

use crate::error::ValidationError;
use crate::model::{
    describes, first_fault, lemma_first_fault_kept, lemma_prefix_stable, lines_from, lines_of,
    verdict, NEWLINE,
};
use crate::validator::Validator;

verus! {

/// A failure found among `lines`, a prefix of `full`, is the verdict on `full`.
proof fn lemma_fault_in_prefix(
    e: ValidationError,
    name: Seq<char>,
    lines: Seq<Seq<u8>>,
    rest: Seq<Seq<u8>>,
    full: Seq<Seq<u8>>,
)
    requires
        lines.len() > 0,
        full == lines + rest,
        first_fault(lines, lines.len() as int) == Some((e.kind, lines.len() as int)),
        describes(e, name, lines, (e.kind, lines.len() as int)),
    ensures
        verdict(full) == Some((e.kind, lines.len() as int)),
        describes(e, name, full, (e.kind, lines.len() as int)),
{
    lemma_prefix_stable(lines, full, lines.len() as int);
    lemma_first_fault_kept(full, lines.len() as int, full.len() as int);
    assert(full[lines.len() - 1] == lines[lines.len() - 1]);
}

/// `r` is the outcome that validation owes for the file named `name` whose
/// content is `data`: success exactly when the verdict is valid, else the
/// failure that the verdict names.
pub open spec fn validation_outcome(
    r: Result<(), ValidationError>,
    name: Seq<char>,
    data: Seq<u8>,
) -> bool {
    match r {
        Ok(()) => verdict(lines_of(data)) is None,
        Err(e) => verdict(lines_of(data)) is Some && describes(
            e,
            name,
            lines_of(data),
            verdict(lines_of(data))->0,
        ),
    }
}

/// Validates the content of the file named `file_name`: its lines are read as
/// a line reader yields them and run through the record cycle; the first
/// violation is returned.
pub fn validate_bytes(file_name: String, data: &[u8]) -> (r: Result<(), ValidationError>)
    ensures
        validation_outcome(r, file_name@, data@),
{
    let ghost name = file_name@;
    let ghost full = lines_of(data@);
    let mut v = Validator::new(file_name);
    let mut buffer: Vec<u8> = Vec::new();
    let mut i: usize = 0;
    let ghost mut start: int = 0;
    assert(v.lines() + lines_from(data@, 0, 0) =~= full);
    while i < data.len()
        invariant
            v.wf(),
            v.name() == name,
            name == file_name@,
            full == lines_of(data@),
            0 <= start <= i <= data@.len(),
            buffer@ == data@.subrange(start, i as int),
            v.lines() + lines_from(data@, i as int, start) == full,
            v.lines().len() <= start,
        decreases data@.len() - i,
    {
        buffer.push(data[i]);
        assert(buffer@ =~= data@.subrange(start, i + 1));
        if data[i] == NEWLINE {
            let ghost before = v.lines();
            let ghost rest = lines_from(data@, i + 1, i + 1);
            let r = v.push_line(&mut buffer);
            let ghost lines = before.push(crate::model::strip_terminators(data@.subrange(start, i + 1)));
            assert(lines + rest =~= full) by {
                assert(before + lines_from(data@, i as int, start) == full);
            }
            match r {
                Err(e) => {
                    proof {
                        lemma_fault_in_prefix(e, name, lines, rest, full);
                    }
                    return Err(e);
                },
                Ok(()) => {},
            }
            proof {
                start = i + 1;
            }
            assert(buffer@ =~= data@.subrange(start, i + 1));
        }
        i += 1;
    }
    if buffer.len() > 0 {
        let ghost before = v.lines();
        let r = v.push_line(&mut buffer);
        let ghost lines = before.push(crate::model::strip_terminators(data@.subrange(start, i as int)));
        assert(lines =~= full) by {
            assert(before + lines_from(data@, i as int, start) == full);
        }
        match r {
            Err(e) => {
                proof {
                    lemma_fault_in_prefix(e, name, lines, Seq::empty(), full);
                }
                return Err(e);
            },
            Ok(()) => {},
        }
    } else {
        assert(v.lines() =~= full) by {
            assert(v.lines() + lines_from(data@, i as int, start) == full);
        }
    }
    v.finish()
}

} // verus!
