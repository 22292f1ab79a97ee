//! The record cycle: lines are fed one at a time, each checked by its position
//! in the four-line record, and the first violation ends the pass.
use vstd::prelude::*;

use std::collections::HashSet;

use crate::alphabet::{create_alphabet, is_alphabet_table, line_is_bases};
use crate::digest::{header_digest, xxh3_128_of};
use crate::error::{ErrorKind, FormatRule, ValidationError};
use crate::model::{
    describes, first_fault, line_fault, header_digests, lemma_header_digests_grow, lemma_prefix_stable, strip_terminators, verdict,
    HEADER_MARKER, NEWLINE, SEPARATOR_MARKER,
};

verus! {

broadcast use vstd::std_specs::hash::group_hash_axioms;

/// Removes every trailing line feed and carriage return from the buffer.
pub fn strip_line_end(buf: &mut Vec<u8>)
    ensures
        final(buf)@ == strip_terminators(old(buf)@),
{
    while buf.len() > 0 && (buf[buf.len() - 1] == NEWLINE || buf[buf.len() - 1] == 0x0du8)
        invariant
            strip_terminators(buf@) == strip_terminators(old(buf)@),
        decreases buf@.len(),
    {
        buf.pop();
    }
}

/// The state of one validation pass.
pub struct Validator {
    file_name: String,
    alphabet: [bool; 256],
    read_ids: HashSet<u128>,
    len_read_seq: usize,
    line_num: u64,
    lines: Ghost<Seq<Seq<u8>>>,
}

impl Validator {
    /// The lines accepted so far, terminators stripped.
    pub closed spec fn lines(&self) -> Seq<Seq<u8>> {
        self.lines@
    }

    /// The file name that failures carry.
    pub closed spec fn name(&self) -> Seq<char> {
        self.file_name@
    }

    /// The pass is consistent: every line so far obeys its rule, the seen
    /// signatures are those of the headers so far, and the length of the
    /// current record's sequence line is kept.
    pub closed spec fn wf(&self) -> bool {
        let n = self.lines@.len() as int;
        &&& is_alphabet_table(self.alphabet)
        &&& self.line_num as int == n
        &&& first_fault(self.lines@, n) is None
        &&& self.read_ids@ == header_digests(self.lines@, n)
        &&& n % 4 == 2 ==> self.len_read_seq as int == self.lines@[n - 1].len()
        &&& n % 4 == 3 ==> self.len_read_seq as int == self.lines@[n - 2].len()
    }

    /// Starts a pass over the file named `file_name`.
    pub fn new(file_name: String) -> (v: Self)
        ensures
            v.wf(),
            v.lines() == Seq::<Seq<u8>>::empty(),
            v.name() == file_name@,
    {
        Validator {
            file_name,
            alphabet: create_alphabet(),
            read_ids: HashSet::new(),
            len_read_seq: 0,
            line_num: 0,
            lines: Ghost(Seq::empty()),
        }
    }

    /// The number of lines accepted so far.
    pub fn line_count(&self) -> (r: u64)
        requires
            self.wf(),
        ensures
            r as int == self.lines().len(),
    {
        self.line_num
    }

    fn failure(&self, kind: ErrorKind, line: &[u8]) -> (e: ValidationError)
        ensures
            e.kind == kind,
            e.file_name@ == self.file_name@,
            e.line == Some(self.line_num),
            e.content@ == (if kind.shows_content() {
                line@
            } else {
                Seq::empty()
            }),
    {
        let mut content: Vec<u8> = Vec::new();
        if kind.carries_line() {
            let mut i: usize = 0;
            while i < line.len()
                invariant
                    0 <= i <= line@.len(),
                    content@ == line@.subrange(0, i as int),
                decreases line@.len() - i,
            {
                content.push(line[i]);
                i += 1;
            }
        }
        ValidationError { kind, file_name: self.file_name.clone(), line: Some(self.line_num), content }
    }

    /// Checks one line, terminators already stripped, against the rule of its
    /// position in the record.
    fn accept_line(&mut self, line: &[u8]) -> (r: Result<(), ValidationError>)
        requires
            old(self).wf(),
            old(self).lines().len() < u64::MAX,
        ensures
            final(self).name() == old(self).name(),
            ({
                let lines = old(self).lines().push(line@);
                match r {
                    Ok(()) => final(self).wf() && final(self).lines() == lines,
                    Err(e) => first_fault(lines, lines.len() as int) == Some(
                        (e.kind, lines.len() as int),
                    ) && describes(e, old(self).name(), lines, (e.kind, lines.len() as int)),
                }
            }),
    {
        let ghost old_lines = self.lines@;
        let ghost lines = old_lines.push(line@);
        let ghost n = old_lines.len() as int;
        proof {
            lemma_prefix_stable(old_lines, lines, n);
        }
        self.line_num = self.line_num + 1;
        self.lines = Ghost(lines);
        let pos = self.line_num % 4;
        assert(lines[n] == line@);
        assert(pos as int == (n + 1) % 4);
        if pos == 1 {
            if !(line.len() > 0 && line[0] == HEADER_MARKER) {
                return Err(self.failure(ErrorKind::Format(FormatRule::HeaderMarker), line));
            }
            let h = header_digest(line);
            if !self.read_ids.insert(h) {
                return Err(self.failure(ErrorKind::Duplicate, line));
            }
        } else if pos == 2 {
            if !line_is_bases(&self.alphabet, line) {
                return Err(self.failure(ErrorKind::Format(FormatRule::InvalidBase), line));
            }
            self.len_read_seq = line.len();
        } else if pos == 3 {
            if !(line.len() > 0 && line[0] == SEPARATOR_MARKER) {
                return Err(self.failure(ErrorKind::Format(FormatRule::SeparatorMarker), line));
            }
        } else {
            if line.len() != self.len_read_seq {
                return Err(self.failure(ErrorKind::Format(FormatRule::QualityLength), line));
            }
        }
        assert(line_fault(lines, n) is None);
        Ok(())
    }

    /// Feeds the next line as read, terminator included. The terminators are
    /// stripped, the line is checked against the rule of its position in the
    /// record, and the buffer is left empty for the next read.
    pub fn push_line(&mut self, buf: &mut Vec<u8>) -> (r: Result<(), ValidationError>)
        requires
            old(self).wf(),
            old(self).lines().len() < u64::MAX,
        ensures
            final(buf)@.len() == 0,
            final(self).name() == old(self).name(),
            ({
                let lines = old(self).lines().push(strip_terminators(old(buf)@));
                match r {
                    Ok(()) => final(self).wf() && final(self).lines() == lines,
                    Err(e) => first_fault(lines, lines.len() as int) == Some(
                        (e.kind, lines.len() as int),
                    ) && describes(e, old(self).name(), lines, (e.kind, lines.len() as int)),
                }
            }),
    {
        strip_line_end(buf);
        let r = self.accept_line(buf.as_slice());
        buf.clear();
        r
    }

    /// Ends the pass: the file must hold a record, and whole records only.
    pub fn finish(&self) -> (r: Result<(), ValidationError>)
        requires
            self.wf(),
        ensures
            match r {
                Ok(()) => verdict(self.lines()) is None,
                Err(e) => verdict(self.lines()) is Some && describes(
                    e,
                    self.name(),
                    self.lines(),
                    verdict(self.lines())->0,
                ),
            },
    {
        if self.read_ids.is_empty() {
            proof {
                if self.line_num > 0 {
                    lemma_header_digests_grow(self.lines@, 1, self.line_num as int);
                    assert(header_digests(self.lines@, 1).contains(xxh3_128_of(self.lines@[0])));
                }
            }
            return Err(ValidationError {
                kind: ErrorKind::Empty,
                file_name: self.file_name.clone(),
                line: None,
                content: Vec::new(),
            });
        } else if self.line_num % 4 != 0 {
            return Err(ValidationError {
                kind: ErrorKind::Truncated,
                file_name: self.file_name.clone(),
                line: Some(self.line_num),
                content: Vec::new(),
            });
        }
        Ok(())
    }
}

} // verus!
