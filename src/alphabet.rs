//! The bases a sequence line may hold.
use vstd::prelude::*;

verus! {

/// A byte is a base when it is one of `A T G C N`, in either case.
pub open spec fn is_base_byte(b: u8) -> bool {
    b == 0x41u8 || b == 0x54u8 || b == 0x47u8 || b == 0x43u8 || b == 0x4eu8 || b == 0x61u8
        || b == 0x74u8 || b == 0x67u8 || b == 0x63u8 || b == 0x6eu8
}

/// Every byte of the line is a base.
pub open spec fn all_bases(line: Seq<u8>) -> bool {
    forall|i: int| 0 <= i < line.len() ==> is_base_byte(#[trigger] line[i])
}

/// The bytes that a sequence line may hold, upper case then lower case.
pub const ALPHABET: [u8; 10] = [0x41, 0x54, 0x47, 0x43, 0x4e, 0x61, 0x74, 0x67, 0x63, 0x6e];

/// The membership table of the alphabet, indexed by byte value.
pub open spec fn is_alphabet_table(t: [bool; 256]) -> bool {
    forall|i: int| 0 <= i < 256 ==> #[trigger] t[i] == is_base_byte(i as u8)
}

/// Builds the 256-entry table that answers in one lookup whether a byte is a base.
pub fn create_alphabet() -> (t: [bool; 256])
    ensures
        is_alphabet_table(t),
{
    let mut t: [bool; 256] = [false; 256];
    let letters: [u8; 10] = ALPHABET;
    let mut i: usize = 0;
    while i < 10
        invariant
            0 <= i <= 10,
            letters@ == ALPHABET@,
            forall|j: int|
                0 <= j < 256 ==> #[trigger] t[j] == (exists|k: int|
                    0 <= k < i && letters[k] as int == j),
        decreases 10 - i,
    {
        let b = letters[i];
        t[b as usize] = true;
        i += 1;
    }
    assert forall|j: int| 0 <= j < 256 implies #[trigger] t[j] == is_base_byte(j as u8) by {
        if is_base_byte(j as u8) {
            assert(exists|k: int| 0 <= k < 10 && letters[k] as int == j) by {
                if j == 0x41 { assert(letters[0] as int == j); }
                else if j == 0x54 { assert(letters[1] as int == j); }
                else if j == 0x47 { assert(letters[2] as int == j); }
                else if j == 0x43 { assert(letters[3] as int == j); }
                else if j == 0x4e { assert(letters[4] as int == j); }
                else if j == 0x61 { assert(letters[5] as int == j); }
                else if j == 0x74 { assert(letters[6] as int == j); }
                else if j == 0x67 { assert(letters[7] as int == j); }
                else if j == 0x63 { assert(letters[8] as int == j); }
                else { assert(letters[9] as int == j); }
            }
        }
    }
    t
}

/// Whether the byte is a base, answered from a table built by `create_alphabet`.
pub fn is_base(table: &[bool; 256], b: u8) -> (r: bool)
    requires
        is_alphabet_table(*table),
    ensures
        r == is_base_byte(b),
{
    table[b as usize]
}

/// Whether every byte of the line is a base.
pub fn line_is_bases(table: &[bool; 256], line: &[u8]) -> (r: bool)
    requires
        is_alphabet_table(*table),
    ensures
        r == all_bases(line@),
{
    let mut i: usize = 0;
    while i < line.len()
        invariant
            0 <= i <= line@.len(),
            is_alphabet_table(*table),
            forall|j: int| 0 <= j < i ==> is_base_byte(#[trigger] line@[j]),
        decreases line@.len() - i,
    {
        if !is_base(table, line[i]) {
            return false;
        }
        i += 1;
    }
    true
}

} // verus!
