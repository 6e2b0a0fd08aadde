//! The one byte-level helper of the CSV fixture reader: deciding whether a
//! line holds nothing but separators and spaces.  Reading files and parsing
//! decimal numbers stay with the caller.

use vstd::prelude::*;

verus! {

/// A line is empty when every byte is a comma, a line feed or a space.
pub open spec fn line_empty(s: Seq<u8>) -> bool {
    forall|i: int| 0 <= i < s.len() ==> (#[trigger] s[i] == 44 || s[i] == 10 || s[i] == 32)
}

pub fn is_line_empty(line: &[u8]) -> (r: bool)
    ensures
        r == line_empty(line@),
{
    let mut output: bool = true;
    let mut i: usize = 0;
    while i < line.len()
        invariant
            i <= line.len(),
            output == line_empty(line@.take(i as int)),
        decreases line.len() - i,
    {
        proof {
            assert(line@.take(i + 1).drop_last() =~= line@.take(i as int));
        }
        let byte: u8 = line[i];
        if byte != 44 && byte != 10 && byte != 32 {
            output = false;
        }
        proof {
            if output {
                assert forall|j: int| 0 <= j < i + 1 implies (#[trigger] line@.take(i + 1)[j] == 44
                    || line@.take(i + 1)[j] == 10 || line@.take(i + 1)[j] == 32) by {
                    if j < i {
                        assert(line@.take(i as int)[j] == line@.take(i + 1)[j]);
                    }
                }
            } else {
                if line_empty(line@.take(i + 1)) {
                    assert(line@.take(i + 1)[i as int] == 44 || line@.take(i + 1)[i as int] == 10
                        || line@.take(i + 1)[i as int] == 32);
                }
            }
        }
        i = i + 1;
    }
    proof {
        assert(line@.take(line.len() as int) =~= line@);
    }
    output
}

} // verus!
