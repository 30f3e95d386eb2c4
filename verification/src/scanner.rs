//! Which directory entries are candidates for upload.

use vstd::prelude::*;
use vstd::string::StrSliceExecFns;

verus! {

/// The literal suffix `.dcm`, as characters.
pub open spec fn dicom_suffix() -> Seq<char> {
    seq!['.', 'd', 'c', 'm']
}

/// A name is a DICOM name when its last four characters are exactly `.dcm`.
/// The comparison is case-sensitive; nothing else about the name matters.
pub open spec fn is_dicom(name: Seq<char>) -> bool {
    dicom_suffix().is_suffix_of(name)
}

/// Decides whether the final component of a path names a candidate.
pub fn is_dicom_name(name: &str) -> (b: bool)
    ensures
        b == is_dicom(name@),
{
    let n: usize = name.unicode_len();
    if n < 4 {
        return false;
    }
    let b: bool = name.get_char(n - 4) == '.' && name.get_char(n - 3) == 'd' && name.get_char(
        n - 2,
    ) == 'c' && name.get_char(n - 1) == 'm';
    proof {
        let tail = name@.subrange(n - 4, n as int);
        assert(tail.len() == 4);
        assert(tail[0] == name@[n - 4] && tail[1] == name@[n - 3] && tail[2] == name@[n - 2]
            && tail[3] == name@[n - 1]);
        if b {
            assert(tail =~= dicom_suffix());
        } else {
            assert(tail != dicom_suffix());
        }
    }
    b
}

} // verus!
