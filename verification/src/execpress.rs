//! The checks made before a run is started: the exclusion file and the window-directory
//! listing must exist, and the listing must have at least 11 rows.

use vstd::prelude::*;
use crate::paths::{exists_answer, path_exists};

verus! {

/// Error code and message that the checks give, from whether the exclusion file exists,
/// whether the listing exists and the listing's row count. The listing is only looked at once
/// the exclusion file is known to exist.
pub open spec fn execpress_spec(exclude_exists: bool, windir_exists: bool, rows_num: u64) -> (
    u32,
    Seq<char>,
) {
    if !exclude_exists {
        (1, "the exclude file does not exist"@)
    } else if !windir_exists {
        (3, "the window dir file does not exist"@)
    } else if rows_num < 11 {
        (2, "The number of rows is less than 11"@)
    } else {
        (0, "all good and now process execution"@)
    }
}

/// The decision of `execpress` once the two existence checks have been made.
pub fn execpress_decide(exclude_exists: bool, windir_exists: bool, rows_num: u64) -> (r: (
    u32,
    String,
))
    ensures
        (r.0, r.1@) == execpress_spec(exclude_exists, windir_exists, rows_num),
{
    if !exclude_exists {
        (1, String::from_str("the exclude file does not exist"))
    } else if !windir_exists {
        (3, String::from_str("the window dir file does not exist"))
    } else if rows_num < 11 {
        (2, String::from_str("The number of rows is less than 11"))
    } else {
        (0, String::from_str("all good and now process execution"))
    }
}

/// Checks that a run can start: the exclusion file `exclude_value` must exist, then the
/// listing `windir_value` must exist and have at least 11 rows. Returns the error code
/// (0 when all is well) and a message. Existence depends on the disk at the time of the call,
/// so the result is `execpress_spec` of the answer given for `exclude_value` and, only where
/// that one is yes, of the answer given for `windir_value`.
pub fn execpress(windir_value: String, rows_num: u64, exclude_value: String) -> (r: (u32, String))
    ensures
        exists|e: bool, w: bool|
            #![trigger exists_answer(exclude_value@, e), execpress_spec(e, w, rows_num)]
            {
                &&& exists_answer(exclude_value@, e)
                &&& (e ==> exists_answer(windir_value@, w))
                &&& (r.0, r.1@) == execpress_spec(e, w, rows_num)
            },
{
    let exclude_exists = path_exists(exclude_value.as_str());
    let windir_exists = if exclude_exists {
        path_exists(windir_value.as_str())
    } else {
        false
    };
    execpress_decide(exclude_exists, windir_exists, rows_num)
}

} // verus!
