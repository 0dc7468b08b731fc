//! Reading of the progress messages that a run sends: `Progress|<line>|<rows>`.

use vstd::prelude::*;
use crate::numtext::{parse_i32, parse_i32_seq};
use crate::text::{chars_of, same_chars, split_chars, split_seq};

verus! {

/// What a progress message says.
#[derive(PartialEq, Eq, Structural, Clone, Copy, Debug)]
pub enum ProgressReading {
    /// Line `0` of `1` rows has been read.
    Ratio(i32, i32),
    /// The message has the shape of a progress message but a count is not a number (or is
    /// the number -9999).
    NotNumeric,
    /// The message is not a progress message.
    NotProgress,
}

/// The reading of a message: three pieces separated by `|`, the first `Progress`, the other
/// two numbers of type `i32`.
pub open spec fn progress_reading_spec(msg: Seq<char>) -> ProgressReading {
    let parts = split_seq(msg, '|');
    if parts.len() == 3 && parts[0] == "Progress"@ {
        match parse_i32_seq(parts[1]) {
            Some(a) => if a == -9999 {
                ProgressReading::NotNumeric
            } else {
                match parse_i32_seq(parts[2]) {
                    Some(b) => if b == -9999 {
                        ProgressReading::NotNumeric
                    } else {
                        ProgressReading::Ratio(a as i32, b as i32)
                    },
                    None => ProgressReading::NotNumeric,
                }
            },
            None => ProgressReading::NotNumeric,
        }
    } else {
        ProgressReading::NotProgress
    }
}

/// Reads a progress message.
pub fn read_progress(msg: &str) -> (r: ProgressReading)
    ensures
        r == progress_reading_spec(msg@),
{
    let m = chars_of(msg);
    let parts = split_chars(&m, '|');
    if parts.len() != 3 {
        return ProgressReading::NotProgress;
    }
    assert(crate::text::views(parts@)[0] == parts@[0]@);
    assert(crate::text::views(parts@)[1] == parts@[1]@);
    assert(crate::text::views(parts@)[2] == parts@[2]@);
    let head = chars_of("Progress");
    if !same_chars(&parts[0], &head) {
        return ProgressReading::NotProgress;
    }
    match parse_i32(&parts[1]) {
        Some(a) => if a == -9999 {
            ProgressReading::NotNumeric
        } else {
            match parse_i32(&parts[2]) {
                Some(b) => if b == -9999 {
                    ProgressReading::NotNumeric
                } else {
                    ProgressReading::Ratio(a, b)
                },
                None => ProgressReading::NotNumeric,
            }
        },
        None => ProgressReading::NotNumeric,
    }
}

} // verus!
