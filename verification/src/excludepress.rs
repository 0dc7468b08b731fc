//! The decisions made when the user picks an exclusion file: where the file dialog starts,
//! and the checks on the picked file (it must exist, `wc -l` must count at least two lines,
//! and its first line must read `exclude file`).

use vstd::prelude::*;
use crate::numtext::{int_seq, parse_i64, parse_i64_seq, push_int};
use crate::paths::{exists_answer, parent_of, path_exists, path_parent};
use crate::reads::{read_at, read_models, LineRead, ReadModel};
use crate::text::{chars_of, split_chars, split_seq, string_of, trim_chars, trim_seq, same_chars};

verus! {

/// Directory in which the file dialog starts: the directory of the current exclusion file
/// when that file exists, else the root `/`. `None` where the file exists but its path has no
/// parent directory.
pub open spec fn start_dir_spec(excludeval: Seq<char>, exists: bool) -> Option<Seq<char>> {
    if exists {
        parent_of(excludeval)
    } else {
        Some("/"@)
    }
}

/// Start directory of the file dialog, given whether the current exclusion file exists.
pub fn exclude_start_dir(excludeval: &str, exists: bool) -> (r: Option<String>)
    ensures
        r matches Some(d) ==> start_dir_spec(excludeval@, exists) == Some(d@),
        r is None ==> start_dir_spec(excludeval@, exists) is None,
{
    if exists {
        path_parent(excludeval)
    } else {
        Some(String::from_str("/"))
    }
}

/// Start directory of the file dialog; whether the current exclusion file exists is asked of
/// the disk, and the answer given for `excludeval` decides.
pub fn exclude_dialog_dir(excludeval: &str) -> (r: Option<String>)
    ensures
        exists|e: bool|
            #![trigger exists_answer(excludeval@, e)]
            {
                &&& exists_answer(excludeval@, e)
                &&& (r matches Some(d) ==> start_dir_spec(excludeval@, e) == Some(d@))
                &&& (r is None ==> start_dir_spec(excludeval@, e) is None)
            },
{
    let exists = path_exists(excludeval);
    exclude_start_dir(excludeval, exists)
}

/// The outcome of the file dialog: a cancelled dialog is error 1 and keeps the start
/// directory as the path; otherwise the picked path goes on to the next check.
pub fn exclude_picked(start_dir: String, picked: Option<String>) -> (r: Result<
    String,
    (u32, String, String),
>)
    ensures
        picked is None ==> (r matches Err(e) && e.0 == 1 && e.1@
            == "error getting exclude file -- possible cancel key hit"@ && e.2@ == start_dir@),
        picked matches Some(p) ==> (r matches Ok(q) && q@ == p@),
{
    match picked {
        None => Err(
            (1, String::from_str("error getting exclude file -- possible cancel key hit"), start_dir),
        ),
        Some(p) => Ok(p),
    }
}

/// The picked file must exist (error 2 names it).
pub fn exclude_present(path: String, exists: bool) -> (r: Result<String, (u32, String, String)>)
    ensures
        exists ==> (r matches Ok(q) && q@ == path@),
        !exists ==> (r matches Err(e) && e.0 == 2 && e.1@ == "The exclude file does not exist: "@
            + path@ && e.2@ == path@),
{
    if exists {
        Ok(path)
    } else {
        let mut msg = String::from_str("The exclude file does not exist: ");
        msg.append(path.as_str());
        Err((2, msg, path))
    }
}

/// The check of `exclude_present`, with the existence of the picked file asked of the disk:
/// the file passes where the answer given for `path` is yes.
pub fn exclude_check_present(path: String) -> (r: Result<String, (u32, String, String)>)
    ensures
        r matches Ok(q) ==> q@ == path@ && exists_answer(path@, true),
        r matches Err(e) ==> e.0 == 2 && e.1@ == "The exclude file does not exist: "@ + path@ && e.2@
            == path@ && exists_answer(path@, false),
{
    let exists = path_exists(path.as_str());
    exclude_present(path, exists)
}

/// The text before the first space of `wc -l`'s output: the line count as `wc` prints it.
pub open spec fn wc_count_text(stdout: Seq<char>) -> Seq<char> {
    split_seq(stdout, ' ')[0]
}

/// Error that the line count printed by `wc -l` gives: error 3 where it is not a number (or is
/// the number -9999), error 4 where it is 0 or 1; `None` where the file may go on.
pub open spec fn wc_spec(path: Seq<char>, stdout: Seq<char>) -> Option<(u32, Seq<char>)> {
    let piece = wc_count_text(stdout);
    let invalid = (
        3u32,
        "size of "@ + piece + " is invalid for wc -l command call for exclude file"@,
    );
    match parse_i64_seq(piece) {
        None => Some(invalid),
        Some(n) => if n == -9999 {
            Some(invalid)
        } else if 0 <= n && n < 2 {
            Some((4u32, "size of "@ + int_seq(n) + " is less than 2 for "@ + path))
        } else {
            None
        },
    }
}

/// Checks the line count that `wc -l` printed for the picked file.
pub fn exclude_wc(path: String, stdout: &str) -> (r: Result<String, (u32, String, String)>)
    ensures
        wc_spec(path@, stdout@) is None ==> (r matches Ok(q) && q@ == path@),
        wc_spec(path@, stdout@) matches Some(e) ==> (r matches Err(f) && (f.0, f.1@, f.2@)
            == (e.0, e.1, path@)),
{
    let out = chars_of(stdout);
    let pieces = split_chars(&out, ' ');
    proof {
        crate::text::lemma_split_nonempty(out@, ' ');
    }
    let piece = &pieces[0];
    assert(piece@ == wc_count_text(stdout@));
    let parsed = parse_i64(piece);
    let bad = match parsed {
        None => true,
        Some(n) => n == -9999,
    };
    if bad {
        let mut msg = chars_of("size of ");
        crate::text::extend_chars(&mut msg, piece);
        let tail = chars_of(" is invalid for wc -l command call for exclude file");
        crate::text::extend_chars(&mut msg, &tail);
        return Err((3, string_of(&msg), path));
    }
    let n = match parsed {
        Some(n) => n,
        None => 0,
    };
    if 0 <= n && n < 2 {
        let mut msg = chars_of("size of ");
        push_int(&mut msg, n);
        let mid = chars_of(" is less than 2 for ");
        crate::text::extend_chars(&mut msg, &mid);
        let p = chars_of(path.as_str());
        crate::text::extend_chars(&mut msg, &p);
        return Err((4, string_of(&msg), path));
    }
    Ok(path)
}

/// The outcome of reading the start of the picked file: the first two read attempts decide.
/// The end of the file before two lines were read is error 5, a read error is error 7, and a
/// first line that is not `exclude file` (white space aside) is error 6.
pub open spec fn header_spec(path: Seq<char>, first: ReadModel, second: ReadModel) -> (
    u32,
    Seq<char>,
) {
    let no_records = (5u32, "exclude file is has no records"@);
    match first {
        ReadModel::End => no_records,
        ReadModel::Failed(d, _) => (7u32, "error of "@ + d + " reading exclude file "@ + path),
        ReadModel::Line(l) => match second {
            ReadModel::End => no_records,
            ReadModel::Failed(d, _) => (7u32, "error of "@ + d + " reading exclude file "@ + path),
            ReadModel::Line(_) => if trim_seq(l) != "exclude file"@ {
                (6u32, "first line of exclude file is not valid: "@ + l)
            } else {
                (0u32, "got file"@)
            },
        },
    }
}

fn read_error_message(display: &String, path: &String) -> (m: String)
    ensures
        m@ == "error of "@ + display@ + " reading exclude file "@ + path@,
{
    let mut m = String::from_str("error of ");
    m.append(display.as_str());
    m.append(" reading exclude file ");
    m.append(path.as_str());
    m
}

/// Checks the start of the picked file from the reads made of it (at most the first two are
/// looked at; a missing read counts as the end of the file).
pub fn exclude_header(path: String, reads: &Vec<LineRead>) -> (r: (u32, String, String))
    ensures
        ({
            let h = header_spec(path@, read_at(read_models(reads@), 0), read_at(read_models(reads@), 1));
            (r.0, r.1@, r.2@) == (h.0, h.1, path@)
        }),
{
    let ghost models = read_models(reads@);
    let end = LineRead::End;
    let first = if reads.len() > 0 {
        &reads[0]
    } else {
        &end
    };
    let second = if reads.len() > 1 {
        &reads[1]
    } else {
        &end
    };
    assert(first@ == read_at(models, 0));
    assert(second@ == read_at(models, 1));
    match first {
        LineRead::End => (5, String::from_str("exclude file is has no records"), path),
        LineRead::Failed { display, .. } => {
            let m = read_error_message(display, &path);
            (7, m, path)
        },
        LineRead::Line(l) => match second {
            LineRead::End => (5, String::from_str("exclude file is has no records"), path),
            LineRead::Failed { display, .. } => {
                let m = read_error_message(display, &path);
                (7, m, path)
            },
            LineRead::Line(_) => {
                let lc = chars_of(l.as_str());
                let t = trim_chars(&lc);
                let want = chars_of("exclude file");
                if !same_chars(&t, &want) {
                    let mut m = String::from_str("first line of exclude file is not valid: ");
                    m.append(l.as_str());
                    (6, m, path)
                } else {
                    (0, String::from_str("got file"), path)
                }
            },
        },
    }
}

} // verus!
