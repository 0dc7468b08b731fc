//! One entry of the window-directory listing: its fields are quoted, the second field is the
//! full path of the file, the fourth its date and the sixth its size. An entry becomes a
//! record `name|dir|date|size|tag`, excluded by its file name (`f`), by its directory (`d`), or
//! kept (`good`).

use vstd::prelude::*;
use crate::exclusions::{strs, Exclusions};
use crate::text::{
    chars_of, contains_chars, contains_seq, extend_chars, last_index_of, last_index_seq,
    slice_chars, split_chars, split_seq, string_of,
};

verus! {

/// Where a record goes.
#[derive(PartialEq, Eq, Structural, Clone, Copy, Debug)]
pub enum Sink {
    /// The file of kept entries.
    Good,
    /// The file of excluded entries, excluded by the file name.
    ExcludedByFile,
    /// The file of excluded entries, excluded by the directory.
    ExcludedByDir,
}

/// A record and where it goes.
pub struct Record {
    pub sink: Sink,
    pub text: String,
}

/// The quoted fields of a listing line (the pieces between double quotes).
pub open spec fn fields_of(line: Seq<char>) -> Seq<Seq<char>> {
    split_seq(line, '"')
}

/// File name and directory of a full path: the path is cut at its last backslash, unless there
/// is none or it is the first character, in which case the whole path is the name and the
/// directory is empty.
pub open spec fn name_dir_spec(full: Seq<char>) -> (Seq<char>, Seq<char>) {
    match last_index_seq(full, '\\') {
        Some(i) => if i >= 1 {
            (full.skip(i + 1), full.take(i))
        } else {
            (full, Seq::empty())
        },
        None => (full, Seq::empty()),
    }
}

/// Some text of `pats` occurs in `s`.
pub open spec fn matches_any(s: Seq<char>, pats: Seq<Seq<char>>) -> bool {
    exists|i: int| 0 <= i < pats.len() && contains_seq(s, #[trigger] pats[i])
}

/// The fields of a record before its tag.
pub open spec fn record_body(name: Seq<char>, dir: Seq<char>, date: Seq<char>, size: Seq<char>) -> Seq<
    char,
> {
    name + "|"@ + dir + "|"@ + date + "|"@ + size
}

/// The record for listing line number `linenum` (counted from 1), given the exclusions and
/// the date field written for it. Lines 1 and 2, and lines with fewer than seven quoted
/// pieces, give no record. File-name exclusions are tried before directory exclusions.
pub open spec fn record_spec(
    line: Seq<char>,
    linenum: int,
    dirs: Seq<Seq<char>>,
    files: Seq<Seq<char>>,
    date: Seq<char>,
) -> Option<(Sink, Seq<char>)> {
    let parts = fields_of(line);
    if parts.len() > 6 && linenum > 2 {
        let nd = name_dir_spec(parts[1]);
        let body = record_body(nd.0, nd.1, date, parts[5]);
        if matches_any(nd.0, files) {
            Some((Sink::ExcludedByFile, body + "|f"@))
        } else if matches_any(nd.1, dirs) {
            Some((Sink::ExcludedByDir, body + "|d"@))
        } else {
            Some((Sink::Good, body + "|good"@))
        }
    } else {
        None
    }
}

/// The raw date text of a listing line that has a record: its fourth quoted piece.
pub open spec fn raw_date_spec(line: Seq<char>) -> Seq<char> {
    fields_of(line)[3]
}

/// Splits a full path into file name and directory.
pub fn name_dir(full: &Vec<char>) -> (r: (Vec<char>, Vec<char>))
    ensures
        (r.0@, r.1@) == name_dir_spec(full@),
{
    match last_index_of(full, '\\') {
        Some(i) => if i >= 1 {
            (slice_chars(full, i + 1, full.len()), slice_chars(full, 0, i))
        } else {
            (slice_chars(full, 0, full.len()), Vec::new())
        },
        None => (slice_chars(full, 0, full.len()), Vec::new()),
    }
}

/// Whether some text of `pats` occurs in `s`.
pub fn matches_any_of(s: &Vec<char>, pats: &Vec<Vec<char>>) -> (r: bool)
    ensures
        r == matches_any(s@, crate::text::views(pats@)),
{
    let ghost ps = crate::text::views(pats@);
    for i in 0..pats.len()
        invariant
            ps == crate::text::views(pats@),
            forall|k: int| 0 <= k < i ==> !contains_seq(s@, #[trigger] ps[k]),
    {
        if contains_chars(s, &pats[i]) {
            assert(contains_seq(s@, ps[i as int]));
            return true;
        }
    }
    false
}

/// The texts of a vector of strings, as character vectors.
pub fn chars_all(v: &Vec<String>) -> (r: Vec<Vec<char>>)
    ensures
        crate::text::views(r@) == strs(v@),
{
    let mut r: Vec<Vec<char>> = Vec::new();
    for i in 0..v.len()
        invariant
            crate::text::views(r@) == strs(v@).take(i as int),
    {
        let ghost before = crate::text::views(r@);
        let x = chars_of(v[i].as_str());
        let ghost xv = x@;
        r.push(x);
        assert(crate::text::views(r@) =~= before.push(xv));
        assert(strs(v@).take(i + 1) =~= strs(v@).take(i as int).push(v@[i as int]@));
    }
    assert(strs(v@).take(v.len() as int) == strs(v@));
    r
}

/// The record for listing line `line`, number `linenum`, with the date field `date`.
pub fn line_record_chars(
    line: &Vec<char>,
    linenum: u64,
    dirs: &Vec<Vec<char>>,
    files: &Vec<Vec<char>>,
    date: &Vec<char>,
) -> (r: Option<Record>)
    ensures
        r matches Some(x) ==> record_spec(
            line@,
            linenum as int,
            crate::text::views(dirs@),
            crate::text::views(files@),
            date@,
        ) == Some((x.sink, x.text@)),
        r is None ==> record_spec(
            line@,
            linenum as int,
            crate::text::views(dirs@),
            crate::text::views(files@),
            date@,
        ) is None,
{
    let parts = split_chars(line, '"');
    if !(parts.len() > 6 && linenum > 2) {
        return None;
    }
    assert(crate::text::views(parts@)[1] == parts@[1]@);
    assert(crate::text::views(parts@)[5] == parts@[5]@);
    let (name, dir) = name_dir(&parts[1]);
    let mut body: Vec<char> = Vec::new();
    extend_chars(&mut body, &name);
    body.push('|');
    extend_chars(&mut body, &dir);
    body.push('|');
    extend_chars(&mut body, date);
    body.push('|');
    extend_chars(&mut body, &parts[5]);
    proof {
        reveal_strlit("|");
        assert(body@ =~= record_body(name@, dir@, date@, parts@[5]@));
    }
    let (sink, tag) = if matches_any_of(&name, files) {
        (Sink::ExcludedByFile, "|f")
    } else if matches_any_of(&dir, dirs) {
        (Sink::ExcludedByDir, "|d")
    } else {
        (Sink::Good, "|good")
    };
    let t = chars_of(tag);
    extend_chars(&mut body, &t);
    Some(Record { sink, text: string_of(&body) })
}

/// The record for listing line `line`, number `linenum`, given the exclusions of the run and
/// the date field `date`.
pub fn line_record(line: &str, linenum: u64, excl: &Exclusions, date: &str) -> (r: Option<Record>)
    ensures
        r matches Some(x) ==> record_spec(
            line@,
            linenum as int,
            strs(excl.dirs@),
            strs(excl.files@),
            date@,
        ) == Some((x.sink, x.text@)),
        r is None ==> record_spec(
            line@,
            linenum as int,
            strs(excl.dirs@),
            strs(excl.files@),
            date@,
        ) is None,
{
    let l = chars_of(line);
    let d = chars_of(date);
    let dirs = chars_all(&excl.dirs);
    let files = chars_all(&excl.files);
    line_record_chars(&l, linenum, &dirs, &files, &d)
}

/// The raw date text of a listing line, where the line has one.
pub fn raw_date(line: &Vec<char>) -> (r: Option<Vec<char>>)
    ensures
        r matches Some(d) ==> fields_of(line@).len() > 6 && d@ == raw_date_spec(line@),
        r is None ==> fields_of(line@).len() <= 6,
{
    let parts = split_chars(line, '"');
    if parts.len() > 6 {
        assert(crate::text::views(parts@)[3] == parts@[3]@);
        Some(slice_chars(&parts[3], 0, parts[3].len()))
    } else {
        None
    }
}

} // verus!
