//! The exclusion file of a run: a header line, then one exclusion per line, `d <text>` for a
//! text that excludes entries whose directory contains it, `f <text>` for a text that excludes
//! entries whose file name contains it.

use vstd::prelude::*;
use crate::reads::{read_models, LineRead, ReadModel};
use crate::text::{chars_of, slice_chars, string_of, trim_chars, trim_seq};

verus! {

/// Number of bytes that UTF-8 takes for `c`.
pub open spec fn utf8_width(c: char) -> nat {
    if (c as int) < 0x80 {
        1
    } else if (c as int) < 0x800 {
        2
    } else if (c as int) < 0x10000 {
        3
    } else {
        4
    }
}

/// Number of bytes that UTF-8 takes for `s` (`str::len`).
pub open spec fn utf8_len(s: Seq<char>) -> nat
    decreases s.len(),
{
    if s.len() == 0 {
        0
    } else {
        utf8_len(s.drop_last()) + utf8_width(s.last())
    }
}

/// Byte 2 of `e` falls between two characters, so that `&e[..2]` and `&e[2..]` can be taken.
pub open spec fn cut2_ok(e: Seq<char>) -> bool {
    utf8_width(e[0]) == 2 || (utf8_width(e[0]) == 1 && utf8_width(e[1]) == 1)
}

/// Number of characters in the first two bytes of `e` (where `cut2_ok(e)`).
pub open spec fn cut2_index(e: Seq<char>) -> int {
    if utf8_width(e[0]) == 2 {
        1
    } else {
        2
    }
}

/// The state of the scan of an exclusion file after some reads.
pub enum ScanModel {
    Going { count: nat, dirs: Seq<Seq<char>>, files: Seq<Seq<char>> },
    Ended { count: nat, dirs: Seq<Seq<char>>, files: Seq<Seq<char>> },
    Failed(u32, Seq<char>),
    Unsliceable,
}

/// One read of the scan. Lines after the first are trimmed; one of fewer than three bytes is
/// error 1, one that starts with neither `d ` nor `f ` is error 2, and a read error is error 3.
pub open spec fn scan_step(st: ScanModel, r: ReadModel) -> ScanModel {
    match st {
        ScanModel::Going { count, dirs, files } => match r {
            ReadModel::End => ScanModel::Ended { count, dirs, files },
            ReadModel::Failed(d, _) => ScanModel::Failed(
                3,
                "error "@ + d + " when reading exclusion file"@,
            ),
            ReadModel::Line(l) => {
                let c = count + 1;
                if c > 1 {
                    let e = trim_seq(l);
                    if utf8_len(e) < 3 {
                        ScanModel::Failed(1, "exclusion less than 3 characters: "@ + e)
                    } else if !cut2_ok(e) {
                        ScanModel::Unsliceable
                    } else {
                        let k = cut2_index(e);
                        let pre = e.take(k);
                        let rest = e.skip(k);
                        if pre == "d "@ {
                            ScanModel::Going { count: c, dirs: dirs.push(rest), files }
                        } else if pre == "f "@ {
                            ScanModel::Going { count: c, dirs, files: files.push(rest) }
                        } else {
                            ScanModel::Failed(2, "exclusion invalid first two characters "@ + e)
                        }
                    }
                } else {
                    ScanModel::Going { count: c, dirs, files }
                }
            },
        },
        _ => st,
    }
}

/// The scan after the first `k` reads.
pub open spec fn scan(reads: Seq<ReadModel>, k: int) -> ScanModel
    decreases k,
{
    if k <= 0 {
        ScanModel::Going { count: 0, dirs: Seq::empty(), files: Seq::empty() }
    } else {
        scan_step(scan(reads, k - 1), reads[k - 1])
    }
}

/// Whether scanning `reads` would cut a line inside a character, where slicing the line
/// would panic.
pub open spec fn scan_unsliceable(reads: Seq<ReadModel>) -> bool {
    scan(reads, reads.len() as int) is Unsliceable
}

/// What the exclusion file `path` read as `reads` gives: the directory and file exclusions,
/// or an error code and message. Fewer than two lines is error 4.
pub open spec fn exclusions_spec(path: Seq<char>, reads: Seq<ReadModel>) -> Result<
    (Seq<Seq<char>>, Seq<Seq<char>>),
    (u32, Seq<char>),
> {
    let no_records = Err((4u32, "exclusion file "@ + path + " has no records"@));
    match scan(reads, reads.len() as int) {
        ScanModel::Going { count, dirs, files } => if count < 2 {
            no_records
        } else {
            Ok((dirs, files))
        },
        ScanModel::Ended { count, dirs, files } => if count < 2 {
            no_records
        } else {
            Ok((dirs, files))
        },
        ScanModel::Failed(c, m) => Err((c, m)),
        ScanModel::Unsliceable => Err((0u32, Seq::empty())),
    }
}

/// The character sequences of a sequence of strings.
pub open spec fn strs(v: Seq<String>) -> Seq<Seq<char>> {
    v.map_values(|s: String| s@)
}

/// The exclusions of a run.
pub struct Exclusions {
    /// Texts that exclude an entry whose directory contains one of them (`d ` lines).
    pub dirs: Vec<String>,
    /// Texts that exclude an entry whose file name contains one of them (`f ` lines).
    pub files: Vec<String>,
}

fn width(c: char) -> (w: u8)
    ensures
        w as nat == utf8_width(c),
{
    let v = c as u32;
    if v < 0x80 {
        1
    } else if v < 0x800 {
        2
    } else if v < 0x10000 {
        3
    } else {
        4
    }
}

proof fn lemma_utf8_len_at_least(s: Seq<char>)
    ensures
        utf8_len(s) >= s.len(),
    decreases s.len(),
{
    if s.len() > 0 {
        lemma_utf8_len_at_least(s.drop_last());
    }
}

/// Whether `utf8_len(e) < 3`.
fn shorter_than_3_bytes(e: &Vec<char>) -> (r: bool)
    ensures
        r == (utf8_len(e@) < 3),
{
    proof {
        lemma_utf8_len_at_least(e@);
    }
    if e.len() >= 3 {
        false
    } else if e.len() == 0 {
        true
    } else if e.len() == 1 {
        assert(e@.drop_last().len() == 0);
        assert(utf8_len(e@.drop_last()) == 0);
        assert(utf8_len(e@) == utf8_len(e@.drop_last()) + utf8_width(e@.last()));
        width(e[0]) < 3
    } else {
        let ghost f = e@.drop_last();
        assert(f.drop_last().len() == 0);
        assert(utf8_len(f.drop_last()) == 0);
        assert(f.last() == e@[0]);
        assert(utf8_len(f) == utf8_len(f.drop_last()) + utf8_width(f.last()));
        assert(utf8_len(e@) == utf8_len(f) + utf8_width(e@[1]));
        (width(e[0]) as u32) + (width(e[1]) as u32) < 3
    }
}

enum Scan {
    Parsed(Exclusions),
    Failed(u32, String),
    Unsliceable,
}

fn no_records_message(path: &str) -> (m: String)
    ensures
        m@ == "exclusion file "@ + path@ + " has no records"@,
{
    let mut m = String::from_str("exclusion file ");
    m.append(path);
    m.append(" has no records");
    m
}

fn scan_reads(path: &str, reads: &Vec<LineRead>) -> (r: Scan)
    ensures
        match r {
            Scan::Unsliceable => scan_unsliceable(read_models(reads@)),
            Scan::Parsed(x) => !scan_unsliceable(read_models(reads@)) && exclusions_spec(
                path@,
                read_models(reads@),
            ) == Ok::<(Seq<Seq<char>>, Seq<Seq<char>>), (u32, Seq<char>)>(
                (strs(x.dirs@), strs(x.files@)),
            ),
            Scan::Failed(c, m) => !scan_unsliceable(read_models(reads@)) && exclusions_spec(
                path@,
                read_models(reads@),
            ) == Err::<(Seq<Seq<char>>, Seq<Seq<char>>), (u32, Seq<char>)>((c, m@)),
        },
{
    let ghost models = read_models(reads@);
    let mut count: usize = 0;
    let mut dirs: Vec<String> = Vec::new();
    let mut files: Vec<String> = Vec::new();
    let mut ended = false;
    let mut i: usize = 0;
    assert(strs(dirs@) =~= Seq::<Seq<char>>::empty());
    assert(strs(files@) =~= Seq::<Seq<char>>::empty());
    while i < reads.len()
        invariant
            models == read_models(reads@),
            i <= reads.len(),
            count <= i,
            ended ==> scan(models, i as int) == (ScanModel::Ended {
                count: count as nat,
                dirs: strs(dirs@),
                files: strs(files@),
            }),
            !ended ==> scan(models, i as int) == (ScanModel::Going {
                count: count as nat,
                dirs: strs(dirs@),
                files: strs(files@),
            }),
        decreases reads.len() - i,
    {
        let ghost before = scan(models, i as int);
        assert(scan(models, i + 1) == scan_step(before, models[i as int]));
        assert(models[i as int] == reads@[i as int]@);
        if !ended {
            match &reads[i] {
                LineRead::End => {
                    ended = true;
                },
                LineRead::Failed { display, .. } => {
                    let mut m = String::from_str("error ");
                    m.append(display.as_str());
                    m.append(" when reading exclusion file");
                    proof {
                        lemma_scan_stays(models, i + 1);
                    }
                    return Scan::Failed(3, m);
                },
                LineRead::Line(l) => {
                    count = count + 1;
                    if count > 1 {
                        let lc = chars_of(l.as_str());
                        let e = trim_chars(&lc);
                        if shorter_than_3_bytes(&e) {
                            let mut m = chars_of("exclusion less than 3 characters: ");
                            crate::text::extend_chars(&mut m, &e);
                            proof {
                                lemma_scan_stays(models, i + 1);
                            }
                            return Scan::Failed(1, string_of(&m));
                        }
                        proof {
                            lemma_utf8_len_at_least(e@);
                            if e@.len() == 1 {
                                assert(e@.drop_last().len() == 0);
                                assert(utf8_len(e@.drop_last()) == 0);
                                assert(utf8_len(e@) == utf8_len(e@.drop_last()) + utf8_width(e@.last()));
                            }
                        }
                        let w0 = width(e[0]);
                        let ok = if w0 == 2 {
                            true
                        } else if w0 == 1 && e.len() > 1 {
                            width(e[1]) == 1
                        } else {
                            false
                        };
                        if !ok {
                            proof {
                                lemma_scan_stays(models, i + 1);
                            }
                            return Scan::Unsliceable;
                        }
                        let k: usize = if w0 == 2 {
                            1
                        } else {
                            2
                        };
                        let rest = slice_chars(&e, k, e.len());
                        assert(rest@ == e@.skip(k as int));
                        let is_d = k == 2 && e[0] == 'd' && e[1] == ' ';
                        let is_f = k == 2 && e[0] == 'f' && e[1] == ' ';
                        proof {
                            reveal_strlit("d ");
                            reveal_strlit("f ");
                            let pre = e@.take(k as int);
                            if k == 2 {
                                assert(is_d == (pre == "d "@)) by {
                                    if pre == "d "@ {
                                        assert(pre[0] == 'd' && pre[1] == ' ');
                                    }
                                    if is_d {
                                        assert(pre =~= "d "@);
                                    }
                                }
                                assert(is_f == (pre == "f "@)) by {
                                    if pre == "f "@ {
                                        assert(pre[0] == 'f' && pre[1] == ' ');
                                    }
                                    if is_f {
                                        assert(pre =~= "f "@);
                                    }
                                }
                            } else {
                                assert(pre.len() != "d "@.len());
                            }
                        }
                        if is_d {
                            let ghost old_dirs = strs(dirs@);
                            dirs.push(string_of(&rest));
                            assert(strs(dirs@) =~= old_dirs.push(rest@));
                        } else if is_f {
                            let ghost old_files = strs(files@);
                            files.push(string_of(&rest));
                            assert(strs(files@) =~= old_files.push(rest@));
                        } else {
                            let mut m = chars_of("exclusion invalid first two characters ");
                            crate::text::extend_chars(&mut m, &e);
                            proof {
                                lemma_scan_stays(models, i + 1);
                            }
                            return Scan::Failed(2, string_of(&m));
                        }
                    }
                },
            }
        } else {
            assert(scan(models, i + 1) == before);
        }
        i = i + 1;
    }
    if count < 2 {
        return Scan::Failed(4, no_records_message(path));
    }
    Scan::Parsed(Exclusions { dirs, files })
}

/// Once the scan has stopped (failed, ended or hit an unsliceable line), further reads leave
/// it as it is.
proof fn lemma_scan_stays(reads: Seq<ReadModel>, k: int)
    requires
        0 <= k <= reads.len(),
        !(scan(reads, k) is Going),
    ensures
        scan(reads, reads.len() as int) == scan(reads, k),
    decreases reads.len() - k,
{
    if k < reads.len() {
        assert(scan(reads, k + 1) == scan_step(scan(reads, k), reads[k]));
        lemma_scan_stays(reads, k + 1);
    }
}

/// Reads the exclusions of the exclusion file `path` from the reads made of it. The first
/// line is a header and is not looked at; the file must have at least two lines.
pub fn parse_exclusions(path: &str, reads: &Vec<LineRead>) -> (r: Result<Exclusions, (u32, String)>)
    requires
        !scan_unsliceable(read_models(reads@)),
    ensures
        r matches Ok(x) ==> exclusions_spec(path@, read_models(reads@)) == Ok::<
            (Seq<Seq<char>>, Seq<Seq<char>>),
            (u32, Seq<char>),
        >((strs(x.dirs@), strs(x.files@))),
        r matches Err(e) ==> exclusions_spec(path@, read_models(reads@)) == Err::<
            (Seq<Seq<char>>, Seq<Seq<char>>),
            (u32, Seq<char>),
        >((e.0, e.1@)),
{
    match scan_reads(path, reads) {
        Scan::Parsed(x) => Ok(x),
        Scan::Failed(c, m) => Err((c, m)),
        Scan::Unsliceable => Err((0, String::new())),
    }
}

/// Whether `parse_exclusions` may be called on `reads`: no line that the scan reaches has
/// byte 2 inside a character.
pub fn exclusions_sliceable(reads: &Vec<LineRead>) -> (r: bool)
    ensures
        r == !scan_unsliceable(read_models(reads@)),
{
    match scan_reads("", reads) {
        Scan::Unsliceable => false,
        _ => true,
    }
}

} // verus!
