//! A run over the window-directory listing: the names of the two output files, and the state
//! machine that turns each line read from the listing into a record, a progress message and
//! the decision whether to go on.

use vstd::prelude::*;
use crate::dates::{date_field_for, listing_date_text};
use crate::zones::{date_offset_unreadable, date_readable};
use crate::exclusions::{strs, Exclusions};
use crate::numtext::{dec_seq, pad2_seq, push_dec, push_pad2};
use crate::paths::{exists_answer, path_exists};
use crate::reads::{LineRead, ReadModel};
use crate::records::{
    chars_all, fields_of, line_record_chars, raw_date, raw_date_spec, record_spec, Record, Sink,
};
use crate::text::{chars_of, extend_chars, string_of};

verus! {

/// The result of a run: an error code (0 on success) and a message.
#[derive(Debug)]
pub struct Execx {
    pub errcd: u32,
    pub errval: String,
}

/// Names of the output files for suffix number `seq`: the kept records go to
/// `<listing>_out<NN>.csv`, the excluded ones to `<listing>_excluded<NN>.excout` for the first
/// suffix and `<listing>_excluded<NN>.csv` for the later ones.
pub open spec fn output_names_spec(windir: Seq<char>, seq: nat) -> (Seq<char>, Seq<char>) {
    (
        windir + "_out"@ + pad2_seq(seq) + ".csv"@,
        windir + "_excluded"@ + pad2_seq(seq) + (if seq == 1 {
            ".excout"@
        } else {
            ".csv"@
        }),
    )
}

/// Names of the two output files for suffix number `seq`.
pub fn output_names(windir: &str, seq: u32) -> (r: (String, String))
    ensures
        (r.0@, r.1@) == output_names_spec(windir@, seq as nat),
{
    let w = chars_of(windir);
    let mut t = w.clone();
    let a = chars_of("_out");
    extend_chars(&mut t, &a);
    push_pad2(&mut t, seq as u64);
    let b = chars_of(".csv");
    extend_chars(&mut t, &b);
    let mut e = w.clone();
    let c = chars_of("_excluded");
    extend_chars(&mut e, &c);
    push_pad2(&mut e, seq as u64);
    let d = if seq == 1 {
        chars_of(".excout")
    } else {
        chars_of(".csv")
    };
    extend_chars(&mut e, &d);
    assert(t@ =~= output_names_spec(windir@, seq as nat).0);
    assert(e@ =~= output_names_spec(windir@, seq as nat).1);
    (string_of(&t), string_of(&e))
}

/// What the search for free output names does after looking at suffix `seq`.
#[derive(PartialEq, Eq, Structural, Clone, Copy, Debug)]
pub enum SuffixProbe {
    /// Neither output file of `seq` exists: `seq` is taken.
    Free,
    /// One of them exists: look at this suffix next.
    Next(u32),
    /// One of them exists and no larger suffix fits in a `u32`.
    Exhausted,
}

/// The decision after looking at suffix `seq`, from whether its file of kept records exists
/// and, where that one does not, whether its file of excluded records exists.
pub open spec fn suffix_probe_spec(seq: u32, out_taken: bool, excl_taken: bool) -> SuffixProbe {
    if !out_taken && !excl_taken {
        SuffixProbe::Free
    } else if seq == u32::MAX {
        SuffixProbe::Exhausted
    } else {
        SuffixProbe::Next((seq + 1) as u32)
    }
}

/// The decision after looking at suffix `seq`.
pub fn suffix_probe(seq: u32, out_taken: bool, excl_taken: bool) -> (r: SuffixProbe)
    ensures
        r == suffix_probe_spec(seq, out_taken, excl_taken),
{
    if !out_taken && !excl_taken {
        SuffixProbe::Free
    } else if seq == u32::MAX {
        SuffixProbe::Exhausted
    } else {
        SuffixProbe::Next(seq + 1)
    }
}

/// Suffix `k` was answered free: the file of kept records was answered absent, and so was the
/// file of excluded records.
pub open spec fn suffix_answered_free(windir: Seq<char>, k: nat) -> bool {
    let names = output_names_spec(windir, k);
    exists_answer(names.0, false) && exists_answer(names.1, false)
}

/// Suffix `k` was answered taken: the file of kept records was answered present, or it was
/// answered absent and the file of excluded records present.
pub open spec fn suffix_answered_taken(windir: Seq<char>, k: nat) -> bool {
    let names = output_names_spec(windir, k);
    exists_answer(names.0, true) || (exists_answer(names.0, false) && exists_answer(names.1, true))
}

/// The first suffix number, from 1 on, for which neither output file exists yet: every suffix
/// before it was answered taken and it was answered free. What exists is asked of the disk,
/// each answer being handled by `suffix_probe`. `None` where every suffix up to `u32::MAX` was
/// answered taken (the counter would overflow there).
pub fn find_output_suffix(windir: &str) -> (r: Option<u32>)
    ensures
        r matches Some(n) ==> n >= 1 && suffix_answered_free(windir@, n as nat) && forall|k: nat|
            1 <= k < n ==> #[trigger] suffix_answered_taken(windir@, k),
        r is None ==> forall|k: nat| 1 <= k <= u32::MAX ==> #[trigger] suffix_answered_taken(windir@, k),
{
    let mut seq: u32 = 1;
    loop
        invariant
            seq >= 1,
            forall|k: nat| 1 <= k < seq ==> #[trigger] suffix_answered_taken(windir@, k),
        decreases u32::MAX - seq,
    {
        let (t, e) = output_names(windir, seq);
        let out_taken = path_exists(t.as_str());
        let excl_taken = if out_taken {
            true
        } else {
            path_exists(e.as_str())
        };
        match suffix_probe(seq, out_taken, excl_taken) {
            SuffixProbe::Free => {
                return Some(seq);
            },
            SuffixProbe::Exhausted => {
                return None;
            },
            SuffixProbe::Next(k) => {
                seq = k;
            },
        }
    }
}

/// The progress message sent after line `linenum` of a listing of `numrows` rows.
pub open spec fn progress_spec(linenum: nat, numrows: nat) -> Seq<char> {
    "Progress|"@ + dec_seq(linenum) + "|"@ + dec_seq(numrows)
}

/// The state of a run, as values.
pub struct RunModel {
    pub numrows: nat,
    pub linenum: nat,
    pub good: nat,
    pub excluded: nat,
    pub outseq: nat,
    pub dirs: Seq<Seq<char>>,
    pub files: Seq<Seq<char>>,
    pub errcode: u32,
    pub errstring: Seq<char>,
    pub finished: bool,
}

/// A run in progress.
pub struct ExecRun {
    numrows: u64,
    linenum: u64,
    linegood: u64,
    lineexclude: u64,
    outseq: u32,
    dirs: Vec<Vec<char>>,
    files: Vec<Vec<char>>,
    errcode: u32,
    errstring: String,
    finished: bool,
}

/// What one step of a run hands out: the record to write, if any, the progress message to
/// send, if any, and whether the run is over.
pub struct StepOut {
    pub record: Option<Record>,
    pub progress: Option<String>,
    pub finished: bool,
}

/// Line number `n` with text `l` gives a record, so its date is read.
pub open spec fn dated_line(l: Seq<char>, n: nat) -> bool {
    fields_of(l).len() > 6 && n > 2
}

/// The read `r` of line number `n` may be taken: where it is a line with a record, its date
/// text is not one that `date_offset_unreadable` leaves out.
pub open spec fn step_date_ok(r: ReadModel, n: nat) -> bool {
    match r {
        ReadModel::Line(l) => dated_line(l, n) ==> !date_offset_unreadable(raw_date_spec(l)),
        _ => true,
    }
}

/// `d` is a date field that the read `r` of line number `n` can give: for a line with a
/// record, one of those that its raw date text can give.
pub open spec fn step_date_field(r: ReadModel, n: nat, d: Seq<char>) -> bool {
    match r {
        ReadModel::Line(l) => dated_line(l, n) ==> date_field_for(raw_date_spec(l), d),
        _ => true,
    }
}

/// The model after one read of the listing, with the record it gives and the progress
/// message, given the date field written for the line. The end of the file ends the run; a
/// read error ends it with error 5; a line is counted, may give a record, always gives a
/// progress message, and ends the run once more lines than `numrows` have been read.
pub open spec fn step_spec(m: RunModel, r: ReadModel, date: Seq<char>) -> (
    RunModel,
    Option<(Sink, Seq<char>)>,
    Option<Seq<char>>,
) {
    match r {
        ReadModel::End => (RunModel { finished: true, ..m }, None, None),
        ReadModel::Failed(_, dbg) => (
            RunModel {
                errcode: 5,
                errstring: "error "@ + dbg + " reading windows dir file"@,
                finished: true,
                ..m
            },
            None,
            None,
        ),
        ReadModel::Line(l) => {
            let n = m.linenum + 1;
            let rec = record_spec(l, n as int, m.dirs, m.files, date);
            let good = if rec matches Some((Sink::Good, _)) {
                m.good + 1
            } else {
                m.good
            };
            let excluded = if rec matches Some((Sink::ExcludedByFile, _)) || rec matches Some(
                (Sink::ExcludedByDir, _),
            ) {
                m.excluded + 1
            } else {
                m.excluded
            };
            (
                RunModel { linenum: n, good, excluded, finished: n > m.numrows, ..m },
                rec,
                Some(progress_spec(n, m.numrows)),
            )
        },
    }
}

/// The result of a run that has ended: on success the counts of kept and excluded records
/// and the suffix number, else the error.
pub open spec fn finish_spec(m: RunModel) -> (u32, Seq<char>) {
    if m.errcode == 0 {
        (
            0,
            "Completed: good: "@ + dec_seq(m.good) + " excluded: "@ + dec_seq(m.excluded)
                + " suffix number: "@ + dec_seq(m.outseq),
        )
    } else {
        (m.errcode, m.errstring)
    }
}

impl View for ExecRun {
    type V = RunModel;

    closed spec fn view(&self) -> RunModel {
        RunModel {
            numrows: self.numrows as nat,
            linenum: self.linenum as nat,
            good: self.linegood as nat,
            excluded: self.lineexclude as nat,
            outseq: self.outseq as nat,
            dirs: crate::text::views(self.dirs@),
            files: crate::text::views(self.files@),
            errcode: self.errcode,
            errstring: self.errstring@,
            finished: self.finished,
        }
    }
}

impl ExecRun {
    #[verifier::type_invariant]
    spec fn well_formed(&self) -> bool {
        &&& self.linegood + self.lineexclude <= self.linenum
        &&& (self.finished || self.linenum <= self.numrows)
    }

    /// A run over a listing of `rows_num` rows with the given exclusions, writing to the
    /// output files of suffix `outseq`.
    pub fn new(rows_num: u64, excl: &Exclusions, outseq: u32) -> (r: ExecRun)
        ensures
            r@ == (RunModel {
                numrows: rows_num as nat,
                linenum: 0,
                good: 0,
                excluded: 0,
                outseq: outseq as nat,
                dirs: strs(excl.dirs@),
                files: strs(excl.files@),
                errcode: 0,
                errstring: "begin of async"@,
                finished: false,
            }),
    {
        ExecRun {
            numrows: rows_num,
            linenum: 0,
            linegood: 0,
            lineexclude: 0,
            outseq,
            dirs: chars_all(&excl.dirs),
            files: chars_all(&excl.files),
            errcode: 0,
            errstring: String::from_str("begin of async"),
            finished: false,
        }
    }

    /// Whether the run is over.
    pub fn is_finished(&self) -> (r: bool)
        ensures
            r == self@.finished,
    {
        self.finished
    }

    /// Number of lines of the listing read so far.
    pub fn lines_read(&self) -> (r: u64)
        ensures
            r == self@.linenum,
    {
        self.linenum
    }

    /// Whether `read` may be handed to `step`: where it is a line with a record, its date
    /// text is one that may be read.
    pub fn can_step(&self, read: &LineRead) -> (r: bool)
        ensures
            r == step_date_ok(read@, self@.linenum + 1),
    {
        match read {
            LineRead::Line(l) => {
                if self.linenum < 2 {
                    return true;
                }
                let lc = chars_of(l.as_str());
                match raw_date(&lc) {
                    Some(raw) => date_readable(&raw),
                    None => true,
                }
            },
            _ => true,
        }
    }

    /// Takes the next read of the listing. For a line with a record, the date field is the
    /// date read from its raw date text by `listing_date_text`, so the step is `step_spec` for
    /// some date field that this text can give.
    pub fn step(&mut self, read: LineRead) -> (out: StepOut)
        requires
            !old(self)@.finished,
            old(self)@.linenum < u64::MAX,
            step_date_ok(read@, old(self)@.linenum + 1),
        ensures
            exists|d: Seq<char>|
                #![trigger step_spec(old(self)@, read@, d)]
                {
                    let s = step_spec(old(self)@, read@, d);
                    &&& step_date_field(read@, old(self)@.linenum + 1, d)
                    &&& final(self)@ == s.0
                    &&& (match out.record {
                        Some(x) => s.1 == Some((x.sink, x.text@)),
                        None => s.1 is None,
                    })
                    &&& (match out.progress {
                        Some(p) => s.2 == Some(p@),
                        None => s.2 is None,
                    })
                },
            out.finished == final(self)@.finished,
            final(self)@.good + final(self)@.excluded <= final(self)@.linenum,
            !final(self)@.finished ==> final(self)@.linenum <= final(self)@.numrows,
    {
        proof {
            use_type_invariant(&*self);
        }
        match read {
            LineRead::End => {
                self.finished = true;
                proof {
                    let d = Seq::<char>::empty();
                    assert(self@ == step_spec(old(self)@, read@, d).0);
                    assert(step_date_field(read@, old(self)@.linenum + 1, d));
                }
                StepOut { record: None, progress: None, finished: true }
            },
            LineRead::Failed { display, debug } => {
                let mut m = String::from_str("error ");
                m.append(debug.as_str());
                m.append(" reading windows dir file");
                self.errcode = 5;
                self.errstring = m;
                self.finished = true;
                proof {
                    let d = Seq::<char>::empty();
                    assert(self@ == step_spec(old(self)@, read@, d).0);
                    assert(step_date_field(read@, old(self)@.linenum + 1, d));
                }
                StepOut { record: None, progress: None, finished: true }
            },
            LineRead::Line(l) => {
                let n = self.linenum + 1;
                let lc = chars_of(l.as_str());
                let date = if n > 2 {
                    match raw_date(&lc) {
                        Some(raw) => {
                            let rs = string_of(&raw);
                            let d = listing_date_text(rs.as_str());
                            chars_of(d.as_str())
                        },
                        None => Vec::new(),
                    }
                } else {
                    Vec::new()
                };
                let record = line_record_chars(&lc, n, &self.dirs, &self.files, &date);
                proof {
                    assert(step_date_field(read@, old(self)@.linenum + 1, date@));
                }
                if n > self.numrows {
                    self.finished = true;
                }
                self.linenum = n;
                match &record {
                    Some(x) => {
                        match x.sink {
                            Sink::Good => {
                                self.linegood = self.linegood + 1;
                            },
                            _ => {
                                self.lineexclude = self.lineexclude + 1;
                            },
                        }
                    },
                    None => {},
                }
                let mut p = chars_of("Progress|");
                push_dec(&mut p, n);
                p.push('|');
                push_dec(&mut p, self.numrows);
                proof {
                    reveal_strlit("|");
                    assert(p@ =~= progress_spec(n as nat, self.numrows as nat));
                    assert(self@ == step_spec(old(self)@, read@, date@).0);
                }
                StepOut { record, progress: Some(string_of(&p)), finished: self.finished }
            },
        }
    }

    /// The result of the run once it is over.
    pub fn finish(&self) -> (r: Execx)
        ensures
            (r.errcd, r.errval@) == finish_spec(self@),
    {
        if self.errcode == 0 {
            let mut m = chars_of("Completed: good: ");
            push_dec(&mut m, self.linegood);
            let a = chars_of(" excluded: ");
            extend_chars(&mut m, &a);
            push_dec(&mut m, self.lineexclude);
            let b = chars_of(" suffix number: ");
            extend_chars(&mut m, &b);
            push_dec(&mut m, self.outseq as u64);
            assert(m@ =~= finish_spec(self@).1);
            Execx { errcd: 0, errval: string_of(&m) }
        } else {
            Execx { errcd: self.errcode, errval: String::from_str(self.errstring.as_str()) }
        }
    }
}

} // verus!
