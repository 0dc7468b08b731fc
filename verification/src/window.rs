//! The state behind the user interface and how each message changes it. Every piece of
//! outside work (a file dialog, a look at the disk, reading a file, starting a run, waiting for
//! the progress timer) is an action that the caller performs, answering with the message that
//! carries its outcome.

use vstd::prelude::*;
use crate::numtext::{dec_seq, int_seq, push_dec, push_int};
use crate::progress::{progress_reading_spec, read_progress, ProgressReading};
use crate::reads::{read_models, LineRead, ReadModel};
use crate::run::Execx;
use crate::text::{chars_of, extend_chars, string_of};

verus! {

/// Colour of the message line.
#[derive(PartialEq, Eq, Structural, Clone, Copy, Debug)]
pub enum MessColor {
    Blue,
    Green,
    Red,
}

/// An event for the interface: a button press, or the outcome of an action.
pub enum Message {
    /// The listing button was pressed.
    WindirPressed,
    /// The listing file picker answered with an error code, a message and the picked path.
    WindirPicked { errcode: u32, errstr: String, newinput: String },
    /// Whether the picked listing exists.
    WindirExists(bool),
    /// The reads made of the listing, up to its end or a read error.
    WindirRows(Vec<LineRead>),
    /// The exclusion-file button was pressed.
    ExcludeFilePressed,
    /// The exclusion-file picker answered with an error code, a message and the picked path.
    ExcludePicked { errcode: u32, errstr: String, newinput: String },
    /// The run button was pressed.
    ExecPressed,
    /// The checks before a run answered with an error code and a message.
    ExecChecked { errcode: u32, errstr: String },
    /// A run ended (the tasks of a run cannot fail, so only its result comes).
    ExecxFound(Execx),
    /// The progress button was pressed.
    ProgressPressed,
    /// The progress timer fired (it cannot fail).
    ProgRtn,
    /// The last progress message waiting on the channel, if any.
    ProgressDrained(Option<String>),
}

/// The outside work that the interface asks for after a message.
#[derive(PartialEq, Eq, Structural, Clone, Copy, Debug)]
pub enum Action {
    Nothing,
    /// Ask the user for a listing, starting from `windir_value`.
    PickWindir,
    /// Look whether the picked listing exists.
    ProbeWindir,
    /// Read the listing `windir_value` line by line.
    CountWindirRows,
    /// Ask the user for an exclusion file, starting from `excludefile_value`.
    PickExclude,
    /// Run the checks before a run (`execpress`).
    CheckExec,
    /// Start a run over `windir_value` with `rows_num` rows and `excludefile_value`.
    RunExec,
    /// Print `console`, if any, and wait for the progress timer.
    WaitProgress,
    /// Take the progress messages waiting on the channel, keeping the last.
    DrainProgress,
}

/// The state of the interface.
pub struct Windirparse {
    pub windir_value: String,
    pub excludefile_value: String,
    pub mess_color: MessColor,
    pub msg_value: String,
    pub rows_num: u64,
    pub do_progress: bool,
    /// The last progress read, as line and rows; `None` shows 0.
    pub progress: Option<(i32, i32)>,
    /// The listing that was picked and is being looked at.
    pub pending: Option<String>,
    /// A line for the console, set by the last message.
    pub console: Option<String>,
}

/// The state of the interface, as values.
pub struct WindowModel {
    pub windir: Seq<char>,
    pub exclude: Seq<char>,
    pub color: MessColor,
    pub msg: Seq<char>,
    pub rows: nat,
    pub do_progress: bool,
    pub progress: Option<(i32, i32)>,
    pub pending: Option<Seq<char>>,
    pub console: Option<Seq<char>>,
}

/// A message, as values.
pub enum MessageModel {
    WindirPressed,
    WindirPicked(u32, Seq<char>, Seq<char>),
    WindirExists(bool),
    WindirRows(Seq<ReadModel>),
    ExcludeFilePressed,
    ExcludePicked(u32, Seq<char>, Seq<char>),
    ExecPressed,
    ExecChecked(u32, Seq<char>),
    ExecxFound(u32, Seq<char>),
    ProgressPressed,
    ProgRtn,
    ProgressDrained(Option<Seq<char>>),
}

impl View for Windirparse {
    type V = WindowModel;

    open spec fn view(&self) -> WindowModel {
        WindowModel {
            windir: self.windir_value@,
            exclude: self.excludefile_value@,
            color: self.mess_color,
            msg: self.msg_value@,
            rows: self.rows_num as nat,
            do_progress: self.do_progress,
            progress: self.progress,
            pending: match &self.pending {
                Some(p) => Some(p@),
                None => None,
            },
            console: match &self.console {
                Some(c) => Some(c@),
                None => None,
            },
        }
    }
}

impl View for Message {
    type V = MessageModel;

    open spec fn view(&self) -> MessageModel {
        match self {
            Message::WindirPressed => MessageModel::WindirPressed,
            Message::WindirPicked { errcode, errstr, newinput } => MessageModel::WindirPicked(
                *errcode,
                errstr@,
                newinput@,
            ),
            Message::WindirExists(b) => MessageModel::WindirExists(*b),
            Message::WindirRows(reads) => MessageModel::WindirRows(read_models(reads@)),
            Message::ExcludeFilePressed => MessageModel::ExcludeFilePressed,
            Message::ExcludePicked { errcode, errstr, newinput } => MessageModel::ExcludePicked(
                *errcode,
                errstr@,
                newinput@,
            ),
            Message::ExecPressed => MessageModel::ExecPressed,
            Message::ExecChecked { errcode, errstr } => MessageModel::ExecChecked(
                *errcode,
                errstr@,
            ),
            Message::ExecxFound(x) => MessageModel::ExecxFound(x.errcd, x.errval@),
            Message::ProgressPressed => MessageModel::ProgressPressed,
            Message::ProgRtn => MessageModel::ProgRtn,
            Message::ProgressDrained(m) => MessageModel::ProgressDrained(
                match m {
                    Some(s) => Some(s@),
                    None => None,
                },
            ),
        }
    }
}

/// The state of the count of a listing's rows after some reads.
pub enum RowsModel {
    Counting { n: nat, last: Seq<char> },
    Done { n: nat },
    Failed { n: nat, last: Seq<char>, debug: Seq<char> },
}

/// The count after the first `k` reads: each line read is counted and kept as the last line;
/// the end of the file stops the count; a read error stops it with the line count and the
/// last line read so far.
pub open spec fn rows_scan(reads: Seq<ReadModel>, k: int) -> RowsModel
    decreases k,
{
    if k <= 0 {
        RowsModel::Counting { n: 0, last: " "@ }
    } else {
        match rows_scan(reads, k - 1) {
            RowsModel::Counting { n, last } => match reads[k - 1] {
                ReadModel::Line(l) => RowsModel::Counting { n: n + 1, last: l },
                ReadModel::End => RowsModel::Done { n },
                ReadModel::Failed(_, d) => RowsModel::Failed { n, last, debug: d },
            },
            other => other,
        }
    }
}

/// The number of rows of a listing read as `reads`, or the message of the read error.
pub open spec fn rows_spec(reads: Seq<ReadModel>) -> Result<nat, Seq<char>> {
    match rows_scan(reads, reads.len() as int) {
        RowsModel::Counting { n, .. } => Ok(n),
        RowsModel::Done { n } => Ok(n),
        RowsModel::Failed { n, last, debug } => Err(
            "error "@ + debug + " reading window dir file line "@ + dec_seq(n) + " "@ + last,
        ),
    }
}

/// The state and action after `msg`. The console line is cleared by every message but a
/// drained progress message that is not a progress reading.
pub open spec fn update_spec(s: WindowModel, msg: MessageModel) -> (WindowModel, Action) {
    let s = WindowModel { console: None, ..s };
    match msg {
        MessageModel::WindirPressed => (s, Action::PickWindir),
        MessageModel::WindirPicked(code, errstr, newinput) => if code == 0 {
            (WindowModel { msg: errstr, pending: Some(newinput), ..s }, Action::ProbeWindir)
        } else {
            (WindowModel { msg: errstr, color: MessColor::Red, ..s }, Action::Nothing)
        },
        MessageModel::WindirExists(b) => match s.pending {
            Some(p) => if b {
                (
                    WindowModel {
                        color: MessColor::Green,
                        windir: p,
                        rows: 0,
                        pending: None,
                        ..s
                    },
                    Action::CountWindirRows,
                )
            } else {
                (
                    WindowModel {
                        color: MessColor::Red,
                        msg: "window dir file does not exist: "@ + p,
                        pending: None,
                        ..s
                    },
                    Action::Nothing,
                )
            },
            None => (s, Action::Nothing),
        },
        MessageModel::WindirRows(reads) => match rows_spec(reads) {
            Ok(n) => if n <= u64::MAX {
                (
                    WindowModel {
                        rows: n,
                        color: MessColor::Green,
                        msg: "got window dir file and retrieved its number of rows"@,
                        ..s
                    },
                    Action::Nothing,
                )
            } else {
                (s, Action::Nothing)
            },
            Err(m) => (WindowModel { msg: m, color: MessColor::Red, ..s }, Action::Nothing),
        },
        MessageModel::ExcludeFilePressed => (s, Action::PickExclude),
        MessageModel::ExcludePicked(code, errstr, newinput) => if code == 0 {
            (
                WindowModel { msg: errstr, color: MessColor::Green, exclude: newinput, ..s },
                Action::Nothing,
            )
        } else {
            (WindowModel { msg: errstr, color: MessColor::Red, ..s }, Action::Nothing)
        },
        MessageModel::ExecPressed => (s, Action::CheckExec),
        MessageModel::ExecChecked(code, errstr) => if code == 0 {
            (WindowModel { msg: errstr, color: MessColor::Green, ..s }, Action::RunExec)
        } else {
            (WindowModel { msg: errstr, color: MessColor::Red, ..s }, Action::Nothing)
        },
        MessageModel::ExecxFound(code, errval) => (
            WindowModel {
                msg: errval,
                color: if code == 0 {
                    MessColor::Green
                } else {
                    MessColor::Red
                },
                do_progress: false,
                progress: None,
                ..s
            },
            Action::Nothing,
        ),
        MessageModel::ProgressPressed => (
            WindowModel { do_progress: true, ..s },
            Action::WaitProgress,
        ),
        MessageModel::ProgRtn => if s.do_progress {
            (s, Action::DrainProgress)
        } else {
            (s, Action::Nothing)
        },
        MessageModel::ProgressDrained(m) => if !s.do_progress {
            (s, Action::Nothing)
        } else {
            match m {
                None => (s, Action::WaitProgress),
                Some(t) => match progress_reading_spec(t) {
                    ProgressReading::Ratio(a, b) => (
                        WindowModel {
                            progress: Some((a, b)),
                            msg: "Convert progress: "@ + int_seq(a as int) + " of "@ + int_seq(
                                b as int,
                            ),
                            color: MessColor::Blue,
                            ..s
                        },
                        Action::WaitProgress,
                    ),
                    ProgressReading::NotNumeric => (
                        WindowModel { console: Some("progress numeric not numeric: "@ + t), ..s },
                        Action::WaitProgress,
                    ),
                    ProgressReading::NotProgress => (
                        WindowModel { console: Some("message not progress: "@ + t), ..s },
                        Action::WaitProgress,
                    ),
                },
            }
        },
    }
}

/// Counts the rows of a listing from the reads made of it.
pub fn count_rows(reads: &Vec<LineRead>) -> (r: Result<usize, String>)
    ensures
        r matches Ok(n) ==> rows_spec(read_models(reads@)) == Ok::<nat, Seq<char>>(n as nat),
        r matches Err(m) ==> rows_spec(read_models(reads@)) == Err::<nat, Seq<char>>(m@),
{
    let ghost models = read_models(reads@);
    let mut n: usize = 0;
    let mut last = String::from_str(" ");
    let mut i: usize = 0;
    while i < reads.len()
        invariant
            models == read_models(reads@),
            i <= reads.len(),
            n <= i,
            rows_scan(models, i as int) == (RowsModel::Counting { n: n as nat, last: last@ }),
        decreases reads.len() - i,
    {
        assert(models[i as int] == reads@[i as int]@);
        match &reads[i] {
            LineRead::Line(l) => {
                last = String::from_str(l.as_str());
                n = n + 1;
            },
            LineRead::End => {
                proof {
                    lemma_rows_stay(models, i + 1);
                }
                return Ok(n);
            },
            LineRead::Failed { debug, .. } => {
                let mut m = chars_of("error ");
                let d = chars_of(debug.as_str());
                extend_chars(&mut m, &d);
                let a = chars_of(" reading window dir file line ");
                extend_chars(&mut m, &a);
                push_dec(&mut m, n as u64);
                m.push(' ');
                let lc = chars_of(last.as_str());
                extend_chars(&mut m, &lc);
                proof {
                    lemma_rows_stay(models, i + 1);
                    reveal_strlit(" ");
                    assert(m@ =~= "error "@ + debug@ + " reading window dir file line "@ + dec_seq(
                        n as nat,
                    ) + " "@ + last@);
                }
                return Err(string_of(&m));
            },
        }
        i = i + 1;
    }
    Ok(n)
}

pub(crate) proof fn lemma_rows_stay(reads: Seq<ReadModel>, k: int)
    requires
        0 <= k <= reads.len(),
        !(rows_scan(reads, k) is Counting),
    ensures
        rows_scan(reads, reads.len() as int) == rows_scan(reads, k),
    decreases reads.len() - k,
{
    if k < reads.len() {
        lemma_rows_stay(reads, k + 1);
    }
}

impl Windirparse {
    /// The state at start: no listing, no exclusion file, no message, no progress.
    pub fn new() -> (r: Windirparse)
        ensures
            r@ == (WindowModel {
                windir: "--"@,
                exclude: "--"@,
                color: MessColor::Blue,
                msg: "no message"@,
                rows: 0,
                do_progress: false,
                progress: None,
                pending: None,
                console: None,
            }),
    {
        Windirparse {
            windir_value: String::from_str("--"),
            excludefile_value: String::from_str("--"),
            mess_color: MessColor::Blue,
            msg_value: String::from_str("no message"),
            rows_num: 0,
            do_progress: false,
            progress: None,
            pending: None,
            console: None,
        }
    }

    /// The window title.
    pub fn title(&self) -> (r: String)
        ensures
            r@ == "Windir parse of file list for just name and size, but creates another with time -- iced"@,
    {
        String::from_str(
            "Windir parse of file list for just name and size, but creates another with time -- iced",
        )
    }

    /// Applies `message` and returns the outside work to do next.
    pub fn update(&mut self, message: Message) -> (act: Action)
        ensures
            (final(self)@, act) == update_spec(old(self)@, message@),
    {
        self.console = None;
        match message {
            Message::WindirPressed => Action::PickWindir,
            Message::WindirPicked { errcode, errstr, newinput } => {
                self.msg_value = errstr;
                if errcode == 0 {
                    self.pending = Some(newinput);
                    Action::ProbeWindir
                } else {
                    self.mess_color = MessColor::Red;
                    Action::Nothing
                }
            },
            Message::WindirExists(b) => {
                match self.pending.take() {
                    Some(p) => if b {
                        self.mess_color = MessColor::Green;
                        self.windir_value = p;
                        self.rows_num = 0;
                        Action::CountWindirRows
                    } else {
                        self.mess_color = MessColor::Red;
                        let mut m = String::from_str("window dir file does not exist: ");
                        m.append(p.as_str());
                        self.msg_value = m;
                        Action::Nothing
                    },
                    None => Action::Nothing,
                }
            },
            Message::WindirRows(reads) => {
                match count_rows(&reads) {
                    Ok(n) => {
                        if (n as u64) as usize == n {
                            self.rows_num = n as u64;
                            self.mess_color = MessColor::Green;
                            self.msg_value = String::from_str(
                                "got window dir file and retrieved its number of rows",
                            );
                        }
                        Action::Nothing
                    },
                    Err(m) => {
                        self.msg_value = m;
                        self.mess_color = MessColor::Red;
                        Action::Nothing
                    },
                }
            },
            Message::ExcludeFilePressed => Action::PickExclude,
            Message::ExcludePicked { errcode, errstr, newinput } => {
                self.msg_value = errstr;
                if errcode == 0 {
                    self.mess_color = MessColor::Green;
                    self.excludefile_value = newinput;
                } else {
                    self.mess_color = MessColor::Red;
                }
                Action::Nothing
            },
            Message::ExecPressed => Action::CheckExec,
            Message::ExecChecked { errcode, errstr } => {
                self.msg_value = errstr;
                if errcode == 0 {
                    self.mess_color = MessColor::Green;
                    Action::RunExec
                } else {
                    self.mess_color = MessColor::Red;
                    Action::Nothing
                }
            },
            Message::ExecxFound(x) => {
                self.msg_value = x.errval;
                self.mess_color = if x.errcd == 0 {
                    MessColor::Green
                } else {
                    MessColor::Red
                };
                self.do_progress = false;
                self.progress = None;
                Action::Nothing
            },
            Message::ProgressPressed => {
                self.do_progress = true;
                Action::WaitProgress
            },
            Message::ProgRtn => if self.do_progress {
                Action::DrainProgress
            } else {
                Action::Nothing
            },
            Message::ProgressDrained(m) => {
                if !self.do_progress {
                    return Action::Nothing;
                }
                match m {
                    None => Action::WaitProgress,
                    Some(t) => {
                        match read_progress(t.as_str()) {
                            ProgressReading::Ratio(a, b) => {
                                let mut s = chars_of("Convert progress: ");
                                push_int(&mut s, a as i64);
                                let of = chars_of(" of ");
                                extend_chars(&mut s, &of);
                                push_int(&mut s, b as i64);
                                self.progress = Some((a, b));
                                self.msg_value = string_of(&s);
                                self.mess_color = MessColor::Blue;
                            },
                            ProgressReading::NotNumeric => {
                                let mut s = String::from_str("progress numeric not numeric: ");
                                s.append(t.as_str());
                                self.console = Some(s);
                            },
                            ProgressReading::NotProgress => {
                                let mut s = String::from_str("message not progress: ");
                                s.append(t.as_str());
                                self.console = Some(s);
                            },
                        }
                        Action::WaitProgress
                    },
                }
            },
        }
    }
}

} // verus!
