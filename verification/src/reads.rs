//! The outcome of reading one line of a text file, as the file readers report it.

use vstd::prelude::*;

verus! {

/// One attempt to read a line: the line that was read (with its line terminator), the end of
/// the file, or an error, given by its `Display` and its `Debug` text.
pub enum LineRead {
    Line(String),
    End,
    Failed { display: String, debug: String },
}

/// `LineRead` with its strings taken as character sequences.
pub enum ReadModel {
    Line(Seq<char>),
    End,
    Failed(Seq<char>, Seq<char>),
}

impl View for LineRead {
    type V = ReadModel;

    open spec fn view(&self) -> ReadModel {
        match self {
            LineRead::Line(s) => ReadModel::Line(s@),
            LineRead::End => ReadModel::End,
            LineRead::Failed { display, debug } => ReadModel::Failed(display@, debug@),
        }
    }
}

/// The `k`-th read of a sequence of reads; reads past its end give the end of the file.
pub open spec fn read_at(reads: Seq<ReadModel>, k: int) -> ReadModel {
    if 0 <= k < reads.len() {
        reads[k]
    } else {
        ReadModel::End
    }
}

/// The reads of a vector, as models.
pub open spec fn read_models(reads: Seq<LineRead>) -> Seq<ReadModel> {
    reads.map_values(|r: LineRead| r@)
}

} // verus!
