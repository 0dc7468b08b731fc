//! Properties that relate several functions of the library.

use vstd::prelude::*;
use crate::numtext::{
    all_digits, dec_seq, digit_char, digit_value, digits_value, int_seq, is_digit, pad2_seq,
    parse_i64_seq, parse_int_seq,
};
use crate::execpress::execpress_spec;
use crate::progress::{progress_reading_spec, ProgressReading};
use crate::excludepress::wc_spec;
use crate::exclusions::{cut2_ok, cut2_index, exclusions_spec, scan, utf8_len, utf8_width, ScanModel};
use crate::reads::ReadModel;
use crate::records::{fields_of, name_dir_spec, record_spec, Sink};
use crate::run::{output_names_spec, progress_spec};
use crate::text::{contains_seq, last_index_seq, split_seq, trim_seq};
use crate::window::{
    lemma_rows_stay, rows_scan, rows_spec, update_spec, Action, MessColor, MessageModel, RowsModel,
    WindowModel,
};

verus! {

proof fn lemma_digit(d: int)
    requires
        0 <= d < 10,
    ensures
        is_digit(digit_char(d)),
        digit_value(digit_char(d)) == d,
{
}

/// The decimal text of a number is made of digits, and their value is the number.
pub proof fn lemma_dec_digits(n: nat)
    ensures
        dec_seq(n).len() >= 1,
        all_digits(dec_seq(n)),
        digits_value(dec_seq(n)) == n,
    decreases n,
{
    if n < 10 {
        lemma_digit(n as int);
        let s = dec_seq(n);
        assert(s.drop_last().len() == 0);
        assert(digits_value(s.drop_last()) == 0);
    } else {
        lemma_dec_digits(n / 10);
        lemma_digit((n % 10) as int);
        let p = dec_seq(n / 10);
        let s = dec_seq(n);
        assert(s.drop_last() == p);
        assert(s.last() == digit_char((n % 10) as int));
        assert forall|i: int| 0 <= i < s.len() implies is_digit(#[trigger] s[i]) by {
            if i < p.len() {
                assert(s[i] == p[i]);
            }
        }
    }
}

/// Reading back the decimal text of any `i64` gives the same number: what `{}` prints,
/// `str::parse::<i64>` reads.
pub proof fn law_int_text_round_trip(v: i64)
    ensures
        parse_i64_seq(int_seq(v as int)) == Some(v as int),
{
    if v < 0 {
        let m = (-v) as nat;
        lemma_dec_digits(m);
        let s = int_seq(v as int);
        assert(s.drop_first() == dec_seq(m));
        assert(s[0] == '-');
    } else {
        lemma_dec_digits(v as nat);
        let s = dec_seq(v as nat);
        assert(is_digit(s[0]));
    }
}

/// Appending text without the separator only lengthens the last piece of a split.
proof fn lemma_split_extend(p: Seq<char>, s: Seq<char>, sep: char)
    requires
        forall|i: int| 0 <= i < s.len() ==> s[i] != sep,
    ensures
        split_seq(p + s, sep) == split_seq(p, sep).update(
            split_seq(p, sep).len() - 1,
            split_seq(p, sep).last() + s,
        ),
    decreases s.len(),
{
    crate::text::lemma_split_nonempty(p, sep);
    if s.len() == 0 {
        assert(p + s == p);
        assert(split_seq(p, sep).last() + s == split_seq(p, sep).last());
        assert(split_seq(p, sep).update(split_seq(p, sep).len() - 1, split_seq(p, sep).last())
            == split_seq(p, sep));
    } else {
        let s1 = s.drop_last();
        lemma_split_extend(p, s1, sep);
        assert((p + s).drop_last() == p + s1);
        assert((p + s).last() == s.last());
        crate::text::lemma_split_nonempty(p + s1, sep);
        let q = split_seq(p, sep);
        let prev = split_seq(p + s1, sep);
        assert(prev == q.update(q.len() - 1, q.last() + s1));
        assert(s[s.len() - 1] != sep);
        assert(split_seq(p + s, sep) == prev.update(prev.len() - 1, prev.last().push(s.last())));
        assert(prev.len() == q.len());
        assert(prev.last() == q.last() + s1);
        assert((q.last() + s1).push(s.last()) =~= q.last() + s);
        assert(split_seq(p + s, sep) =~= q.update(q.len() - 1, q.last() + s));
    }
}

proof fn lemma_digits_no_sep(n: nat, sep: char)
    requires
        !is_digit(sep),
    ensures
        forall|i: int| 0 <= i < dec_seq(n).len() ==> dec_seq(n)[i] != sep,
{
    lemma_dec_digits(n);
    assert forall|i: int| 0 <= i < dec_seq(n).len() implies dec_seq(n)[i] != sep by {
        assert(is_digit(dec_seq(n)[i]));
    }
}

/// A progress message is split by `|` into `Progress` and the decimal texts of the line
/// number and the row count, and those texts read as the two numbers.
proof fn lemma_progress_parts(linenum: nat, numrows: nat)
    ensures
        split_seq(progress_spec(linenum, numrows), '|') == seq![
            "Progress"@,
            dec_seq(linenum),
            dec_seq(numrows),
        ],
        parse_int_seq(dec_seq(linenum)) == Some(linenum as int),
        parse_int_seq(dec_seq(numrows)) == Some(numrows as int),
{
    reveal_strlit("Progress|");
    reveal_strlit("Progress");
    reveal_strlit("|");
    let a = dec_seq(linenum);
    let b = dec_seq(numrows);
    let head = "Progress"@;
    let e = Seq::<char>::empty();
    lemma_digits_no_sep(linenum, '|');
    lemma_digits_no_sep(numrows, '|');
    assert forall|i: int| 0 <= i < head.len() implies head[i] != '|' by {}
    lemma_split_extend(e, head, '|');
    assert(e + head == head);
    assert(split_seq(e, '|') == seq![e]);
    assert(split_seq(head, '|') =~= seq![head]);
    let h1 = head.push('|');
    assert(h1.drop_last() == head);
    assert(h1.last() == '|');
    assert(split_seq(h1, '|') =~= seq![head, e]);
    assert("Progress|"@ == h1);
    lemma_split_extend(h1, a, '|');
    assert(split_seq(h1 + a, '|') =~= seq![head, a]);
    let h2 = (h1 + a).push('|');
    assert(split_seq(h2, '|') =~= seq![head, a, e]) by {
        assert(h2.drop_last() == h1 + a);
    }
    lemma_split_extend(h2, b, '|');
    assert(split_seq(h2 + b, '|') =~= seq![head, a, b]);
    assert(progress_spec(linenum, numrows) == h2 + b) by {
        assert("|"@ == seq!['|']);
        assert(h1 + a + "|"@ =~= h2);
    }
    lemma_dec_digits(linenum);
    lemma_dec_digits(numrows);
    assert(is_digit(a[0]));
    assert(is_digit(b[0]));
}

/// Reading back a progress message sent by a run gives the line number and the row count it
/// was sent with, as long as both fit in an `i32`.
pub proof fn law_progress_round_trip(linenum: nat, numrows: nat)
    requires
        linenum <= i32::MAX,
        numrows <= i32::MAX,
    ensures
        progress_reading_spec(progress_spec(linenum, numrows)) == ProgressReading::Ratio(
            linenum as i32,
            numrows as i32,
        ),
{
    lemma_progress_parts(linenum, numrows);
}

/// The interface asks for a run only in answer to the checks before a run, and only where
/// they answered 0.
pub proof fn law_run_only_after_checks(s: WindowModel, m: MessageModel)
    ensures
        update_spec(s, m).1 == Action::RunExec ==> (m matches MessageModel::ExecChecked(code, _)
            && code == 0),
{
}

/// Where the checks before a run are made for the row count of the state and the interface
/// then asks for a run, that row count is at least 11 and the row count is kept; and a
/// progress message of a run over that many rows that reads as a ratio has that row count,
/// so at least 11, as its denominator.
pub proof fn law_progress_denominator(s: WindowModel, e: bool, w: bool, linenum: nat)
    requires
        s.rows <= u64::MAX,
        ({
            let c = execpress_spec(e, w, s.rows as u64);
            update_spec(s, MessageModel::ExecChecked(c.0, c.1)).1 == Action::RunExec
        }),
    ensures
        s.rows >= 11,
        ({
            let c = execpress_spec(e, w, s.rows as u64);
            update_spec(s, MessageModel::ExecChecked(c.0, c.1)).0.rows == s.rows
        }),
        progress_reading_spec(progress_spec(linenum, s.rows)) matches ProgressReading::Ratio(_, b)
            ==> b == s.rows && b >= 11,
{
    lemma_progress_parts(linenum, s.rows);
}

/// A full path with a directory part is the directory, a backslash and the name, and the
/// name holds no backslash.
pub proof fn law_name_dir_rebuild(full: Seq<char>)
    ensures
        ({
            let nd = name_dir_spec(full);
            nd.1.len() > 0 ==> (full == nd.1 + seq!['\\'] + nd.0 && forall|i: int|
                0 <= i < nd.0.len() ==> nd.0[i] != '\\')
        }),
{
    lemma_last_index(full, '\\');
    match last_index_seq(full, '\\') {
        Some(i) => {
            if i >= 1 {
                assert(full =~= full.take(i) + seq!['\\'] + full.skip(i + 1));
                let name = full.skip(i + 1);
                assert forall|k: int| 0 <= k < name.len() implies #[trigger] name[k] != '\\' by {
                    assert(name[k] == full[i + 1 + k]);
                }
            }
        },
        None => {},
    }
}

proof fn lemma_last_index(s: Seq<char>, c: char)
    ensures
        last_index_seq(s, c) matches Some(i) ==> 0 <= i < s.len() && s[i] == c && forall|k: int|
            i < k < s.len() ==> s[k] != c,
        last_index_seq(s, c) is None ==> forall|k: int| 0 <= k < s.len() ==> s[k] != c,
    decreases s.len(),
{
    if s.len() > 0 {
        lemma_last_index(s.drop_last(), c);
        if s.last() != c {
            assert forall|k: int| 0 <= k < s.len() - 1 implies s[k] == s.drop_last()[k] by {}
        }
    }
}

proof fn lemma_leading_zero(s: Seq<char>)
    ensures
        digits_value(seq!['0'] + s) == digits_value(s),
    decreases s.len(),
{
    let z = seq!['0'];
    if s.len() == 0 {
        assert(z + s == z);
        assert(z.drop_last().len() == 0);
        assert(digits_value(z.drop_last()) == 0);
        assert(digits_value(z) == digits_value(z.drop_last()) * 10 + digit_value(z.last()));
    } else {
        lemma_leading_zero(s.drop_last());
        assert((z + s).drop_last() == z + s.drop_last());
        assert((z + s).last() == s.last());
        assert(digits_value(z + s) == digits_value((z + s).drop_last()) * 10 + digit_value(
            (z + s).last(),
        ));
    }
}

proof fn lemma_pad2_value(n: nat)
    ensures
        digits_value(pad2_seq(n)) == n,
{
    lemma_dec_digits(n);
    if n < 10 {
        lemma_leading_zero(dec_seq(n));
    }
}

/// Different suffix numbers give different names for the file of kept records, so a suffix
/// found free is not confused with another.
pub proof fn law_output_names_distinct(windir: Seq<char>, a: nat, b: nat)
    requires
        a != b,
    ensures
        output_names_spec(windir, a).0 != output_names_spec(windir, b).0,
{
    let pre = windir + "_out"@;
    let suf = ".csv"@;
    let x = pad2_seq(a);
    let y = pad2_seq(b);
    lemma_pad2_value(a);
    lemma_pad2_value(b);
    if output_names_spec(windir, a).0 == output_names_spec(windir, b).0 {
        let s = pre + x + suf;
        let t = pre + y + suf;
        assert(s == t);
        assert(x.len() == y.len());
        assert(s.subrange(pre.len() as int, (pre.len() + x.len()) as int) == x);
        assert(t.subrange(pre.len() as int, (pre.len() + y.len()) as int) == y);
        assert(x == y);
    }
}

/// Once a run has ended, the next firing of the progress timer asks for nothing more: the
/// progress loop stops.
pub proof fn law_run_end_stops_progress(s: WindowModel, code: u32, errval: Seq<char>)
    ensures
        ({
            let after = update_spec(s, MessageModel::ExecxFound(code, errval)).0;
            &&& !after.do_progress
            &&& after.progress is None
            &&& update_spec(after, MessageModel::ProgRtn).1 == Action::Nothing
        }),
{
}

/// Pressing the progress button and letting the timer fire asks to drain the progress
/// messages, whatever the state was.
pub proof fn law_progress_press_then_drain(s: WindowModel)
    ensures
        ({
            let (after, act) = update_spec(s, MessageModel::ProgressPressed);
            &&& act == Action::WaitProgress
            &&& update_spec(after, MessageModel::ProgRtn).1 == Action::DrainProgress
        }),
{
}

/// A listing pick that reports an error leaves the listing alone: nothing more is asked for,
/// the message turns red and shows the picker's text, and the listing, its row count and the
/// listing waiting to be looked at stay as they were. A pick without error asks to look at the
/// picked file, which waits without yet replacing the listing.
pub proof fn law_failed_pick_keeps_listing(
    s: WindowModel,
    code: u32,
    errstr: Seq<char>,
    newinput: Seq<char>,
)
    ensures
        ({
            let (t, act) = update_spec(s, MessageModel::WindirPicked(code, errstr, newinput));
            &&& code != 0 ==> {
                &&& act == Action::Nothing
                &&& t.color == MessColor::Red
                &&& t.msg == errstr
                &&& t.pending == s.pending
                &&& t.windir == s.windir
                &&& t.rows == s.rows
            }
            &&& code == 0 ==> {
                &&& act == Action::ProbeWindir
                &&& t.pending == Some(newinput)
                &&& t.windir == s.windir
                &&& t.rows == s.rows
            }
        }),
{
}

/// Every line read counts as a row, whatever it holds: reads of `k` lines, then the end of the
/// file or nothing more, give `k` rows.
pub proof fn law_every_line_is_a_row(reads: Seq<ReadModel>, k: nat)
    requires
        k <= reads.len(),
        forall|i: int| 0 <= i < k ==> #[trigger] reads[i] is Line,
        k == reads.len() || reads[k as int] is End,
    ensures
        rows_spec(reads) == Ok::<nat, Seq<char>>(k),
{
    lemma_rows_counting(reads, k as int);
    if k < reads.len() {
        assert(rows_scan(reads, k + 1 as int) == (RowsModel::Done { n: k }));
        lemma_rows_stay(reads, k + 1 as int);
    }
}

proof fn lemma_rows_counting(reads: Seq<ReadModel>, j: int)
    requires
        0 <= j <= reads.len(),
        forall|i: int| 0 <= i < j ==> #[trigger] reads[i] is Line,
    ensures
        rows_scan(reads, j) matches RowsModel::Counting { n, .. } && n == j,
    decreases j,
{
    if j > 0 {
        lemma_rows_counting(reads, j - 1);
        assert(reads[j - 1] is Line);
    }
}

/// A listing entry (line 3 on, seven quoted pieces or more) is excluded by file name exactly
/// when some file exclusion occurs in its file name, the text after the last backslash of its
/// path; otherwise it is excluded by directory exactly when some directory exclusion occurs in
/// the directory part; otherwise it is kept. The record is
/// `name|dir|date|size|` followed by `f`, `d` or `good`.
pub proof fn law_record_sinks(
    line: Seq<char>,
    n: int,
    dirs: Seq<Seq<char>>,
    files: Seq<Seq<char>>,
    date: Seq<char>,
)
    requires
        fields_of(line).len() > 6,
        n > 2,
    ensures
        ({
            let pieces = fields_of(line);
            let (name, dir) = name_dir_spec(pieces[1]);
            let file_hit = exists|i: int| 0 <= i < files.len() && #[trigger] contains_seq(name, files[i]);
            let dir_hit = exists|i: int| 0 <= i < dirs.len() && #[trigger] contains_seq(dir, dirs[i]);
            let body = name + "|"@ + dir + "|"@ + date + "|"@ + pieces[5];
            record_spec(line, n, dirs, files, date) == if file_hit {
                Some((Sink::ExcludedByFile, body + "|f"@))
            } else if dir_hit {
                Some((Sink::ExcludedByDir, body + "|d"@))
            } else {
                Some((Sink::Good, body + "|good"@))
            }
        }),
{
}

/// Splitting `p + r` keeps every piece of `p` but the last.
proof fn lemma_split_prefix(p: Seq<char>, r: Seq<char>, sep: char)
    ensures
        split_seq(p + r, sep).len() >= split_seq(p, sep).len(),
        forall|i: int|
            0 <= i < split_seq(p, sep).len() - 1 ==> split_seq(p + r, sep)[i] == split_seq(p, sep)[i],
    decreases r.len(),
{
    crate::text::lemma_split_nonempty(p, sep);
    if r.len() == 0 {
        assert(p + r == p);
    } else {
        let r1 = r.drop_last();
        lemma_split_prefix(p, r1, sep);
        assert((p + r).drop_last() == p + r1);
        assert((p + r).last() == r.last());
        crate::text::lemma_split_nonempty(p + r1, sep);
    }
}

/// When `wc -l` prints a count `n` followed by a space, the check of the count passes exactly
/// when `n` is at least 2; a count of 0 or 1 is error 4.
pub proof fn law_wc_counts(path: Seq<char>, n: nat, rest: Seq<char>)
    requires
        n <= i64::MAX,
    ensures
        n >= 2 ==> wc_spec(path, dec_seq(n) + " "@ + rest) is None,
        n < 2 ==> wc_spec(path, dec_seq(n) + " "@ + rest) == Some(
            (4u32, "size of "@ + dec_seq(n) + " is less than 2 for "@ + path),
        ),
{
    reveal_strlit(" ");
    let a = dec_seq(n);
    let e = Seq::<char>::empty();
    lemma_digits_no_sep(n, ' ');
    lemma_split_extend(e, a, ' ');
    assert(e + a == a);
    assert(split_seq(e, ' ') == seq![e]);
    assert(split_seq(a, ' ') =~= seq![a]);
    let a1 = a.push(' ');
    assert(a1.drop_last() == a);
    assert(split_seq(a1, ' ') =~= seq![a, e]);
    assert(" "@ == seq![' ']);
    assert(a + " "@ == a1);
    lemma_split_prefix(a1, rest, ' ');
    assert(split_seq(a1 + rest, ' ')[0] == a);
    assert(dec_seq(n) + " "@ + rest == a1 + rest);
    lemma_dec_digits(n);
    assert(is_digit(a[0]));
    assert(parse_int_seq(a) == Some(n as int));
    assert(int_seq(n as int) == a);
}

proof fn lemma_utf8_len_at_least(s: Seq<char>)
    ensures
        utf8_len(s) >= s.len(),
    decreases s.len(),
{
    if s.len() > 0 {
        lemma_utf8_len_at_least(s.drop_last());
    }
}

/// An exclusion line, trimmed, starts with `d ` (`dir`) or `f ` and holds something after it.
pub open spec fn exclusion_line(l: Seq<char>) -> bool {
    let e = trim_seq(l);
    e.len() >= 3 && (e.take(2) == "d "@ || e.take(2) == "f "@)
}

/// The texts after `d ` (for `dir`) or after `f ` of the trimmed lines `es`, in order.
pub open spec fn tagged_texts(es: Seq<Seq<char>>, dir: bool) -> Seq<Seq<char>> {
    let tag = if dir {
        "d "@
    } else {
        "f "@
    };
    es.map_values(|l: Seq<char>| trim_seq(l)).filter(|e: Seq<char>| e.take(2) == tag).map_values(
        |e: Seq<char>| e.skip(2),
    )
}

/// The reads of an exclusion file: its header line, the lines `es`, then the end of the file.
pub open spec fn exclusion_reads(header: Seq<char>, es: Seq<Seq<char>>) -> Seq<ReadModel> {
    seq![ReadModel::Line(header)] + es.map_values(|l: Seq<char>| ReadModel::Line(l)) + seq![
        ReadModel::End,
    ]
}

proof fn lemma_scan_lines(header: Seq<char>, es: Seq<Seq<char>>, k: int)
    requires
        0 <= k <= es.len(),
        forall|i: int| 0 <= i < es.len() ==> exclusion_line(#[trigger] es[i]),
    ensures
        scan(exclusion_reads(header, es), k + 1) == (ScanModel::Going {
            count: (k + 1) as nat,
            dirs: tagged_texts(es.take(k), true),
            files: tagged_texts(es.take(k), false),
        }),
    decreases k,
{
    let reads = exclusion_reads(header, es);
    reveal_strlit("d ");
    reveal_strlit("f ");
    if k == 0 {
        assert(reads[0] == ReadModel::Line(header));
        assert(es.take(0).map_values(|l: Seq<char>| trim_seq(l)) =~= Seq::<Seq<char>>::empty());
        reveal(Seq::filter);
        assert(tagged_texts(es.take(0), true) =~= Seq::<Seq<char>>::empty());
        assert(tagged_texts(es.take(0), false) =~= Seq::<Seq<char>>::empty());
    } else {
        lemma_scan_lines(header, es, k - 1);
        assert(reads[k] == ReadModel::Line(es[k - 1]));
        let e = trim_seq(es[k - 1]);
        assert(exclusion_line(es[k - 1]));
        lemma_utf8_len_at_least(e);
        assert(e.take(2)[0] == e[0] && e.take(2)[1] == e[1]);
        assert(e[0] == 'd' || e[0] == 'f');
        assert(e[1] == ' ');
        assert(utf8_width(e[0]) == 1 && utf8_width(e[1]) == 1);
        assert(cut2_ok(e));
        assert(cut2_index(e) == 2);
        let ts = es.take(k).map_values(|l: Seq<char>| trim_seq(l));
        let ts1 = es.take(k - 1).map_values(|l: Seq<char>| trim_seq(l));
        assert(ts.drop_last() =~= ts1);
        assert(ts.last() == e);
        reveal(Seq::filter);
        let pd = |x: Seq<char>| x.take(2) == "d "@;
        let pf = |x: Seq<char>| x.take(2) == "f "@;
        if e.take(2) == "d "@ {
            assert(ts.filter(pd) == ts1.filter(pd).push(e));
            assert(ts.filter(pf) == ts1.filter(pf));
            assert(tagged_texts(es.take(k), true) =~= tagged_texts(es.take(k - 1), true).push(
                e.skip(2),
            ));
            assert(tagged_texts(es.take(k), false) =~= tagged_texts(es.take(k - 1), false));
        } else {
            assert(e.take(2) == "f "@);
            assert(ts.filter(pf) == ts1.filter(pf).push(e));
            assert(ts.filter(pd) == ts1.filter(pd));
            assert(tagged_texts(es.take(k), false) =~= tagged_texts(es.take(k - 1), false).push(
                e.skip(2),
            ));
            assert(tagged_texts(es.take(k), true) =~= tagged_texts(es.take(k - 1), true));
        }
    }
}

/// An exclusion file made of a header line and valid exclusion lines reads as those
/// exclusions: the texts after `d ` become the directory exclusions and those after `f ` the
/// file-name exclusions, each in the order of the file. One exclusion line is enough; a file
/// with the header alone has no records (error 4).
pub proof fn law_exclusion_file_reads(path: Seq<char>, header: Seq<char>, es: Seq<Seq<char>>)
    requires
        forall|i: int| 0 <= i < es.len() ==> exclusion_line(#[trigger] es[i]),
    ensures
        es.len() >= 1 ==> exclusions_spec(path, exclusion_reads(header, es)) == Ok::<
            (Seq<Seq<char>>, Seq<Seq<char>>),
            (u32, Seq<char>),
        >((tagged_texts(es, true), tagged_texts(es, false))),
        es.len() == 0 ==> exclusions_spec(path, exclusion_reads(header, es)) == Err::<
            (Seq<Seq<char>>, Seq<Seq<char>>),
            (u32, Seq<char>),
        >((4u32, "exclusion file "@ + path + " has no records"@)),
{
    let reads = exclusion_reads(header, es);
    let n = es.len() as int;
    lemma_scan_lines(header, es, n);
    assert(es.take(n) == es);
    assert(reads.len() == n + 2);
    assert(reads[n + 1] == ReadModel::End);
    assert(scan(reads, n + 2) == (ScanModel::Ended {
        count: (n + 1) as nat,
        dirs: tagged_texts(es, true),
        files: tagged_texts(es, false),
    }));
}

} // verus!
