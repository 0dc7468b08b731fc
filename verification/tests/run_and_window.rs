use windirparse::exclusions::Exclusions;
use windirparse::progress::{read_progress, ProgressReading};
use windirparse::reads::LineRead;
use windirparse::records::Sink;
use windirparse::run::{find_output_suffix, output_names, suffix_probe, ExecRun, Execx, SuffixProbe};
use windirparse::window::{count_rows, Action, MessColor, Message, Windirparse};

fn line(s: &str) -> LineRead {
    LineRead::Line(s.to_string())
}

#[test]
fn output_file_names() {
    assert_eq!(
        output_names("/d/list.txt", 1),
        ("/d/list.txt_out01.csv".to_string(), "/d/list.txt_excluded01.excout".to_string())
    );
    assert_eq!(
        output_names("/d/list.txt", 12),
        ("/d/list.txt_out12.csv".to_string(), "/d/list.txt_excluded12.csv".to_string())
    );
    assert_eq!(output_names("w", 100).0, "w_out100.csv");
}

#[test]
fn suffix_probe_decisions() {
    assert_eq!(suffix_probe(1, false, false), SuffixProbe::Free);
    assert_eq!(suffix_probe(1, true, false), SuffixProbe::Next(2));
    assert_eq!(suffix_probe(7, false, true), SuffixProbe::Next(8));
    assert_eq!(suffix_probe(u32::MAX, true, true), SuffixProbe::Exhausted);
}

#[test]
fn free_suffix_for_a_new_listing() {
    assert_eq!(find_output_suffix("/nonexistent-dir-for-tests/listing.txt"), Some(1));
}

#[test]
fn run_over_a_listing() {
    let x = Exclusions { dirs: vec!["Temp".to_string()], files: vec![".log".to_string()] };
    let mut run = ExecRun::new(4, &x, 3);
    let rows = [
        "header\n",
        "more header\n",
        "\"C:\\Temp\\a.txt\",\"2017-11-25T22:34:50Z\",\"10\"\n",
        "\"C:\\Data\\b.log\",\"2017-11-25T22:34:50Z\",\"20\"\n",
        "\"C:\\Data\\c.txt\",\"2017-11-25T22:34:50Z\",\"30\"\n",
        "\"C:\\Data\\d.txt\",\"2017-11-25T22:34:50Z\",\"40\"\n",
    ];
    let mut outs = Vec::new();
    for r in rows.iter() {
        if run.is_finished() {
            break;
        }
        outs.push(run.step(line(r)));
    }
    assert_eq!(outs.len(), 5);
    assert!(outs[0].record.is_none());
    assert_eq!(outs[0].progress.as_deref(), Some("Progress|1|4"));
    let r2 = outs[2].record.as_ref().unwrap();
    assert_eq!(r2.sink, Sink::ExcludedByDir);
    assert_eq!(r2.text, "a.txt|C:\\Temp|2017-11-25 22:34:50|10|d");
    assert_eq!(outs[3].record.as_ref().unwrap().sink, Sink::ExcludedByFile);
    assert_eq!(outs[4].record.as_ref().unwrap().text, "c.txt|C:\\Data|2017-11-25 22:34:50|30|good");
    assert_eq!(outs[4].progress.as_deref(), Some("Progress|5|4"));
    assert!(outs[4].finished);
    assert_eq!(run.lines_read(), 5);
    let done: Execx = run.finish();
    assert_eq!(done.errcd, 0);
    assert_eq!(done.errval, "Completed: good: 1 excluded: 2 suffix number: 3");
}

#[test]
fn run_ends_on_read_error_or_end() {
    let x = Exclusions { dirs: vec![], files: vec![] };
    let mut run = ExecRun::new(100, &x, 1);
    let o = run.step(line("h\n"));
    assert!(!o.finished);
    let o = run.step(LineRead::Failed { display: "d".to_string(), debug: "Kind(X)".to_string() });
    assert!(o.finished && o.record.is_none() && o.progress.is_none());
    let done = run.finish();
    assert_eq!(done.errcd, 5);
    assert_eq!(done.errval, "error Kind(X) reading windows dir file");
    let mut run = ExecRun::new(100, &x, 2);
    assert!(run.step(LineRead::End).finished);
    assert_eq!(run.finish().errval, "Completed: good: 0 excluded: 0 suffix number: 2");
}

#[test]
fn progress_messages() {
    assert_eq!(read_progress("Progress|3|20"), ProgressReading::Ratio(3, 20));
    assert_eq!(read_progress("Progress|-9999|20"), ProgressReading::NotNumeric);
    assert_eq!(read_progress("Progress|3|x"), ProgressReading::NotNumeric);
    assert_eq!(read_progress("Progress|3000000000|20"), ProgressReading::NotNumeric);
    assert_eq!(read_progress("Progres|3|20"), ProgressReading::NotProgress);
    assert_eq!(read_progress("Progress|3|20|1"), ProgressReading::NotProgress);
}

#[test]
fn row_count() {
    assert_eq!(count_rows(&vec![line("a\n"), line("b"), LineRead::End]), Ok(2));
    assert_eq!(count_rows(&vec![]), Ok(0));
    let r = count_rows(&vec![
        line("a\n"),
        line("b\n"),
        LineRead::Failed { display: "x".to_string(), debug: "Err".to_string() },
    ]);
    assert_eq!(r, Err("error Err reading window dir file line 2 b\n".to_string()));
    let r = count_rows(&vec![LineRead::Failed { display: "x".to_string(), debug: "E".to_string() }]);
    assert_eq!(r, Err("error E reading window dir file line 0  ".to_string()));
}

#[test]
fn interface_flow() {
    let mut w = Windirparse::new();
    assert_eq!(w.windir_value, "--");
    assert_eq!(w.msg_value, "no message");
    assert_eq!(w.mess_color, MessColor::Blue);
    assert!(w.title().starts_with("Windir parse"));
    assert_eq!(w.update(Message::WindirPressed), Action::PickWindir);
    let a = w.update(Message::WindirPicked {
        errcode: 0,
        errstr: "got file".to_string(),
        newinput: "/l.txt".to_string(),
    });
    assert_eq!(a, Action::ProbeWindir);
    assert_eq!(w.update(Message::WindirExists(true)), Action::CountWindirRows);
    assert_eq!(w.windir_value, "/l.txt");
    assert_eq!(w.mess_color, MessColor::Green);
    let reads: Vec<LineRead> = (0..12).map(|i| line(&format!("{}\n", i))).collect();
    assert_eq!(w.update(Message::WindirRows(reads)), Action::Nothing);
    assert_eq!(w.rows_num, 12);
    assert_eq!(w.msg_value, "got window dir file and retrieved its number of rows");
    w.update(Message::WindirPicked { errcode: 0, errstr: "m".to_string(), newinput: "/zz".to_string() });
    assert_eq!(w.update(Message::WindirExists(false)), Action::Nothing);
    assert_eq!(w.msg_value, "window dir file does not exist: /zz");
    assert_eq!(w.mess_color, MessColor::Red);
    assert_eq!(w.windir_value, "/l.txt");

    assert_eq!(w.update(Message::ExcludeFilePressed), Action::PickExclude);
    w.update(Message::ExcludePicked { errcode: 0, errstr: "got file".to_string(), newinput: "/e".to_string() });
    assert_eq!(w.excludefile_value, "/e");
    w.update(Message::ExcludePicked { errcode: 1, errstr: "cancel".to_string(), newinput: "/".to_string() });
    assert_eq!(w.excludefile_value, "/e");
    assert_eq!(w.mess_color, MessColor::Red);

    assert_eq!(w.update(Message::ExecPressed), Action::CheckExec);
    assert_eq!(w.update(Message::ExecChecked { errcode: 2, errstr: "few".to_string() }), Action::Nothing);
    assert_eq!(w.update(Message::ExecChecked { errcode: 0, errstr: "ok".to_string() }), Action::RunExec);

    assert_eq!(w.update(Message::ProgRtn), Action::Nothing);
    assert_eq!(w.update(Message::ProgressPressed), Action::WaitProgress);
    assert_eq!(w.update(Message::ProgRtn), Action::DrainProgress);
    assert_eq!(w.update(Message::ProgressDrained(Some("Progress|3|12".to_string()))), Action::WaitProgress);
    assert_eq!(w.progress, Some((3, 12)));
    assert_eq!(w.msg_value, "Convert progress: 3 of 12");
    assert_eq!(w.mess_color, MessColor::Blue);
    assert_eq!(w.update(Message::ProgressDrained(Some("hello".to_string()))), Action::WaitProgress);
    assert_eq!(w.console.as_deref(), Some("message not progress: hello"));
    w.update(Message::ProgressDrained(Some("Progress|a|1".to_string())));
    assert_eq!(w.console.as_deref(), Some("progress numeric not numeric: Progress|a|1"));
    assert_eq!(w.update(Message::ProgressDrained(None)), Action::WaitProgress);
    assert_eq!(w.console, None);

    let a = w.update(Message::ExecxFound(Execx { errcd: 0, errval: "Completed".to_string() }));
    assert_eq!(a, Action::Nothing);
    assert!(!w.do_progress);
    assert_eq!(w.progress, None);
    assert_eq!(w.mess_color, MessColor::Green);
    assert_eq!(w.update(Message::ProgRtn), Action::Nothing);
    w.update(Message::ExecxFound(Execx { errcd: 3, errval: "bad".to_string() }));
    assert_eq!(w.mess_color, MessColor::Red);
}

#[test]
fn dates_read_only_after_the_header_lines() {
    let x = Exclusions { dirs: vec![], files: vec![] };
    let mut run = ExecRun::new(20, &x, 1);
    let bad = line("\"C:\\a.txt\",\"2021-01-01 +9900\",\"1\"\n");
    assert!(run.can_step(&bad));
    let out = run.step(bad);
    assert!(out.record.is_none());
    let bad2 = line("\"C:\\a.txt\",\"2021-01-01 +9900\",\"1\"\n");
    assert!(run.can_step(&bad2));
    run.step(bad2);
    let bad3 = line("\"C:\\a.txt\",\"2021-01-01 +9900\",\"1\"\n");
    assert!(!run.can_step(&bad3));
    let good = line("\"C:\\a.txt\",\"2017-11-25T22:34:50Z\",\"1\"\n");
    assert!(run.can_step(&good));
    let out = run.step(good);
    assert_eq!(out.record.unwrap().text, "a.txt|C:|2017-11-25 22:34:50|1|good");
}
