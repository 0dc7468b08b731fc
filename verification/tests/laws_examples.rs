use windirparse::exclusions::Exclusions;
use windirparse::numtext::{parse_i64, push_int};
use windirparse::progress::{read_progress, ProgressReading};
use windirparse::reads::LineRead;
use windirparse::records::name_dir;
use windirparse::run::{output_names, ExecRun};
use windirparse::window::{Action, Message, Windirparse};

#[test]
fn int_text_reads_back() {
    for v in [0i64, 7, -7, 1234567890, i64::MAX, i64::MIN] {
        let mut t = Vec::new();
        push_int(&mut t, v);
        assert_eq!(parse_i64(&t), Some(v));
    }
}

#[test]
fn progress_sent_reads_back() {
    let x = Exclusions { dirs: vec![], files: vec![] };
    let mut run = ExecRun::new(250, &x, 1);
    let out = run.step(LineRead::Line("header\n".to_string()));
    let msg = out.progress.unwrap();
    assert_eq!(read_progress(&msg), ProgressReading::Ratio(1, 250));
}

#[test]
fn name_and_dir_rebuild_the_path() {
    let full: Vec<char> = "C:\\a\\b\\c.txt".chars().collect();
    let (name, dir) = name_dir(&full);
    let mut rebuilt = dir.clone();
    rebuilt.push('\\');
    rebuilt.extend(name.iter());
    assert_eq!(rebuilt, full);
    assert!(!name.contains(&'\\'));
}

#[test]
fn suffixes_give_distinct_names() {
    assert_ne!(output_names("w", 1).0, output_names("w", 10).0);
    assert_ne!(output_names("w", 5).0, output_names("w", 50).0);
}

#[test]
fn run_end_stops_progress_loop() {
    let mut w = Windirparse::new();
    assert_eq!(w.update(Message::ProgressPressed), Action::WaitProgress);
    assert_eq!(w.update(Message::ProgRtn), Action::DrainProgress);
    w.update(Message::ExecxFound(windirparse::run::Execx { errcd: 0, errval: "done".to_string() }));
    assert_eq!(w.update(Message::ProgRtn), Action::Nothing);
}

#[test]
fn run_asked_only_after_passing_checks() {
    let mut w = Windirparse::new();
    assert_eq!(w.update(Message::ExecPressed), Action::CheckExec);
    let (code, msg) = windirparse::execpress::execpress_decide(true, true, 10);
    assert_eq!(code, 2);
    assert_eq!(w.update(Message::ExecChecked { errcode: code, errstr: msg }), Action::Nothing);
    let (code, msg) = windirparse::execpress::execpress_decide(true, true, 11);
    assert_eq!(w.update(Message::ExecChecked { errcode: code, errstr: msg }), Action::RunExec);
}

#[test]
fn progress_denominator_is_the_row_count() {
    let x = Exclusions { dirs: vec![], files: vec![] };
    let mut run = ExecRun::new(11, &x, 1);
    let out = run.step(LineRead::Line("header\n".to_string()));
    assert_eq!(read_progress(&out.progress.unwrap()), ProgressReading::Ratio(1, 11));
}
