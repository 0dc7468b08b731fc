use windirparse::excludepress::{
    exclude_check_present, exclude_dialog_dir, exclude_header, exclude_picked, exclude_present,
    exclude_start_dir, exclude_wc,
};
use windirparse::execpress::{execpress, execpress_decide};
use windirparse::reads::LineRead;

fn line(s: &str) -> LineRead {
    LineRead::Line(s.to_string())
}

fn failed(s: &str) -> LineRead {
    LineRead::Failed { display: s.to_string(), debug: format!("Custom({:?})", s) }
}

fn triple(r: (u32, String, String)) -> (u32, String, String) {
    r
}

#[test]
fn execpress_decisions() {
    assert_eq!(execpress_decide(false, true, 50), (1, "the exclude file does not exist".to_string()));
    assert_eq!(execpress_decide(false, false, 50), (1, "the exclude file does not exist".to_string()));
    assert_eq!(execpress_decide(true, false, 50), (3, "the window dir file does not exist".to_string()));
    assert_eq!(execpress_decide(true, true, 10), (2, "The number of rows is less than 11".to_string()));
    assert_eq!(execpress_decide(true, true, 11), (0, "all good and now process execution".to_string()));
}

#[test]
fn execpress_on_disk() {
    let missing = "/no/such/file/for/windirparse".to_string();
    assert_eq!(execpress("/".to_string(), 20, missing.clone()).0, 1);
    assert_eq!(execpress(missing.clone(), 20, "/".to_string()).0, 3);
    assert_eq!(execpress("/".to_string(), 3, "/".to_string()).0, 2);
    assert_eq!(
        execpress("/".to_string(), 11, "/".to_string()),
        (0, "all good and now process execution".to_string())
    );
}

#[test]
fn dialog_start_directory() {
    assert_eq!(exclude_start_dir("/tmp/ex.txt", false), Some("/".to_string()));
    assert_eq!(exclude_start_dir("/tmp/ex.txt", true), Some("/tmp".to_string()));
    assert_eq!(exclude_start_dir("/", true), None);
    assert_eq!(exclude_dialog_dir("/no/such/dir/ex.txt"), Some("/".to_string()));
    assert_eq!(exclude_dialog_dir("/tmp"), Some("/".to_string()));
}

#[test]
fn picked_and_present() {
    assert_eq!(
        exclude_picked("/start".to_string(), None),
        Err((1, "error getting exclude file -- possible cancel key hit".to_string(), "/start".to_string()))
    );
    assert_eq!(exclude_picked("/start".to_string(), Some("/x".to_string())), Ok("/x".to_string()));
    assert_eq!(
        exclude_present("/x".to_string(), false),
        Err((2, "The exclude file does not exist: /x".to_string(), "/x".to_string()))
    );
    assert_eq!(exclude_present("/x".to_string(), true), Ok("/x".to_string()));
    assert_eq!(exclude_check_present("/".to_string()), Ok("/".to_string()));
    assert_eq!(exclude_check_present("/no/such/x".to_string()).unwrap_err().0, 2);
}

#[test]
fn wc_counts() {
    let p = "/e.txt".to_string();
    assert_eq!(exclude_wc(p.clone(), "12 /e.txt\n"), Ok(p.clone()));
    assert_eq!(
        exclude_wc(p.clone(), "1 /e.txt\n"),
        Err((4, "size of 1 is less than 2 for /e.txt".to_string(), p.clone()))
    );
    assert_eq!(exclude_wc(p.clone(), "0 /e.txt\n").unwrap_err().0, 4);
    assert_eq!(
        exclude_wc(p.clone(), "abc /e.txt\n"),
        Err((3, "size of abc is invalid for wc -l command call for exclude file".to_string(), p.clone()))
    );
    assert_eq!(exclude_wc(p.clone(), "-9999 x").unwrap_err().0, 3);
    assert_eq!(
        exclude_wc(p.clone(), "  12 /e.txt"),
        Err((3, "size of  is invalid for wc -l command call for exclude file".to_string(), p.clone()))
    );
    assert_eq!(exclude_wc(p.clone(), "-3 x"), Ok(p.clone()));
}

#[test]
fn header_checks() {
    let p = "/e.txt".to_string();
    let ok = triple(exclude_header(p.clone(), &vec![line("exclude file\n"), line("d tmp\n")]));
    assert_eq!(ok, (0, "got file".to_string(), p.clone()));
    let ok = exclude_header(p.clone(), &vec![line("  exclude file  \r\n"), line("x"), LineRead::End]);
    assert_eq!(ok.0, 0);
    assert_eq!(
        exclude_header(p.clone(), &vec![line("exclusions\n"), line("d tmp\n")]),
        (6, "first line of exclude file is not valid: exclusions\n".to_string(), p.clone())
    );
    assert_eq!(
        exclude_header(p.clone(), &vec![]),
        (5, "exclude file is has no records".to_string(), p.clone())
    );
    assert_eq!(exclude_header(p.clone(), &vec![line("exclusions\n"), LineRead::End]).0, 5);
    assert_eq!(
        exclude_header(p.clone(), &vec![failed("bad utf-8")]),
        (7, "error of bad utf-8 reading exclude file /e.txt".to_string(), p.clone())
    );
    assert_eq!(exclude_header(p.clone(), &vec![line("exclusions\n"), failed("oops")]).0, 7);
}
