use windirparse::dates::{date_field, listing_date_text};
use windirparse::zones::date_readable;
use windirparse::exclusions::{exclusions_sliceable, parse_exclusions, Exclusions};
use windirparse::reads::LineRead;
use windirparse::records::{line_record, Sink};
use windirparse::text::chars_of;

fn line(s: &str) -> LineRead {
    LineRead::Line(s.to_string())
}

fn reads(lines: &[&str]) -> Vec<LineRead> {
    let mut v: Vec<LineRead> = lines.iter().map(|l| line(l)).collect();
    v.push(LineRead::End);
    v
}

fn excl(dirs: &[&str], files: &[&str]) -> Exclusions {
    Exclusions {
        dirs: dirs.iter().map(|s| s.to_string()).collect(),
        files: files.iter().map(|s| s.to_string()).collect(),
    }
}

#[test]
fn exclusions_are_read() {
    let r = reads(&["exclude file\n", "d \\Windows\\\n", "f .tmp\r\n", "  f  x \n"]);
    assert!(exclusions_sliceable(&r));
    let x = parse_exclusions("/e", &r).ok().unwrap();
    assert_eq!(x.dirs, vec!["\\Windows\\".to_string()]);
    assert_eq!(x.files, vec![".tmp".to_string(), " x".to_string()]);
}

#[test]
fn exclusion_errors() {
    let e = parse_exclusions("/e", &reads(&["exclude file\n", "d\n"])).err().unwrap();
    assert_eq!(e, (1, "exclusion less than 3 characters: d".to_string()));
    let e = parse_exclusions("/e", &reads(&["exclude file\n", "x abc\n"])).err().unwrap();
    assert_eq!(e, (2, "exclusion invalid first two characters x abc".to_string()));
    let e = parse_exclusions("/e", &reads(&["exclude file\n"])).err().unwrap();
    assert_eq!(e, (4, "exclusion file /e has no records".to_string()));
    let e = parse_exclusions("/e", &vec![]).err().unwrap();
    assert_eq!(e.0, 4);
    let r = vec![line("h\n"), LineRead::Failed { display: "broken".to_string(), debug: "B".to_string() }];
    let e = parse_exclusions("/e", &r).err().unwrap();
    assert_eq!(e, (3, "error broken when reading exclusion file".to_string()));
    // a 2-byte first character cuts at byte 2 and is compared against "d "
    let e = parse_exclusions("/e", &reads(&["h\n", "éab\n"])).err().unwrap();
    assert_eq!(e.0, 2);
    // "d" is 1 byte but the second character is 2 bytes: byte 2 is inside it
    assert!(!exclusions_sliceable(&reads(&["h\n", "dé\n"])));
    // the header line is never checked
    assert!(exclusions_sliceable(&reads(&["dé\n", "d a\n"])));
}

const LINE: &str = "\"C:\\Users\\bob\\report.tmp\",\"2021-04-30 21:14\",\"1234\"\n";

#[test]
fn records_from_listing_lines() {
    let x = excl(&["Users"], &[".tmp"]);
    let r = line_record(LINE, 3, &x, "DATE").unwrap();
    assert_eq!(r.sink, Sink::ExcludedByFile);
    assert_eq!(r.text, "report.tmp|C:\\Users\\bob|DATE|1234|f");
    let x = excl(&["Users"], &[".doc"]);
    let r = line_record(LINE, 3, &x, "DATE").unwrap();
    assert_eq!(r.sink, Sink::ExcludedByDir);
    assert_eq!(r.text, "report.tmp|C:\\Users\\bob|DATE|1234|d");
    let x = excl(&[], &[]);
    let r = line_record(LINE, 3, &x, "DATE").unwrap();
    assert_eq!(r.sink, Sink::Good);
    assert_eq!(r.text, "report.tmp|C:\\Users\\bob|DATE|1234|good");
    assert!(line_record(LINE, 2, &x, "DATE").is_none());
    assert!(line_record("\"a\",\"b\"\n", 5, &x, "DATE").is_none());
    let r = line_record("\"\\top.txt\",\"d\",\"9\"\n", 5, &x, "D").unwrap();
    assert_eq!(r.text, "\\top.txt||D|9|good");
    let r = line_record("\"plain.txt\",\"d\",\"9\"\n", 5, &x, "D").unwrap();
    assert_eq!(r.text, "plain.txt||D|9|good");
    assert_eq!(chars_of("x").len(), 1);
}

#[test]
fn date_text() {
    assert_eq!(listing_date_text("2017-11-25T22:34:50Z"), "2017-11-25 22:34:50");
    assert_eq!(listing_date_text("2021-04-30 21:14"), "2021-04-30 21:14:00");
    let bad = listing_date_text("not a date");
    assert!(bad.starts_with("error "));
    assert!(bad.ends_with(" date"));
    assert_eq!(date_field(Ok("T".to_string())), "T");
    assert_eq!(date_field(Err("E".to_string())), "error E date");
}

fn chars(s: &str) -> Vec<char> {
    s.chars().collect()
}

#[test]
fn date_offsets_that_cannot_be_read() {
    assert!(!date_readable(&chars("2021-01-01 +9900")));
    assert!(!date_readable(&chars("2021-01-01 10:00:00 -24:00")));
    assert!(!date_readable(&chars("6:00 AM +25:30")));
    assert!(date_readable(&chars("2021-01-01 10:00:00 +23:59")));
    assert!(date_readable(&chars("2017-11-25T22:34:50Z")));
    assert!(date_readable(&chars("2017-11-25")));
    assert!(date_readable(&chars("2021-01-01 +99")));
    assert!(date_readable(&chars("")));
    assert!(date_readable(&chars("Hello +2500")));
    assert!(date_readable(&chars("Hello 12 +2500")));
    assert!(!date_readable(&chars("May 02, 2021 15:51:31 +2500")));
    assert!(!date_readable(&chars("September 17, 2012 at 10:09am -2430")));
    assert!(!date_readable(&chars("2021-01-01+25:00")));
    assert!(!date_readable(&chars("4:00pm +2500")));
    assert!(date_readable(&chars("4:00pm+2500")));
    assert!(!date_readable(&chars("2021-01-01 10:00:00.123+2500")));
    assert!(date_readable(&chars("2021-01-01 10:00:00.1234567890+2500")));
    assert!(date_readable(&chars("2021-01-01 10:00:00 +2560")));
}

#[test]
fn date_texts_of_other_forms_are_read_without_panic() {
    let hello = listing_date_text("Hello +2500");
    assert!(hello.starts_with("error "));
    assert!(hello.ends_with(" date"));
}

#[test]
fn date_text_with_offset_in_range() {
    assert_eq!(listing_date_text("2014-04-26 13:13:43 +0800"), "2014-04-26 05:13:43");
}
