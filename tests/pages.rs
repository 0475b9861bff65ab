use ritz::commit::print_commit;
use ritz::data::{get_commitinfo, CommitMeta, Signature};
use ritz::log::print_log_line;
use ritz::refs::{refs_cmp, write_refs, RefEntry};
use ritz::time::{print_time, print_time_short, Time, TimeError, MAX_TIMESTAMP, MIN_TIMESTAMP};
use std::cmp::Ordering;

fn when(seconds: i64, offset_minutes: i32) -> Time {
    Time { seconds, offset_minutes }
}

fn sample(parent: Option<&str>, t: Time) -> ritz::data::CommitInfo {
    let meta = CommitMeta {
        oid: "c0ffee".to_string(),
        parentoid: parent.map(|p| p.to_string()),
        author: Signature { name: "A <B>".to_string(), email: "a@b.c".to_string(), when: t },
        summary: Some("Add it".to_string()),
        msg: Some("Add it\n\nBody & more".to_string()),
    };
    get_commitinfo(meta, vec![]).unwrap()
}

fn entry(name: &str, is_tag: bool, seconds: i64) -> RefEntry {
    RefEntry { name: name.to_string(), is_tag, when: when(seconds, 0), author_name: "Ann".to_string() }
}

#[test]
fn long_time_form() {
    assert_eq!(print_time(when(1704463402, 0)).unwrap(), "Fri, 2024 Jan 5 14:03:22 +0000");
    assert_eq!(print_time(when(1704463402, 60)).unwrap(), "Fri, 2024 Jan 5 15:03:22 +0100");
    assert_eq!(print_time(when(0, -90)).unwrap(), "Wed, 1969 Dec 31 22:30:00 -0130");
}

#[test]
fn long_time_errors() {
    assert_eq!(print_time(when(0, 1440)), Err(TimeError::OffsetOutOfRange));
    assert_eq!(print_time(when(0, i32::MIN)), Err(TimeError::OffsetOutOfRange));
    assert_eq!(print_time(when(i64::MAX, 0)), Err(TimeError::SecondsOutOfRange));
    assert!(print_time(when(0, 1439)).is_ok());
}

#[test]
fn short_time_form() {
    assert_eq!(print_time_short(when(1704463402, 120)).unwrap(), "2024-01-05 14:03");
    assert_eq!(print_time_short(when(i64::MIN, 0)), Err(TimeError::SecondsOutOfRange));
}

#[test]
fn commit_head() {
    let ci = sample(Some("beef"), when(1704463402, 0));
    assert_eq!(
        print_commit(&ci).unwrap(),
        "<b>commit</b> <a href=\"../commit/c0ffee\">c0ffee</a>\n\
         <b>parent</b> <a href=\"../commit/beef\">beef</a>\n\
         <b>Author:</b> A &lt;B&gt; <<a href=\"mailto:a@b.c\">a@b.c</a>>\n\
         <b>Date:</b>   Fri, 2024 Jan 5 14:03:22 +0000\n\
         \nAdd it\n\nBody &amp; more\n"
    );
    let root = sample(None, when(1704463402, 0));
    assert!(!print_commit(&root).unwrap().contains("parent"));
    assert_eq!(print_commit(&sample(None, when(0, 5000))), Err(TimeError::OffsetOutOfRange));
}

#[test]
fn log_row() {
    let ci = sample(None, when(1704463402, 0));
    assert_eq!(
        print_log_line("ritz", &ci).unwrap(),
        "<tr><td>2024-01-05 14:03</td><td><a href=\"/ritz/commit/c0ffee/\">Add it</a></td>\
         <td>A &lt;B&gt;</td><td class=\"num\" align=\"right\">0</td>\
         <td class=\"num\" align=\"right\">+0</td><td class=\"num\" align=\"right\">-0</td></tr>\n"
    );
}

#[test]
fn refs_order() {
    assert_eq!(refs_cmp(&entry("z", false, 1), &entry("a", true, 9)), Ordering::Less);
    assert_eq!(refs_cmp(&entry("a", true, 1), &entry("z", false, 1)), Ordering::Greater);
    assert_eq!(refs_cmp(&entry("a", false, 1), &entry("b", false, 2)), Ordering::Greater);
    assert_eq!(refs_cmp(&entry("a", false, 2), &entry("b", false, 2)), Ordering::Less);
    assert_eq!(refs_cmp(&entry("ab", false, 2), &entry("a", false, 2)), Ordering::Greater);
    assert_eq!(refs_cmp(&entry("a", false, 2), &entry("a", false, 2)), Ordering::Equal);
    let mut v = vec![entry("v1", true, 5), entry("dev", false, 3), entry("main", false, 7)];
    v.sort_by(refs_cmp);
    let names: Vec<&str> = v.iter().map(|e| e.name.as_str()).collect();
    assert_eq!(names, vec!["main", "dev", "v1"]);
}

#[test]
fn refs_tables() {
    let out = write_refs(&vec![entry("main", false, 1704463402), entry("v<1>", true, 0)]).unwrap();
    let head = |title: &str, id: &str| {
        format!(
            "<h2>{}</h2>\n                   <table id=\"{}\">\n                   <thead>\n<tr>\n                   <td><b>Name</b></td>\n                   <td><b>Last commit date</b></td>\n                   <td><b>Author</b></td>\n                   </tr></thead>\n                   <tbody>",
            title, id
        )
    };
    let expected = format!(
        "{}<tr><td>main</td><td>2024-01-05 14:03</td><td>Ann</td></tr>\n</tbody></table><br/>\n\
         {}<tr><td>v&lt;1&gt;</td><td>1970-01-01 00:00</td><td>Ann</td></tr>\n</tbody></table>",
        head("Branches", "branches"),
        head("Tags", "tags")
    );
    assert_eq!(out, expected);
    assert_eq!(write_refs(&vec![]).unwrap(), "");
    let only_tags = write_refs(&vec![entry("t", true, 0)]).unwrap();
    assert!(only_tags.starts_with("<h2>Tags</h2>"));
    assert_eq!(write_refs(&vec![entry("x", false, i64::MAX)]), Err(TimeError::SecondsOutOfRange));
}

#[test]
fn log_row_escapes_summary_and_author() {
    let mut ci = sample(None, when(0, 0));
    ci.summary = Some("x<y & \"z\"".to_string());
    let row = print_log_line("r", &ci).unwrap();
    assert!(row.contains("/\">x&lt;y &amp; &quot;z&quot;</a>"));
    assert!(row.contains("<td>A &lt;B&gt;</td>"));
    assert!(!row.contains("<B>"));
}

#[test]
fn calendar_range_bounds() {
    assert_eq!(print_time_short(when(MIN_TIMESTAMP, 0)).unwrap(), "-262143-01-01 00:00");
    assert_eq!(print_time_short(when(MAX_TIMESTAMP, 0)).unwrap(), "+262142-12-31 23:59");
    assert_eq!(print_time_short(when(MIN_TIMESTAMP - 1, 0)), Err(TimeError::SecondsOutOfRange));
    assert_eq!(print_time_short(when(MAX_TIMESTAMP + 1, 0)), Err(TimeError::SecondsOutOfRange));
    assert!(print_time(when(MIN_TIMESTAMP, 0)).is_ok());
    assert!(print_time(when(MAX_TIMESTAMP, 0)).is_ok());
    assert_eq!(print_time(when(MIN_TIMESTAMP - 1, 0)), Err(TimeError::SecondsOutOfRange));
    assert_eq!(print_time(when(MAX_TIMESTAMP + 1, 0)), Err(TimeError::SecondsOutOfRange));
}
