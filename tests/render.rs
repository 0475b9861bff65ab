use ritz::data::{
    get_commitinfo, CommitError, CommitInfo, CommitMeta, DeltaInfo, DeltaStatus, FileDelta,
    Hunk, Line, Patch, Signature,
};
use ritz::diffstat::{diffstat_summary, print_diffstat, scale_bar, status_code, DIFFSTAT_WIDTH};
use ritz::patch::print_diff;
use ritz::time::Time;

fn meta() -> CommitMeta {
    CommitMeta {
        oid: "abc123".to_string(),
        parentoid: None,
        author: Signature {
            name: "Ann".to_string(),
            email: "ann@example.org".to_string(),
            when: Time { seconds: 1704463402, offset_minutes: 0 },
        },
        summary: Some("Fix it".to_string()),
        msg: Some("Fix it\n".to_string()),
    }
}

fn delta(status: DeltaStatus, old: &str, new: &str, binary: bool) -> FileDelta {
    FileDelta { status, old_path: old.to_string(), new_path: new.to_string(), binary }
}

fn line(old: Option<u32>, new: Option<u32>, content: &str) -> Line {
    Line { old_lineno: old, new_lineno: new, content: content.as_bytes().to_vec() }
}

fn info(d: FileDelta, hunks: Vec<Hunk>, add: u64, del: u64) -> DeltaInfo {
    DeltaInfo { patch: Patch { delta: d, hunks }, add_count: add, del_count: del }
}

fn commit(ds: Vec<DeltaInfo>) -> CommitInfo {
    get_commitinfo(meta(), ds.into_iter().map(Some).collect()).unwrap()
}

/// Every `id="..."` in the text, in order.
fn anchor_ids(text: &str) -> Vec<String> {
    let mut ids = Vec::new();
    let mut rest = text;
    while let Some(p) = rest.find("id=\"") {
        let after = &rest[p + 4..];
        let end = after.find('"').unwrap();
        ids.push(after[..end].to_string());
        rest = &after[end..];
    }
    ids
}

#[test]
fn totals_are_sums_of_file_counts() {
    let ci = commit(vec![
        info(delta(DeltaStatus::Modified, "a", "a", false), vec![], 3, 1),
        info(delta(DeltaStatus::Added, "b", "b", false), vec![], 7, 0),
        info(delta(DeltaStatus::Deleted, "c", "c", false), vec![], 0, 5),
    ]);
    assert_eq!(ci.add_count, 10);
    assert_eq!(ci.del_count, 6);
    assert_eq!(ci.file_count, 3);
    let added: u128 = ci.deltas.iter().map(|d| d.add_count as u128).sum();
    let deleted: u128 = ci.deltas.iter().map(|d| d.del_count as u128).sum();
    assert_eq!(added, ci.add_count);
    assert_eq!(deleted, ci.del_count);
    assert_eq!(ci.oid, "abc123");
}

#[test]
fn totals_do_not_overflow_on_huge_counts() {
    let ci = commit(vec![
        info(delta(DeltaStatus::Modified, "a", "a", false), vec![], u64::MAX, u64::MAX),
        info(delta(DeltaStatus::Modified, "b", "b", false), vec![], u64::MAX, 1),
    ]);
    assert_eq!(ci.add_count, 2 * (u64::MAX as u128));
    assert_eq!(ci.del_count, u64::MAX as u128 + 1);
}

#[test]
fn missing_patch_fails_the_view() {
    let d = || Some(info(delta(DeltaStatus::Modified, "a", "a", false), vec![], 1, 1));
    let r = get_commitinfo(meta(), vec![d(), None, d(), None]);
    assert_eq!(r.err(), Some(CommitError::PatchUnavailable { delta_index: 1 }));
    let r = get_commitinfo(meta(), vec![None]);
    assert_eq!(r.err(), Some(CommitError::PatchUnavailable { delta_index: 0 }));
}

#[test]
fn empty_commit_has_zero_totals() {
    let ci = commit(vec![]);
    assert_eq!((ci.add_count, ci.del_count, ci.file_count), (0, 0, 0));
    assert_eq!(print_diff(&ci), "");
}

#[test]
fn status_codes() {
    assert_eq!(status_code(DeltaStatus::Added), 'A');
    assert_eq!(status_code(DeltaStatus::Copied), 'C');
    assert_eq!(status_code(DeltaStatus::Deleted), 'D');
    assert_eq!(status_code(DeltaStatus::Modified), 'M');
    assert_eq!(status_code(DeltaStatus::Renamed), 'R');
    assert_eq!(status_code(DeltaStatus::Typechange), 'T');
    assert_eq!(status_code(DeltaStatus::Unclassified), ' ');
}

#[test]
fn bar_is_unscaled_within_budget() {
    assert_eq!(DIFFSTAT_WIDTH, 80);
    assert_eq!(scale_bar(3, 2, 80), (3, 2));
    assert_eq!(scale_bar(50, 30, 80), (50, 30));
    assert_eq!(scale_bar(0, 0, 80), (0, 0));
    let (a, d) = scale_bar(79, 1, 80);
    assert_eq!(a + d, 80);
}

#[test]
fn bar_is_scaled_beyond_budget() {
    assert_eq!(scale_bar(60, 40, 80), (49, 33));
    assert_eq!(scale_bar(100, 0, 80), (81, 0));
    assert_eq!(scale_bar(0, 81, 80), (0, 81));
    assert_eq!(scale_bar(1, 1_000_000, 80), (1, 80));
    assert_eq!(scale_bar(u64::MAX, u64::MAX, 80), (41, 41));
}

#[test]
fn summary_pluralization() {
    assert_eq!(diffstat_summary(1, 1, 1), "1 file changed, 1 insertion(+), 1 deletion(-)\n");
    assert_eq!(diffstat_summary(0, 0, 0), "0 files changed, 0 insertions(+), 0 deletions(-)\n");
    assert_eq!(diffstat_summary(2, 5, 3), "2 files changed, 5 insertions(+), 3 deletions(-)\n");
    assert_eq!(diffstat_summary(12, 1, 0), "12 files changed, 1 insertion(+), 0 deletions(-)\n");
}

#[test]
fn diffstat_of_one_modified_file() {
    let ci = commit(vec![info(delta(DeltaStatus::Modified, "a.txt", "a.txt", false), vec![], 2, 1)]);
    assert_eq!(
        print_diffstat(&ci),
        "<b>Diffstat:</b>\n<table><tr><td class=\"M\">M</td><td><a href=\"#h0\">a.txt</a>\
         </td><td> | </td><td class=\"num\">3</td><td><span class=\"i\">++</span>\
         <span class=\"d\">-</span></td></tr>\n</table></pre>\
         <pre>1 file changed, 2 insertions(+), 1 deletion(-)\n<hr/>"
    );
}

#[test]
fn diffstat_shows_rename_and_escapes_paths() {
    let ci = commit(vec![
        info(delta(DeltaStatus::Unclassified, "x", "x", false), vec![], 0, 0),
        info(delta(DeltaStatus::Renamed, "old<1>", "new&2", false), vec![], 0, 0),
    ]);
    let out = print_diffstat(&ci);
    assert!(out.contains("<tr><td> </td><td><a href=\"#h0\">x</a>"));
    assert!(out.contains(
        "<tr><td class=\"R\">R</td><td><a href=\"#h1\">old&lt;1&gt; -> new&amp;2</a>"
    ));
    assert!(out.ends_with("<pre>2 files changed, 0 insertions(+), 0 deletions(-)\n<hr/>"));
}

#[test]
fn diffstat_bar_of_large_file_is_scaled() {
    let ci = commit(vec![info(delta(DeltaStatus::Modified, "big", "big", false), vec![], 60, 40)]);
    let out = print_diffstat(&ci);
    let bar = format!(
        "<td class=\"num\">100</td><td><span class=\"i\">{}</span><span class=\"d\">{}</span>",
        "+".repeat(49),
        "-".repeat(33)
    );
    assert!(out.contains(&bar));
}

#[test]
fn diffstat_bar_length_within_budget() {
    let ci = commit(vec![info(delta(DeltaStatus::Modified, "f", "f", false), vec![], 50, 30)]);
    let out = print_diffstat(&ci);
    let pluses = out.matches('+').count() - out.matches("(+)").count();
    let minuses = out.matches('-').count() - out.matches("(-)").count();
    assert_eq!(pluses + minuses, 80);
    assert_eq!(pluses, 50);
}

#[test]
fn initial_commit_lists_every_file_as_added() {
    let ci = commit(vec![
        info(delta(DeltaStatus::Added, "README", "README", false), vec![], 4, 0),
        info(delta(DeltaStatus::Added, "src/main.c", "src/main.c", false), vec![], 10, 0),
    ]);
    let out = print_diffstat(&ci);
    assert_eq!(out.matches("<td class=\"A\">A</td>").count(), 2);
    assert!(ci.deltas.iter().all(|d| d.del_count == 0));
    assert!(out.contains("2 files changed, 14 insertions(+), 0 deletions(-)"));
}

#[test]
fn anchors_are_unique_and_in_order() {
    let h = Hunk {
        header: b"@@ -1,2 +1,2 @@\n".to_vec(),
        lines: vec![
            line(None, Some(1), "new\n"),
            line(Some(1), None, "old\n"),
            line(None, Some(2), "more\n"),
        ],
    };
    let ci = commit(vec![
        info(delta(DeltaStatus::Modified, "a", "a", false), vec![h], 2, 1),
        info(delta(DeltaStatus::Modified, "b", "b", false), vec![], 0, 0),
    ]);
    let ids = anchor_ids(&print_diff(&ci));
    assert_eq!(ids, vec!["h0", "h0-0", "h0-0-0", "h0-0-1", "h0-0-2", "h1"]);
}

#[test]
fn patch_of_one_file() {
    let h = Hunk {
        header: b"@@ -1 +1,2 @@ fn <a>\n".to_vec(),
        lines: vec![
            line(Some(1), Some(1), "keep\n"),
            line(None, Some(2), "if a < b\r\n"),
            line(Some(2), None, "gone\n"),
        ],
    };
    let ci = commit(vec![info(delta(DeltaStatus::Modified, "f.c", "f.c", false), vec![h], 1, 1)]);
    assert_eq!(
        print_diff(&ci),
        "<b>diff --git a/<a id=\"h0\" href=\"../tree/f.c\">f.c</a> b/<a href=\"../tree/f.c\">f.c</a></b>\n\
         <a href=\"#h0-0\" id=\"h0-0\" class=\"h\">@@ -1 +1,2 @@ fn &lt;a&gt;\n</a> keep\n\
         <a href=\"#h0-0-1\" id=\"h0-0-1\" class=\"i\">+if a &lt; b\n</a>\
         <a href=\"#h0-0-2\" id=\"h0-0-2\" class=\"d\">-gone\n</a>"
    );
}

#[test]
fn binary_file_has_marker_and_no_hunk_anchors() {
    let h = Hunk { header: b"@@ -1 +1 @@\n".to_vec(), lines: vec![line(None, Some(1), "x\n")] };
    let ci = commit(vec![info(delta(DeltaStatus::Modified, "img.png", "img.png", true), vec![h], 0, 0)]);
    let out = print_diff(&ci);
    assert!(out.ends_with("</a></b>\nBinary files differ\n"));
    assert_eq!(anchor_ids(&out), vec!["h0"]);
    let stat = print_diffstat(&ci);
    assert!(stat.contains("<span class=\"i\"></span><span class=\"d\"></span>"));
}

#[test]
fn invalid_utf8_line_is_decoded_lossily() {
    let h = Hunk {
        header: b"@@ -0,0 +1 @@\n".to_vec(),
        lines: vec![Line { old_lineno: None, new_lineno: Some(1), content: vec![b'a', 0xff, b'b', b'\n'] }],
    };
    let ci = commit(vec![info(delta(DeltaStatus::Added, "f", "f", false), vec![h], 1, 0)]);
    let out = print_diff(&ci);
    assert!(out.contains("class=\"i\">+a\u{FFFD}b\n</a>"));
}
